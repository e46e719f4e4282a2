//! The shared control block of a playback session and the two ends that
//! hold it: the handle of the controller and the view of the playback unit.
//!
//! Each field is a single atomic word. The controller writes the stop and
//! fade fields and the playback unit reads them; the volume is written by the
//! playback unit alone. What a word holds at a given moment depends on the
//! other thread, so the contracts here say which words the two ends hold,
//! not what is in them.

use vstd::prelude::*;
use std::sync::atomic::{AtomicBool, AtomicU32, Ordering};
use std::sync::Arc;
use crate::playback::ControlSnapshot;

verus! {

/// Volume of a fresh session, in permille.
pub const START_VOLUME: u32 = 1000;

/// Fade duration of a fresh session, until a fade-out names its own.
pub const DEFAULT_FADE_MS: u32 = 3000;

/// The controller's end of a playing stream: fade it out or stop it.
pub struct PlayHandle {
    stop_flag: Arc<AtomicBool>,
    volume: Arc<AtomicU32>,
    fade_flag: Arc<AtomicBool>,
    fade_duration_ms: Arc<AtomicU32>,
}

/// The playback unit's end of the same control block.
pub struct PlayControl {
    stop_flag: Arc<AtomicBool>,
    volume: Arc<AtomicU32>,
    fade_flag: Arc<AtomicBool>,
    fade_duration_ms: Arc<AtomicU32>,
}

impl PlayHandle {
    /// The handle and `control` are the two ends of one control block: each
    /// of the four words that the one holds is the word that the other
    /// holds.
    pub closed spec fn controls(&self, control: &PlayControl) -> bool {
        &&& self.stop_flag == control.stop_flag
        &&& self.volume == control.volume
        &&& self.fade_flag == control.fade_flag
        &&& self.fade_duration_ms == control.fade_duration_ms
    }

    /// Asks for a linear fade to silence over `duration_ms` milliseconds.
    /// The duration is stored before the flag is raised, so a playback unit
    /// that sees the flag reads the duration that belongs to it.
    pub fn fade_out(&self, duration_ms: u32) {
        self.fade_duration_ms.store(duration_ms, Ordering::Relaxed);
        self.fade_flag.store(true, Ordering::Relaxed);
    }

    /// Asks for playback to end before the next chunk is written.
    pub fn stop(&self) {
        self.stop_flag.store(true, Ordering::Relaxed);
    }

    /// The volume that the playback unit published last, in permille.
    pub fn volume(&self) -> u32 {
        self.volume.load(Ordering::Relaxed)
    }
}

impl PlayControl {
    /// Reads what the controller has asked for. The three fields are read
    /// one by one; the flag of a fade is read before its duration.
    pub fn observe(&self) -> ControlSnapshot {
        let stop = self.stop_flag.load(Ordering::Relaxed);
        let fading = self.fade_flag.load(Ordering::Relaxed);
        let fade_duration_ms = self.fade_duration_ms.load(Ordering::Relaxed);
        ControlSnapshot { stop, fading, fade_duration_ms }
    }

    /// Whether a stop has been requested.
    pub fn stop_requested(&self) -> bool {
        self.stop_flag.load(Ordering::Relaxed)
    }

    /// Publishes the current volume, in permille.
    pub fn publish_volume(&self, volume: u32) {
        self.volume.store(volume, Ordering::Relaxed);
    }

    /// The volume that was published last, in permille.
    pub fn volume(&self) -> u32 {
        self.volume.load(Ordering::Relaxed)
    }
}

/// Creates the control block of one session and hands out its two ends: no
/// stop, no fade, a fade duration of three seconds, full volume. What the
/// words hold is beyond what can be stated of atomics; that both ends hold
/// the same words is stated.
pub fn control_pair() -> (ends: (PlayHandle, PlayControl))
    ensures
        ends.0.controls(&ends.1),
{
    let stop_flag = Arc::new(AtomicBool::new(false));
    let volume = Arc::new(AtomicU32::new(START_VOLUME));
    let fade_flag = Arc::new(AtomicBool::new(false));
    let fade_duration_ms = Arc::new(AtomicU32::new(DEFAULT_FADE_MS));
    let handle = PlayHandle {
        stop_flag: stop_flag.clone(),
        volume: volume.clone(),
        fade_flag: fade_flag.clone(),
        fade_duration_ms: fade_duration_ms.clone(),
    };
    let control = PlayControl { stop_flag, volume, fade_flag, fade_duration_ms };
    (handle, control)
}

/// Whether the process has a PCM device to play on. A device that is missing
/// at start-up stays missing: playback is disabled, never retried.
pub struct AudioPlayer {
    available: bool,
}

impl AudioPlayer {
    pub closed spec fn available(&self) -> bool {
        self.available
    }

    /// The player for a process whose probe of the device node gave
    /// `device_found`.
    pub fn with_probe(device_found: bool) -> (player: AudioPlayer)
        ensures
            player.available() == device_found,
    {
        AudioPlayer { available: device_found }
    }

    /// Records that the device could not be opened: playback stays off from
    /// here on.
    pub fn disable(&mut self)
        ensures
            !final(self).available(),
    {
        self.available = false;
    }

    pub fn is_available(&self) -> (yes: bool)
        ensures
            yes == self.available(),
    {
        self.available
    }

    /// Opens a controlled session: both ends of a fresh control block, or
    /// nothing where there is no device.
    pub fn open_session(&self) -> (ends: Option<(PlayHandle, PlayControl)>)
        ensures
            ends is Some <==> self.available(),
            ends matches Some(e) ==> e.0.controls(&e.1),
    {
        if !self.available {
            return None;
        }
        Some(control_pair())
    }
}

} // verus!
