//! Presentation, audio, input and scene logic of a kiosk shell that talks to
//! the Linux framebuffer, ALSA, console and evdev devices directly.
//!
//! The library holds the decisions: what a WAV container says, which bytes
//! reach the screen, what a run of console bytes or an evdev record means,
//! how the scene stack moves. Opening and driving the devices is left to the
//! program around it, which hands plain values in and takes plain values out.
//!
//! The presenter: [`fb`], [`theme`], [`font`]. Audio: [`wav`], [`hw_params`],
//! [`playback`], [`audio`]. Raw input: [`input`], [`bytes`]. Scenes and
//! the loop that drives them: [`scene`], [`scenes`], [`pacing`]. What the shells show
//! and edit: [`text_input`], [`omnibar`], [`canvas`], [`feed`], [`brain`], [`http`], [`tasks`],
//! [`telemetry`], [`context`], [`route`], [`commands`], [`widgets`], [`text`], [`keys`],
//! [`facet`], [`color`].

pub mod bytes;
pub mod text;
pub mod theme;
pub mod font;
pub mod fb;
pub mod wav;
pub mod hw_params;
pub mod playback;
pub mod audio;
pub mod input;
pub mod scene;
pub mod pacing;
pub mod scenes;
pub mod text_input;
pub mod widgets;
pub mod feed;
pub mod telemetry;
pub mod context;
pub mod route;
pub mod commands;
pub mod keys;
pub mod tasks;
pub mod brain;
pub mod http;
pub mod omnibar;
pub mod canvas;
pub mod facet;
pub mod color;
