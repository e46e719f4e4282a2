use nebula::color::{AccentPreset, TimeOfDay};
use nebula::facet::{Capability, EditorFacet, FacetState, FilesFacet, TerminalFacet};
use nebula::feed::{FeedSource, Priority};
use nebula::font::{get_glyph, glyph_dot};
use nebula::keys::{evdev_to_key, Key, Modifiers, MouseButton};
use nebula::telemetry::{process_spike, AlertKind, TelemetryAlert};
use nebula::widgets::{key_value_lines, push_decimal, push_spaces, relative_time};

#[test]
fn feed_sources_have_icons_and_labels() {
    let all = [
        (FeedSource::System, "S", "System"),
        (FeedSource::Brain, "B", "Brain"),
        (FeedSource::WorldModel, "W", "World Model"),
        (FeedSource::User, "U", "User"),
        (FeedSource::Task, "T", "Task"),
    ];
    for (source, icon, label) in all {
        assert_eq!(source.icon(), icon);
        assert_eq!(source.label(), label);
    }
}

#[test]
fn priorities_are_ranked() {
    assert_eq!(Priority::Urgent.rank(), 0);
    assert_eq!(Priority::Normal.rank(), 1);
    assert_eq!(Priority::Low.rank(), 2);
    assert!(Priority::Urgent.outranks(&Priority::Normal));
    assert!(Priority::Normal.outranks(&Priority::Low));
    assert!(!Priority::Low.outranks(&Priority::Low));
    assert!(!Priority::Low.outranks(&Priority::Urgent));
}

#[test]
fn alert_kinds_have_labels_and_priorities() {
    let all = [
        (AlertKind::HighCpu, "High CPU Usage", Priority::Urgent),
        (AlertKind::HighMemory, "Memory Spike", Priority::Normal),
        (AlertKind::LowMemory, "Low Memory", Priority::Urgent),
        (AlertKind::NetworkDown, "Network Down", Priority::Urgent),
        (AlertKind::NetworkUp, "Network Connected", Priority::Normal),
        (AlertKind::ProcessSpike, "Process Spike", Priority::Normal),
        (AlertKind::UptimeMilestone, "Uptime Milestone", Priority::Low),
    ];
    for (kind, label, priority) in all {
        assert_eq!(kind.label(), label);
        assert_eq!(kind.priority(), priority);
        let alert = TelemetryAlert::new(kind, format!("{} now", label));
        assert_eq!(alert.kind, kind);
        assert_eq!(alert.priority, priority);
        assert_eq!(alert.message, format!("{} now", label));
    }
}

#[test]
fn process_spike_needs_more_than_twenty() {
    assert!(!process_spike(100, 120));
    assert!(process_spike(100, 121));
    assert!(!process_spike(100, 50));
    assert!(!process_spike(u32::MAX - 5, u32::MAX));
    assert!(process_spike(0, u32::MAX));
}

#[test]
fn hours_fall_into_parts_of_the_day() {
    let expected = [
        (0, TimeOfDay::Night), (4, TimeOfDay::Night), (5, TimeOfDay::Dawn), (6, TimeOfDay::Dawn),
        (7, TimeOfDay::Morning), (11, TimeOfDay::Morning), (12, TimeOfDay::Day),
        (16, TimeOfDay::Day), (17, TimeOfDay::Evening), (19, TimeOfDay::Evening),
        (20, TimeOfDay::Dusk), (21, TimeOfDay::Dusk), (22, TimeOfDay::Night),
        (23, TimeOfDay::Night), (24, TimeOfDay::Night), (u32::MAX, TimeOfDay::Night),
    ];
    for (hour, part) in expected {
        assert_eq!(TimeOfDay::from_hour(hour), part);
    }
    assert_ne!(AccentPreset::Blue, AccentPreset::Cyan);
}

#[test]
fn evdev_codes_map_to_keys() {
    let expected = [
        (1, Key::Escape), (14, Key::Backspace), (15, Key::Tab), (28, Key::Enter),
        (29, Key::Control), (42, Key::Shift), (54, Key::Shift), (56, Key::Alt),
        (57, Key::Space), (0, Key::Unknown), (2, Key::Unknown), (30, Key::Unknown),
        (0x110, Key::Unknown), (u16::MAX, Key::Unknown),
    ];
    for (code, key) in expected {
        assert_eq!(evdev_to_key(code), key);
    }
    assert_ne!(MouseButton::Left, MouseButton::Right);
}

#[test]
fn modifiers_track_their_keys() {
    let mut m = Modifiers::none();
    assert!(!m.any());
    m.track(Key::A, true);
    assert!(!m.any());
    m.track(Key::Shift, true);
    assert!(m.any());
    assert!(m.shift && !m.control && !m.alt && !m.meta);
    m.track(Key::Meta, true);
    m.track(Key::Shift, false);
    assert_eq!(m, Modifiers { shift: false, control: false, alt: false, meta: true });
    m.track(Key::Meta, false);
    assert!(!m.any());
    for held in [
        Modifiers { shift: true, ..Modifiers::none() },
        Modifiers { control: true, ..Modifiers::none() },
        Modifiers { alt: true, ..Modifiers::none() },
        Modifiers { meta: true, ..Modifiers::none() },
    ] {
        assert!(held.any());
    }
}

#[test]
fn relative_time_in_words() {
    assert_eq!(relative_time(0), "just now");
    assert_eq!(relative_time(4), "just now");
    assert_eq!(relative_time(5), "5s ago");
    assert_eq!(relative_time(59), "59s ago");
    assert_eq!(relative_time(60), "1m ago");
    assert_eq!(relative_time(61), "1m1s ago");
    assert_eq!(relative_time(3599), "59m59s ago");
    assert_eq!(relative_time(3600), "1h ago");
    assert_eq!(relative_time(3659), "1h ago");
    assert_eq!(relative_time(3660), "1h1m ago");
    assert_eq!(relative_time(86399), "23h59m ago");
    assert_eq!(relative_time(360000), "100h ago");
    assert_eq!(relative_time(u64::MAX), "5124095576030431h ago");
}

#[test]
fn decimal_digits() {
    for n in [0u64, 7, 10, 99, 100, 1234567890, u64::MAX] {
        let mut s = String::from("n=");
        push_decimal(&mut s, n);
        assert_eq!(s, format!("n={}", n));
    }
    let mut s = String::from("a");
    push_spaces(&mut s, 3);
    push_spaces(&mut s, 0);
    assert_eq!(s, "a   ");
}

#[test]
fn key_value_lines_are_aligned() {
    let lines = key_value_lines(&[("CPU", "12%"), ("Memory", "3/8GB"), ("", "x")], 6);
    assert_eq!(lines, vec!["CPU    12%", "Memory 3/8GB", "       x"]);
    // A key that is too wide is not cut.
    assert_eq!(key_value_lines(&[("Uptime", "1h")], 3), vec!["Uptime 1h"]);
    assert_eq!(key_value_lines(&[("k", "v")], 0), vec!["k v"]);
    // The width counts bytes.
    assert_eq!(key_value_lines(&[("é", "v")], 4), vec!["é   v"]);
    assert!(key_value_lines(&[], 10).is_empty());
}

#[test]
fn built_in_facets_start_out_empty() {
    let t = TerminalFacet::new();
    assert_eq!((t.id(), t.name()), ("terminal", "Terminal"));
    assert_eq!(
        t.capabilities(),
        vec![Capability::ReadText, Capability::WriteText, Capability::FileAccess]
    );
    let e = EditorFacet::new();
    assert_eq!((e.id(), e.name()), ("editor", "Editor"));
    assert_eq!(e.capabilities(), t.capabilities());
    let f = FilesFacet::new();
    assert_eq!((f.id(), f.name()), ("files", "Files"));
    assert_eq!(f.capabilities(), vec![Capability::FileAccess]);
    assert_eq!(f.selection(), 0);
    assert_eq!(f.selected_path(), Some("/..".to_string()));
    assert_ne!(FacetState::Loading, FacetState::Active);
}

#[test]
fn file_browser_selection_stays_inside_the_list() {
    let mut f = FilesFacet::new();
    f.on_key(Key::Up, true);
    assert_eq!(f.selection(), 0);
    f.on_key(Key::Down, true);
    assert_eq!(f.selected_path(), Some("/home/".to_string()));
    f.on_key(Key::Down, false);
    assert_eq!(f.selection(), 1);
    f.on_key(Key::Down, true);
    f.on_key(Key::Down, true);
    assert_eq!(f.selected_path(), Some("/tmp/".to_string()));
    f.on_key(Key::Down, true);
    assert_eq!(f.selection(), 3);
    f.on_key(Key::Enter, true);
    f.on_key(Key::A, true);
    assert_eq!(f.selection(), 3);
    f.on_key(Key::Up, true);
    assert_eq!(f.selected_path(), Some("/etc/".to_string()));
}

#[test]
fn glyphs_of_the_built_in_font() {
    assert_eq!(get_glyph(' '), Some([0; 7]));
    assert_eq!(
        get_glyph('A'),
        Some([0b01110, 0b10001, 0b10001, 0b11111, 0b10001, 0b10001, 0b10001])
    );
    assert_eq!(get_glyph('a'), get_glyph('A'));
    assert_eq!(get_glyph('z'), get_glyph('Z'));
    assert_eq!(
        get_glyph('\''),
        Some([0b00100, 0b00100, 0, 0, 0, 0, 0])
    );
    assert_eq!(get_glyph('"'), Some([0b01010, 0b01010, 0, 0, 0, 0, 0]));
    assert_eq!(get_glyph('_'), Some([0, 0, 0, 0, 0, 0, 0b11111]));
    for c in ['\\', '^', '`', '{', '|', '}', '~', 'é', '\n', '\0', '🙂'] {
        assert_eq!(get_glyph(c), None, "{:?}", c);
    }
    let mut with_glyph = 0;
    for code in 0u32..128 {
        if let Some(rows) = get_glyph(char::from_u32(code).unwrap()) {
            with_glyph += 1;
            assert!(rows.iter().all(|r| *r < 32));
        }
    }
    assert_eq!(with_glyph, 62 + 26);
    // The dots of "T": a full top row, then the middle column.
    let t = get_glyph('T').unwrap();
    for col in 0..5 {
        assert!(glyph_dot(&t, 0, col));
        for row in 1..7 {
            assert_eq!(glyph_dot(&t, row, col), col == 2);
        }
    }
}
