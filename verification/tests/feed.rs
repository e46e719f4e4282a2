use nebula::text::{contains_text, has_prefix, is_control, same_text};
use nebula::feed::{widget_color, BlockColor, FeedItem, FeedSource, FeedStore, Priority, WidgetData};
use nebula::route::{
    route, select_after_dismiss, select_newest, select_next, select_prev, ActivePanel, AppAction,
    KeyCode, KeyPress,
};
use nebula::telemetry::{
    mem_used_mb, milestone_label, network_alert, network_up, take_milestones, uptime_str, AlertKind,
};

fn item(source: FeedSource, title: &str) -> FeedItem {
    FeedItem::new(source, Priority::Normal, title.to_string(), 100)
}

fn titles(store: &FeedStore, now: u64) -> Vec<String> {
    store.visible_items(now).iter().map(|i| format!("{}:{}", i.id, i.title)).collect()
}

#[test]
fn sources_have_colours() {
    assert_eq!(FeedSource::System.color(), BlockColor::Green);
    assert_eq!(FeedSource::Brain.color(), BlockColor::Yellow);
    assert_eq!(FeedSource::WorldModel.color(), BlockColor::Cyan);
    assert_eq!(FeedSource::User.color(), BlockColor::Blue);
    assert_eq!(FeedSource::Task.color(), BlockColor::White);
}

#[test]
fn fresh_item_is_plain() {
    let i = FeedItem::new(FeedSource::Brain, Priority::Urgent, "hi".to_string(), 42);
    assert_eq!(i.id, 0);
    assert_eq!(i.source, FeedSource::Brain);
    assert_eq!(i.priority, Priority::Urgent);
    assert_eq!(i.title, "hi");
    assert!(i.body.is_empty() && i.widget.is_none());
    assert_eq!(i.created_secs, 42);
    assert!(!i.seen && !i.collapsed && !i.dismissed);
    assert_eq!(i.stale_after_secs, None);
    assert_eq!(i.replaces_source, None);
}

#[test]
fn builders_set_one_field_each() {
    let w = WidgetData {
        widget_type: "weather".to_string(),
        title: "Now".to_string(),
        lines: vec!["sunny".to_string()],
        color: BlockColor::Yellow,
    };
    let i = item(FeedSource::Task, "t")
        .with_body(vec!["a".to_string(), "b".to_string()])
        .with_widget(w)
        .with_stale(30)
        .with_replaces(FeedSource::System);
    assert_eq!(i.body, vec!["a", "b"]);
    assert_eq!(i.widget.as_ref().unwrap().title, "Now");
    assert_eq!(i.widget.as_ref().unwrap().color, BlockColor::Yellow);
    assert_eq!(i.stale_after_secs, Some(30));
    assert_eq!(i.replaces_source, Some(FeedSource::System));
    assert_eq!(i.title, "t");
    assert_eq!(i.created_secs, 100);
}

#[test]
fn items_go_stale_after_their_time() {
    let i = item(FeedSource::System, "s").with_stale(30);
    assert!(!i.is_stale(100));
    assert!(!i.is_stale(129));
    assert!(i.is_stale(130));
    assert!(i.is_stale(u64::MAX));
    // A clock that went backwards counts as no time.
    assert!(!i.is_stale(50));
    assert_eq!(i.age_secs(50), 0);
    assert!(!item(FeedSource::System, "s").is_stale(u64::MAX));
    assert!(item(FeedSource::System, "s").with_stale(0).is_stale(100));
}

#[test]
fn ages_in_words() {
    let i = item(FeedSource::User, "u");
    assert_eq!(i.age_str(100), "just now");
    assert_eq!(i.age_str(104), "just now");
    assert_eq!(i.age_str(105), "5s ago");
    assert_eq!(i.age_str(159), "59s ago");
    assert_eq!(i.age_str(160), "1m ago");
    assert_eq!(i.age_str(100 + 3599), "59m ago");
    assert_eq!(i.age_str(100 + 3600), "1h ago");
    assert_eq!(i.age_str(100 + 7199), "1h ago");
    assert_eq!(i.age_str(100 + 36000), "10h ago");
    assert_eq!(i.age_str(0), "just now");
}

#[test]
fn store_assigns_rising_ids() {
    let mut store = FeedStore::new(10);
    assert_eq!(store.len(), 0);
    store.push(item(FeedSource::System, "a"));
    store.push(item(FeedSource::Brain, "b"));
    store.push(item(FeedSource::User, "c"));
    assert_eq!(titles(&store, 100), vec!["1:a", "2:b", "3:c"]);
    assert_eq!(store.visible_count(100), 3);
}

#[test]
fn replacing_item_dismisses_the_latest_of_its_source() {
    let mut store = FeedStore::new(10);
    store.push(item(FeedSource::System, "cpu 10%"));
    store.push(item(FeedSource::Brain, "idea"));
    store.push(item(FeedSource::System, "cpu 20%"));
    store.push(item(FeedSource::Task, "cpu 30%").with_replaces(FeedSource::System));
    assert_eq!(titles(&store, 100), vec!["1:cpu 10%", "2:idea", "4:cpu 30%"]);
    assert_eq!(store.len(), 4);
    // The next replacement reaches the one before.
    store.push(item(FeedSource::System, "cpu 40%").with_replaces(FeedSource::System));
    assert_eq!(titles(&store, 100), vec!["2:idea", "4:cpu 30%", "5:cpu 40%"]);
    // Nothing left to replace.
    store.push(item(FeedSource::User, "x").with_replaces(FeedSource::WorldModel));
    assert_eq!(store.visible_count(100), 4);
}

#[test]
fn full_store_drops_dismissed_items_first() {
    let mut store = FeedStore::new(3);
    store.push(item(FeedSource::System, "a"));
    store.push(item(FeedSource::System, "b"));
    store.push(item(FeedSource::System, "c"));
    store.dismiss(2);
    store.push(item(FeedSource::System, "d"));
    assert_eq!(store.len(), 3);
    assert_eq!(titles(&store, 100), vec!["1:a", "3:c", "4:d"]);
    // With nothing dismissed the oldest goes.
    store.push(item(FeedSource::System, "e"));
    assert_eq!(titles(&store, 100), vec!["3:c", "4:d", "5:e"]);
    // A replacement that fills the store gives up the item it replaced.
    store.push(item(FeedSource::System, "f").with_replaces(FeedSource::System));
    assert_eq!(titles(&store, 100), vec!["3:c", "4:d", "6:f"]);
}

#[test]
fn store_of_no_capacity_keeps_nothing() {
    let mut store = FeedStore::new(0);
    store.push(item(FeedSource::System, "a"));
    assert_eq!(store.len(), 0);
    store.push(item(FeedSource::System, "b"));
    assert_eq!(store.len(), 0);
}

#[test]
fn seen_and_dismissed_items_are_not_counted_unseen() {
    let mut store = FeedStore::new(10);
    store.push(FeedItem::new(FeedSource::System, Priority::Urgent, "a".to_string(), 100));
    store.push(FeedItem::new(FeedSource::System, Priority::Normal, "b".to_string(), 100));
    store.push(FeedItem::new(FeedSource::System, Priority::Urgent, "c".to_string(), 100).with_stale(10));
    store.push(FeedItem::new(FeedSource::System, Priority::Low, "d".to_string(), 100));
    assert_eq!(store.unseen_count(100), 4);
    assert_eq!(store.unseen_urgent_count(100), 2);
    assert_eq!(store.unseen_count(110), 3);
    assert_eq!(store.unseen_urgent_count(110), 1);
    store.mark_seen(1);
    assert_eq!(store.unseen_count(100), 3);
    assert_eq!(store.unseen_urgent_count(100), 1);
    store.dismiss(2);
    store.mark_seen(99);
    store.dismiss(99);
    assert_eq!(store.unseen_count(100), 2);
    assert_eq!(store.visible_count(100), 3);
    assert_eq!(titles(&store, 100), vec!["1:a", "3:c", "4:d"]);
}

#[test]
fn collapse_toggles() {
    let mut store = FeedStore::new(10);
    store.push(item(FeedSource::System, "a"));
    store.toggle_collapse(1);
    assert!(store.visible_items(100)[0].collapsed);
    store.toggle_collapse(1);
    assert!(!store.visible_items(100)[0].collapsed);
    store.toggle_collapse(7);
    assert!(!store.visible_items(100)[0].collapsed);
}

#[test]
fn pruning_dismisses_what_is_stale() {
    let mut store = FeedStore::new(10);
    store.push(item(FeedSource::System, "a").with_stale(10));
    store.push(item(FeedSource::System, "b"));
    store.push(item(FeedSource::System, "c").with_stale(100));
    store.prune_stale(150);
    // Back at an earlier time the pruned item stays hidden.
    assert_eq!(titles(&store, 100), vec!["2:b", "3:c"]);
    assert_eq!(store.len(), 3);
    store.clear();
    assert_eq!(store.len(), 0);
    store.push(item(FeedSource::System, "d"));
    assert_eq!(titles(&store, 100), vec!["4:d"]);
}

fn press(code: KeyCode) -> KeyPress {
    KeyPress { code, control: false }
}

fn ctrl(c: char) -> KeyPress {
    KeyPress { code: KeyCode::Char(c), control: true }
}

#[test]
fn control_shortcuts_work_in_every_panel() {
    for panel in [ActivePanel::Input, ActivePanel::Feed, ActivePanel::Sidebar] {
        for thinking in [false, true] {
            assert_eq!(route(ctrl('c'), &panel, thinking), AppAction::Quit);
            assert_eq!(route(ctrl('s'), &panel, thinking), AppAction::TriggerSysinfo);
            assert_eq!(route(ctrl('w'), &panel, thinking), AppAction::TriggerWorldModel);
            assert_eq!(route(press(KeyCode::Tab), &panel, thinking), AppAction::SwitchPanel);
        }
    }
    // Control with another key goes by the panel.
    assert_eq!(route(ctrl('x'), &ActivePanel::Input, false), AppAction::TypeChar('x'));
    assert_eq!(route(ctrl('d'), &ActivePanel::Feed, false), AppAction::FeedDismiss);
    assert_eq!(route(press(KeyCode::Char('c')), &ActivePanel::Sidebar, false), AppAction::Noop);
}

#[test]
fn input_panel_routes_editing_keys() {
    let p = ActivePanel::Input;
    let table = [
        (KeyCode::Enter, AppAction::Submit),
        (KeyCode::Backspace, AppAction::Backspace),
        (KeyCode::Delete, AppAction::Delete),
        (KeyCode::Left, AppAction::CursorLeft),
        (KeyCode::Right, AppAction::CursorRight),
        (KeyCode::Home, AppAction::CursorHome),
        (KeyCode::End, AppAction::CursorEnd),
        (KeyCode::Up, AppAction::HistoryUp),
        (KeyCode::Down, AppAction::HistoryDown),
        (KeyCode::PageUp, AppAction::PageUp),
        (KeyCode::PageDown, AppAction::PageDown),
        (KeyCode::Char('q'), AppAction::TypeChar('q')),
        (KeyCode::Esc, AppAction::Noop),
        (KeyCode::Other, AppAction::Noop),
    ];
    for (code, action) in table {
        assert_eq!(route(press(code), &p, false), action);
    }
}

#[test]
fn pending_answer_holds_back_editing() {
    let p = ActivePanel::Input;
    for code in [KeyCode::Enter, KeyCode::Backspace, KeyCode::Delete, KeyCode::Char('a')] {
        assert_eq!(route(press(code), &p, true), AppAction::Noop);
    }
    assert_eq!(route(press(KeyCode::Left), &p, true), AppAction::CursorLeft);
    assert_eq!(route(press(KeyCode::PageUp), &p, true), AppAction::PageUp);
    // The other panels do not care.
    assert_eq!(route(press(KeyCode::Enter), &ActivePanel::Feed, true), AppAction::FeedToggleCollapse);
}

#[test]
fn feed_and_sidebar_panels() {
    let f = ActivePanel::Feed;
    let table = [
        (KeyCode::Esc, AppAction::ReturnToInput),
        (KeyCode::Up, AppAction::FeedSelectPrev),
        (KeyCode::Char('k'), AppAction::FeedSelectPrev),
        (KeyCode::Down, AppAction::FeedSelectNext),
        (KeyCode::Char('j'), AppAction::FeedSelectNext),
        (KeyCode::Enter, AppAction::FeedToggleCollapse),
        (KeyCode::Char('d'), AppAction::FeedDismiss),
        (KeyCode::PageUp, AppAction::FeedPageUp),
        (KeyCode::PageDown, AppAction::FeedPageDown),
        (KeyCode::Char('x'), AppAction::Noop),
        (KeyCode::Left, AppAction::Noop),
        (KeyCode::Backspace, AppAction::Noop),
    ];
    for (code, action) in table {
        assert_eq!(route(press(code), &f, false), action);
    }
    let s = ActivePanel::Sidebar;
    assert_eq!(route(press(KeyCode::Esc), &s, false), AppAction::ReturnToInput);
    assert_eq!(route(press(KeyCode::Enter), &s, false), AppAction::Noop);
    assert_eq!(route(press(KeyCode::Up), &s, false), AppAction::Noop);
}

#[test]
fn network_alerts_fire_on_change_only() {
    assert_eq!(network_alert(None, true), None);
    assert_eq!(network_alert(None, false), None);
    assert_eq!(network_alert(Some(false), true), Some(AlertKind::NetworkUp));
    assert_eq!(network_alert(Some(true), false), Some(AlertKind::NetworkDown));
    assert_eq!(network_alert(Some(true), true), None);
    assert_eq!(network_alert(Some(false), false), None);
}

#[test]
fn memory_in_use() {
    assert_eq!(mem_used_mb(8000, 3000), 5000);
    assert_eq!(mem_used_mb(8000, 8000), 0);
    assert_eq!(mem_used_mb(8000, 9000), 0);
    assert_eq!(mem_used_mb(u64::MAX, 0), u64::MAX);
}

#[test]
fn uptime_in_words() {
    assert_eq!(uptime_str(0), "0s");
    assert_eq!(uptime_str(59), "59s");
    assert_eq!(uptime_str(60), "1m 0s");
    assert_eq!(uptime_str(3599), "59m 59s");
    assert_eq!(uptime_str(3600), "1h 0m");
    assert_eq!(uptime_str(90061), "25h 1m");
}

#[test]
fn widgets_are_coloured_by_type() {
    assert_eq!(widget_color("weather"), BlockColor::Yellow);
    assert_eq!(widget_color("system"), BlockColor::Green);
    assert_eq!(widget_color("file"), BlockColor::Blue);
    assert_eq!(widget_color("table"), BlockColor::Cyan);
    assert_eq!(widget_color("chart"), BlockColor::White);
    assert_eq!(widget_color(""), BlockColor::White);
    assert_eq!(widget_color("Weather"), BlockColor::White);
    assert_eq!(widget_color("weathers"), BlockColor::White);
}

#[test]
fn texts_compare_by_content() {
    assert!(same_text("", ""));
    assert!(same_text("héllo", "héllo"));
    assert!(!same_text("héllo", "hello"));
    assert!(!same_text("a", "ab"));
}

#[test]
fn focus_goes_round_the_panels() {
    assert_eq!(ActivePanel::Input.next(), ActivePanel::Feed);
    assert_eq!(ActivePanel::Feed.next(), ActivePanel::Sidebar);
    assert_eq!(ActivePanel::Sidebar.next(), ActivePanel::Input);
}

#[test]
fn feed_selection_stays_among_the_visible_items() {
    assert_eq!(select_newest(0), None);
    assert_eq!(select_newest(1), Some(0));
    assert_eq!(select_newest(7), Some(6));
    assert_eq!(select_prev(None), None);
    assert_eq!(select_prev(Some(0)), Some(0));
    assert_eq!(select_prev(Some(3)), Some(2));
    assert_eq!(select_next(None, 5), None);
    assert_eq!(select_next(Some(3), 5), Some(4));
    assert_eq!(select_next(Some(4), 5), Some(4));
    assert_eq!(select_next(Some(0), 0), Some(0));
    assert_eq!(select_next(Some(usize::MAX), usize::MAX), Some(usize::MAX));
    assert_eq!(select_after_dismiss(2, 0), None);
    assert_eq!(select_after_dismiss(2, 2), Some(1));
    assert_eq!(select_after_dismiss(2, 3), Some(2));
    assert_eq!(select_after_dismiss(0, 3), Some(0));
}

#[test]
fn prefixes_are_compared_by_characters() {
    assert!(has_prefix("terminal", "term"));
    assert!(has_prefix("term", "term"));
    assert!(has_prefix("anything", ""));
    assert!(has_prefix("", ""));
    assert!(!has_prefix("ter", "term"));
    assert!(!has_prefix("xterm", "term"));
    assert!(!has_prefix("", "t"));
    assert!(has_prefix("éa", "é"));
    // The first byte of both is the same; the characters are not.
    assert!(!has_prefix("éa", "è"));
}

#[test]
fn control_codes() {
    for c in ['\0', '\n', '\r', '\t', '\u{1b}', '\u{1f}', '\u{7f}', '\u{80}', '\u{9f}'] {
        assert!(is_control(c));
        assert!(c.is_control());
    }
    for c in [' ', 'a', '~', '\u{a0}', 'é', '🙂', '\u{10ffff}'] {
        assert!(!is_control(c));
        assert!(!c.is_control());
    }
}

#[test]
fn texts_are_searched() {
    assert!(contains_text("eth0 up", "up"));
    assert!(contains_text("up", "up"));
    assert!(contains_text("supper", "up"));
    assert!(contains_text("anything", ""));
    assert!(contains_text("", ""));
    assert!(!contains_text("u p", "up"));
    assert!(!contains_text("u", "up"));
    assert!(!contains_text("", "up"));
    assert!(contains_text("grüße", "üß"));
    assert!(!contains_text("gruesse", "üß"));
}

#[test]
fn network_counts_as_up_by_its_address() {
    for a in ["10.0.2.15", "192.168.1.4", "172.16.0.1", "eth0 up", "backup"] {
        assert!(network_up(a), "{}", a);
    }
    for a in ["no network", "", "8.8.8.8", "110.0.0.1", "down"] {
        assert!(!network_up(a), "{}", a);
    }
}

#[test]
fn uptime_milestones_fall_due_once() {
    let mut reported: Vec<u64> = Vec::new();
    assert!(take_milestones(3599, &mut reported).is_empty());
    assert_eq!(take_milestones(3600, &mut reported), vec![3600]);
    assert!(take_milestones(4000, &mut reported).is_empty());
    assert_eq!(take_milestones(21600, &mut reported), vec![21600]);
    assert_eq!(take_milestones(u64::MAX, &mut reported), vec![86400]);
    assert!(take_milestones(u64::MAX, &mut reported).is_empty());
    assert_eq!(reported, vec![3600, 21600, 86400]);
    // A machine that has been up for long gets all of them at once.
    let mut reported: Vec<u64> = vec![21600];
    assert_eq!(take_milestones(100_000, &mut reported), vec![3600, 86400]);
    assert_eq!(reported, vec![21600, 3600, 86400]);
    assert_eq!(milestone_label(3600), "1 hour");
    assert_eq!(milestone_label(21600), "6 hours");
    assert_eq!(milestone_label(86400), "24 hours");
}
