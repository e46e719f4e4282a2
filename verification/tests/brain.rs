use nebula::brain::{
    insight_card, insight_color, insight_title, priority_of, response_cards, session_duration,
    task_context, uptime_brief, user_activity, widget_data, BrainResponse, ProactiveResponse, Widget,
};
use nebula::feed::{BlockColor, FeedSource, Priority};
use nebula::text::{copy_texts, split_lines};

fn widget(kind: &str, title: &str, lines: &[&str]) -> Widget {
    Widget {
        widget_type: kind.to_string(),
        title: title.to_string(),
        lines: lines.iter().map(|l| l.to_string()).collect(),
    }
}

fn response(text: &str, widgets: Vec<Widget>, latency_ms: u64) -> BrainResponse {
    BrainResponse { ok: true, text: text.to_string(), widgets, latency_ms, error: None }
}

#[test]
fn lines_split_as_the_standard_library_splits_them() {
    let samples = [
        "",
        "one",
        "one\n",
        "one\ntwo",
        "one\r\ntwo\r\n",
        "\n",
        "\n\n",
        "\r\n",
        "a\n\r\nb",
        "trailing return\r",
        "two returns\r\r\nnext",
        "\r",
        "\rx\n",
        "a\rb\nc",
        "héllo\nwörld\n🙂",
        "ends with blank\n\n",
    ];
    for s in samples {
        let expected: Vec<String> = s.lines().map(|l| l.to_string()).collect();
        assert_eq!(split_lines(s), expected, "{:?}", s);
    }
    assert_eq!(split_lines("a\r\nb\n\nc"), vec!["a", "b", "", "c"]);
}

#[test]
fn texts_are_copied() {
    let list = vec!["a".to_string(), String::new(), "ü".to_string()];
    assert_eq!(copy_texts(&list), list);
    assert!(copy_texts(&Vec::new()).is_empty());
}

#[test]
fn names_map_to_priorities_titles_and_colours() {
    assert_eq!(priority_of("urgent"), Priority::Urgent);
    assert_eq!(priority_of("low"), Priority::Low);
    assert_eq!(priority_of("normal"), Priority::Normal);
    assert_eq!(priority_of(""), Priority::Normal);
    assert_eq!(priority_of("Urgent"), Priority::Normal);
    assert_eq!(insight_title("suggestion"), "Suggestion");
    assert_eq!(insight_title("warning"), "Warning");
    assert_eq!(insight_title("insight"), "Insight");
    assert_eq!(insight_title(""), "Insight");
    assert_eq!(insight_color("weather"), BlockColor::Yellow);
    assert_eq!(insight_color("system"), BlockColor::Green);
    assert_eq!(insight_color("file"), BlockColor::Cyan);
    assert_eq!(insight_color(""), BlockColor::Cyan);
}

#[test]
fn durations_for_the_brain() {
    assert_eq!(session_duration(0), "0m");
    assert_eq!(session_duration(59), "0m");
    assert_eq!(session_duration(3599), "59m");
    assert_eq!(session_duration(3600), "1h0m");
    assert_eq!(session_duration(90061), "25h1m");
    assert_eq!(uptime_brief(0), "0m0s");
    assert_eq!(uptime_brief(61), "1m1s");
    assert_eq!(uptime_brief(3599), "59m59s");
    assert_eq!(uptime_brief(3600), "1h0m");
    assert_eq!(uptime_brief(7325), "2h2m");
}

#[test]
fn contexts_for_the_brain() {
    let u = user_activity("what time is it", 3700);
    assert_eq!(u.last_query, "what time is it");
    assert_eq!(u.session_duration, "1h1m");
    assert!(task_context(0, 0).is_none());
    let t = task_context(2, 0).unwrap();
    assert_eq!((t.active, t.completed), (2, 0));
    let t = task_context(0, 5).unwrap();
    assert_eq!((t.active, t.completed), (0, 5));
}

#[test]
fn widgets_are_carried_over() {
    let d = widget_data(&widget("table", "Disks", &["sda 80%", "sdb 5%"]), BlockColor::Red);
    assert_eq!(d.widget_type, "table");
    assert_eq!(d.title, "Disks");
    assert_eq!(d.lines, vec!["sda 80%", "sdb 5%"]);
    assert_eq!(d.color, BlockColor::Red);
}

#[test]
fn plain_response_becomes_one_card() {
    let cards = response_cards(&response("Hello.\nAll is well.\n", vec![], 0), None, 50);
    assert_eq!(cards.len(), 1);
    let c = &cards[0];
    assert_eq!(c.source, FeedSource::Brain);
    assert_eq!(c.priority, Priority::Normal);
    assert_eq!(c.title, "Brain Response");
    assert_eq!(c.body, vec!["Hello.", "All is well."]);
    assert!(c.widget.is_none());
    assert_eq!(c.created_secs, 50);
    assert_eq!(c.id, 0);
    assert!(!c.seen && !c.dismissed && !c.collapsed);
}

#[test]
fn latency_note_goes_behind_the_text() {
    let note = Some("[1.3s]".to_string());
    let cards = response_cards(&response("ok", vec![], 1300), note.clone(), 0);
    assert_eq!(cards[0].body, vec!["ok", "[1.3s]"]);
    // No latency, no note.
    let cards = response_cards(&response("ok", vec![], 0), note, 0);
    assert_eq!(cards[0].body, vec!["ok"]);
    let cards = response_cards(&response("ok", vec![], 1300), None, 0);
    assert_eq!(cards[0].body, vec!["ok"]);
    let cards = response_cards(&response("", vec![], 7), Some("[0.0s]".to_string()), 0);
    assert_eq!(cards[0].body, vec!["[0.0s]"]);
}

#[test]
fn further_widgets_get_cards_of_their_own() {
    let widgets = vec![
        widget("weather", "Berlin", &["12°C"]),
        widget("system", "Load", &["0.3"]),
        widget("chart", "Trend", &[]),
    ];
    let cards = response_cards(&response("Here you go", widgets, 0), None, 9);
    assert_eq!(cards.len(), 3);
    assert_eq!(cards[0].title, "Load");
    assert!(cards[0].body.is_empty());
    assert_eq!(cards[0].widget.as_ref().unwrap().color, BlockColor::Green);
    assert_eq!(cards[0].widget.as_ref().unwrap().lines, vec!["0.3"]);
    assert_eq!(cards[1].title, "Trend");
    assert_eq!(cards[1].widget.as_ref().unwrap().color, BlockColor::White);
    assert_eq!(cards[2].title, "Brain Response");
    assert_eq!(cards[2].body, vec!["Here you go"]);
    let first = cards[2].widget.as_ref().unwrap();
    assert_eq!((first.widget_type.as_str(), first.title.as_str()), ("weather", "Berlin"));
    assert_eq!(first.color, BlockColor::Yellow);
    assert!(cards.iter().all(|c| c.created_secs == 9 && c.source == FeedSource::Brain));
}

#[test]
fn insight_needs_a_claim_and_a_text() {
    let make = |has_insight: bool, text: &str| ProactiveResponse {
        has_insight,
        text: text.to_string(),
        widgets: vec![widget("file", "Logs", &["a.log"])],
        priority: "urgent".to_string(),
        category: "warning".to_string(),
    };
    assert!(insight_card(&make(false, "text"), 0).is_none());
    assert!(insight_card(&make(true, ""), 0).is_none());
    assert!(insight_card(&make(false, ""), 0).is_none());
    let card = insight_card(&make(true, "Disk is filling up.\r\nClean /tmp."), 77).unwrap();
    assert_eq!(card.title, "Warning");
    assert_eq!(card.priority, Priority::Urgent);
    assert_eq!(card.source, FeedSource::Brain);
    assert_eq!(card.body, vec!["Disk is filling up.", "Clean /tmp."]);
    assert_eq!(card.widget.as_ref().unwrap().color, BlockColor::Cyan);
    assert_eq!(card.widget.as_ref().unwrap().title, "Logs");
    assert_eq!(card.created_secs, 77);
    let plain = ProactiveResponse {
        has_insight: true,
        text: "x".to_string(),
        widgets: vec![],
        priority: "".to_string(),
        category: "".to_string(),
    };
    let card = insight_card(&plain, 0).unwrap();
    assert_eq!((card.title.as_str(), card.priority), ("Insight", Priority::Normal));
    assert!(card.widget.is_none());
}
