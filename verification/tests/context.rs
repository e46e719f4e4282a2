use nebula::context::{is_stop_word, SessionContext};
use nebula::text::word_spans;

fn counts(ctx: &SessionContext) -> Vec<(String, u32)> {
    ctx.topics.iter().map(|t| (t.word.clone(), t.count)).collect()
}

fn pairs(list: &[(&str, u32)]) -> Vec<(String, u32)> {
    list.iter().map(|(w, c)| (w.to_string(), *c)).collect()
}

#[test]
fn new_session_remembers_nothing() {
    let ctx = SessionContext::new(77);
    assert!(ctx.topics.is_empty());
    assert!(ctx.dismissed_categories.is_empty());
    assert!(ctx.recent_queries.is_empty());
    assert_eq!(ctx.query_count, 0);
    assert_eq!(ctx.session_start_secs, Some(77));
    assert_eq!(ctx.last_save_secs, None);
}

#[test]
fn first_save_is_due_at_once_and_then_every_minute() {
    let mut ctx = SessionContext::new(0);
    assert!(ctx.maybe_save(5));
    assert_eq!(ctx.last_save_secs, Some(5));
    assert!(!ctx.maybe_save(5));
    assert!(!ctx.maybe_save(64));
    assert_eq!(ctx.last_save_secs, Some(5));
    assert!(ctx.maybe_save(65));
    assert_eq!(ctx.last_save_secs, Some(65));
    // A clock that went backwards is no reason to save.
    assert!(!ctx.maybe_save(3));
    assert!(ctx.maybe_save(u64::MAX));
}

#[test]
fn dismissed_categories_are_recorded_once() {
    let mut ctx = SessionContext::new(0);
    ctx.record_dismiss("weather");
    ctx.record_dismiss("news");
    ctx.record_dismiss("weather");
    ctx.record_dismiss("");
    ctx.record_dismiss("News");
    assert_eq!(ctx.dismissed_categories, vec!["weather", "news", "", "News"]);
}

#[test]
fn stop_words_are_recognised() {
    for w in ["the", "a", "is", "put", "find", "very", "tell", "ought", "don"] {
        assert!(is_stop_word(w), "{}", w);
    }
    for w in ["", "The", "weather", "th", "thee", "puts", "kernel"] {
        assert!(!is_stop_word(w), "{}", w);
    }
}

#[test]
fn spans_mark_the_runs_of_set_flags() {
    let f = |s: &str| -> Vec<bool> { s.chars().map(|c| c == '#').collect() };
    assert_eq!(word_spans(&f("")), vec![]);
    assert_eq!(word_spans(&f("...")), vec![]);
    assert_eq!(word_spans(&f("###")), vec![(0, 3)]);
    assert_eq!(word_spans(&f("#.#")), vec![(0, 1), (2, 3)]);
    assert_eq!(word_spans(&f("..##.#..###")), vec![(2, 4), (5, 6), (8, 11)]);
    assert_eq!(word_spans(&f("#..")), vec![(0, 1)]);
}

#[test]
fn query_keywords_become_topics() {
    let mut ctx = SessionContext::new(0);
    ctx.record_query("Show me the WEATHER in Berlin, tomorrow!");
    assert_eq!(counts(&ctx), pairs(&[("weather", 1), ("berlin", 1), ("tomorrow", 1)]));
    ctx.record_query("weather-report for berlin/weather");
    assert_eq!(
        counts(&ctx),
        pairs(&[("weather", 3), ("berlin", 2), ("tomorrow", 1), ("report", 1)])
    );
    assert_eq!(ctx.query_count, 2);
    assert_eq!(
        ctx.recent_queries,
        vec!["Show me the WEATHER in Berlin, tomorrow!", "weather-report for berlin/weather"]
    );
}

#[test]
fn short_words_and_stop_words_are_not_topics() {
    let mut ctx = SessionContext::new(0);
    ctx.record_query("go to my pc at 10 am, if it is on");
    assert!(ctx.topics.is_empty());
    ctx.record_query("");
    ctx.record_query("   ,,, ;;; ");
    assert!(ctx.topics.is_empty());
    assert_eq!(ctx.query_count, 3);
    // Length counts bytes: two characters can make three bytes.
    ctx.record_query("é1 ab x86 64b");
    assert_eq!(counts(&ctx), pairs(&[("é1", 1), ("x86", 1), ("64b", 1)]));
    // A stop word is one in lower case only after lowering.
    ctx.record_query("THE Their THEM");
    assert_eq!(ctx.topics.len(), 3);
}

#[test]
fn keywords_are_lowered_by_unicode_rules() {
    let mut ctx = SessionContext::new(0);
    ctx.record_query("ÄRGER Ärger ärger ΣΟΦΟΣ");
    assert_eq!(counts(&ctx), pairs(&[("ärger", 3), ("σοφος", 1)]));
}

#[test]
fn only_the_last_ten_queries_are_kept() {
    let mut ctx = SessionContext::new(0);
    for i in 0..13 {
        ctx.record_query(&format!("q{}", i));
    }
    assert_eq!(ctx.query_count, 13);
    let expected: Vec<String> = (3..13).map(|i| format!("q{}", i)).collect();
    assert_eq!(ctx.recent_queries, expected);
}

#[test]
fn query_counter_stops_at_the_top() {
    let mut ctx = SessionContext::new(0);
    ctx.query_count = u32::MAX - 1;
    ctx.record_query("x");
    assert_eq!(ctx.query_count, u32::MAX);
    ctx.record_query("x");
    assert_eq!(ctx.query_count, u32::MAX);
}

#[test]
fn topics_are_capped_at_the_fifty_most_frequent() {
    let mut ctx = SessionContext::new(0);
    // Sixty words, the first ten of them twice.
    let all: Vec<String> = (0..60).map(|i| format!("word{:02}", i)).collect();
    ctx.record_query(&all[..50].join(" "));
    assert_eq!(ctx.topics.len(), 50);
    ctx.record_query(&all[..10].join(" "));
    ctx.record_query(&all[50..].join(" "));
    assert_eq!(ctx.topics.len(), 50);
    let kept: Vec<String> = ctx.topics.iter().map(|t| t.word.clone()).collect();
    // The frequent ones stay; of the rest, the newest went first.
    let expected: Vec<String> = all[..50].to_vec();
    assert_eq!(kept, expected);
    // A newcomer that comes up twice in one query pushes out an old single.
    ctx.record_query("fresh fresh");
    let kept: Vec<String> = ctx.topics.iter().map(|t| t.word.clone()).collect();
    assert!(kept.contains(&"fresh".to_string()));
    assert!(!kept.contains(&"word49".to_string()));
    assert_eq!(ctx.topics.len(), 50);
}

#[test]
fn top_topics_lead_with_the_most_frequent() {
    let mut ctx = SessionContext::new(0);
    ctx.record_query("kernel memory kernel disk memory kernel network");
    assert_eq!(ctx.top_topics(2), vec!["kernel", "memory"]);
    // Of two that came up equally often, the earlier one leads.
    assert_eq!(ctx.top_topics(4), vec!["kernel", "memory", "disk", "network"]);
    assert_eq!(ctx.top_topics(10), vec!["kernel", "memory", "disk", "network"]);
    assert!(ctx.top_topics(0).is_empty());
    assert!(SessionContext::new(0).top_topics(3).is_empty());
    // Asking does not change anything.
    assert_eq!(
        counts(&ctx),
        pairs(&[("kernel", 3), ("memory", 2), ("disk", 1), ("network", 1)])
    );
}

#[test]
fn counting_by_hand() {
    let mut ctx = SessionContext::new(0);
    ctx.record_keyword("the");
    ctx.record_keyword("kernel");
    ctx.bump_topic("kernel".to_string());
    ctx.bump_topic("the".to_string());
    assert_eq!(counts(&ctx), pairs(&[("kernel", 2), ("the", 1)]));
    ctx.topics[0].count = u32::MAX;
    ctx.record_keyword("kernel");
    assert_eq!(ctx.topics[0].count, u32::MAX);
    ctx.trim_topics();
    assert_eq!(ctx.topics.len(), 2);
}
