//! What goes to the brain service and what comes back, and the feed cards
//! that are made of the answers.

use vstd::prelude::*;
use vstd::string::*;
use crate::feed::{
    widget_color, widget_color_spec, BlockColor, FeedItem, FeedSource, Priority, WidgetData,
    WidgetView,
};
use crate::text::{copy_texts, lines_spec, same_text, split_lines, texts_of};
use crate::widgets::{decimal, push_decimal};

verus! {

/// Widget from a brain response.
pub struct Widget {
    pub widget_type: String,
    pub title: String,
    pub lines: Vec<String>,
}

/// Brain response from the brain server.
pub struct BrainResponse {
    pub ok: bool,
    pub text: String,
    pub widgets: Vec<Widget>,
    pub latency_ms: u64,
    pub error: Option<String>,
}

/// Brain proactive response.
pub struct ProactiveResponse {
    pub has_insight: bool,
    pub text: String,
    pub widgets: Vec<Widget>,
    pub priority: String,
    pub category: String,
}

/// What the brain is told of the user's activity.
pub struct UserActivityContext {
    pub last_query: String,
    pub session_duration: String,
}

/// What the brain is told of the background tasks.
pub struct TaskContext {
    pub active: usize,
    pub completed: usize,
}

/// The priority that a name stands for: "urgent", "low", and normal for
/// anything else.
pub open spec fn priority_spec(name: Seq<char>) -> Priority {
    if name == "urgent"@ {
        Priority::Urgent
    } else if name == "low"@ {
        Priority::Low
    } else {
        Priority::Normal
    }
}

/// The title of an insight by its category.
pub open spec fn insight_title_spec(category: Seq<char>) -> Seq<char> {
    if category == "suggestion"@ {
        "Suggestion"@
    } else if category == "warning"@ {
        "Warning"@
    } else {
        "Insight"@
    }
}

/// The colour of the widget of an insight by its type.
pub open spec fn insight_color_spec(widget_type: Seq<char>) -> BlockColor {
    if widget_type == "weather"@ {
        BlockColor::Yellow
    } else if widget_type == "system"@ {
        BlockColor::Green
    } else {
        BlockColor::Cyan
    }
}

/// How long a session has lasted, in words: hours and minutes from an hour
/// on, minutes below.
pub open spec fn session_duration_spec(secs: u64) -> Seq<char> {
    if secs >= 3600 {
        decimal((secs / 3600) as nat) + "h"@ + decimal(((secs % 3600) / 60) as nat) + "m"@
    } else {
        decimal((secs / 60) as nat) + "m"@
    }
}

/// An uptime for the brain: hours and minutes from an hour on, minutes and
/// seconds below.
pub open spec fn uptime_brief_spec(secs: u64) -> Seq<char> {
    if secs >= 3600 {
        decimal((secs / 3600) as nat) + "h"@ + decimal(((secs % 3600) / 60) as nat) + "m"@
    } else {
        decimal((secs / 60) as nat) + "m"@ + decimal((secs % 60) as nat) + "s"@
    }
}

/// A widget as the feed holds it, in the given colour.
pub open spec fn widget_as(w: Widget, color: BlockColor) -> WidgetView {
    (w.widget_type@, w.title@, texts_of(w.lines@), color)
}

pub fn priority_of(name: &str) -> (p: Priority)
    ensures
        p == priority_spec(name@),
{
    if same_text(name, "urgent") {
        Priority::Urgent
    } else if same_text(name, "low") {
        Priority::Low
    } else {
        Priority::Normal
    }
}

pub fn insight_title(category: &str) -> (title: &'static str)
    ensures
        title@ == insight_title_spec(category@),
{
    if same_text(category, "suggestion") {
        "Suggestion"
    } else if same_text(category, "warning") {
        "Warning"
    } else {
        "Insight"
    }
}

pub fn insight_color(widget_type: &str) -> (c: BlockColor)
    ensures
        c == insight_color_spec(widget_type@),
{
    if same_text(widget_type, "weather") {
        BlockColor::Yellow
    } else if same_text(widget_type, "system") {
        BlockColor::Green
    } else {
        BlockColor::Cyan
    }
}

pub fn session_duration(secs: u64) -> (s: String)
    ensures
        s@ == session_duration_spec(secs),
{
    let mut out = String::new();
    if secs >= 3600 {
        push_decimal(&mut out, secs / 3600);
        out.append("h");
        push_decimal(&mut out, (secs % 3600) / 60);
        out.append("m");
    } else {
        push_decimal(&mut out, secs / 60);
        out.append("m");
    }
    assert(out@ =~= session_duration_spec(secs));
    out
}

pub fn uptime_brief(secs: u64) -> (s: String)
    ensures
        s@ == uptime_brief_spec(secs),
{
    let mut out = String::new();
    if secs >= 3600 {
        push_decimal(&mut out, secs / 3600);
        out.append("h");
        push_decimal(&mut out, (secs % 3600) / 60);
        out.append("m");
    } else {
        push_decimal(&mut out, secs / 60);
        out.append("m");
        push_decimal(&mut out, secs % 60);
        out.append("s");
    }
    assert(out@ =~= uptime_brief_spec(secs));
    out
}

/// What the brain is told of the user: the last query and how long the
/// session has lasted.
pub fn user_activity(last_query: &str, session_secs: u64) -> (ctx: UserActivityContext)
    ensures
        ctx.last_query@ == last_query@,
        ctx.session_duration@ == session_duration_spec(session_secs),
{
    UserActivityContext {
        last_query: String::from_str(last_query),
        session_duration: session_duration(session_secs),
    }
}

/// What the brain is told of the tasks: nothing where none runs and none is
/// done, else both counts.
pub fn task_context(active: usize, completed: usize) -> (ctx: Option<TaskContext>)
    ensures
        ctx is Some <==> active > 0 || completed > 0,
        ctx matches Some(c) ==> c.active == active && c.completed == completed,
{
    if active > 0 || completed > 0 {
        Some(TaskContext { active, completed })
    } else {
        None
    }
}

/// The widget as the feed holds it.
pub fn widget_data(w: &Widget, color: BlockColor) -> (data: WidgetData)
    ensures
        data@ == widget_as(*w, color),
{
    WidgetData {
        widget_type: w.widget_type.clone(),
        title: w.title.clone(),
        lines: copy_texts(&w.lines),
        color,
    }
}

/// The body of the card for a response: the lines of its text, and the note
/// on the latency behind them where the response took any time and a note
/// is given.
pub open spec fn response_body(resp: BrainResponse, latency_note: Option<String>) -> Seq<
    Seq<char>,
> {
    match latency_note {
        Some(note) => if resp.latency_ms > 0 {
            lines_spec(resp.text@).push(note@)
        } else {
            lines_spec(resp.text@)
        },
        None => lines_spec(resp.text@),
    }
}

/// The card of widget `k` of a response is in order: a card of its own for
/// each widget but the first, titled as the widget and holding it.
pub open spec fn is_widget_card(item: FeedItem, w: Widget, now_secs: u64) -> bool {
    item.is_card(
        FeedSource::Brain,
        Priority::Normal,
        w.title@,
        Seq::empty(),
        Some(widget_as(w, widget_color_spec(w.widget_type@))),
        now_secs,
    )
}

/// The card that carries the text of a response, with its first widget.
pub open spec fn is_response_card(
    item: FeedItem,
    resp: BrainResponse,
    latency_note: Option<String>,
    now_secs: u64,
) -> bool {
    item.is_card(
        FeedSource::Brain,
        Priority::Normal,
        "Brain Response"@,
        response_body(resp, latency_note),
        if resp.widgets@.len() > 0 {
            Some(widget_as(resp.widgets@[0], widget_color_spec(resp.widgets@[0].widget_type@)))
        } else {
            None
        },
        now_secs,
    )
}

/// The cards for a response, in the order they go to the feed: one for
/// each widget behind the first, then the card with the text and the first
/// widget.
pub fn response_cards(resp: &BrainResponse, latency_note: Option<String>, now_secs: u64) -> (cards:
    Vec<FeedItem>)
    ensures
        cards@.len() == (if resp.widgets@.len() > 0 {
            resp.widgets@.len()
        } else {
            1
        }),
        forall|k: int|
            1 <= k < resp.widgets@.len() ==> is_widget_card(
                #[trigger] cards@[k - 1],
                resp.widgets@[k],
                now_secs,
            ),
        is_response_card(cards@.last(), *resp, latency_note, now_secs),
{
    let mut body = split_lines(resp.text.as_str());
    let mut main = FeedItem::new(
        FeedSource::Brain,
        Priority::Normal,
        String::from_str("Brain Response"),
        now_secs,
    );
    let n: usize = resp.widgets.len();
    if n > 0 {
        let first = &resp.widgets[0];
        main = main.with_widget(widget_data(first, widget_color(first.widget_type.as_str())));
    }
    let mut cards: Vec<FeedItem> = Vec::new();
    let mut k: usize = 1;
    while k < n
        invariant
            n == resp.widgets@.len(),
            1 <= k,
            k <= n || (n == 0 && k == 1),
            cards@.len() == k - 1,
            forall|j: int|
                1 <= j < k ==> is_widget_card(#[trigger] cards@[j - 1], resp.widgets@[j], now_secs),
        decreases n - k,
    {
        let w = &resp.widgets[k];
        let card = FeedItem::new(
            FeedSource::Brain,
            Priority::Normal,
            w.title.clone(),
            now_secs,
        ).with_widget(widget_data(w, widget_color(w.widget_type.as_str())));
        assert(texts_of(card.body@) =~= Seq::<Seq<char>>::empty());
        cards.push(card);
        k = k + 1;
    }
    if resp.latency_ms > 0 {
        match latency_note {
            Some(note) => {
                let ghost lines = texts_of(body@);
                body.push(note);
                assert(texts_of(body@) =~= lines.push(note@));
            },
            None => {},
        }
    }
    main = main.with_body(body);
    cards.push(main);
    cards
}

/// The card for an insight, where the brain has one to give: an answer
/// that claims an insight and has a text.
pub fn insight_card(resp: &ProactiveResponse, now_secs: u64) -> (card: Option<FeedItem>)
    ensures
        card is Some <==> resp.has_insight && resp.text@.len() > 0,
        card matches Some(item) ==> item.is_card(
            FeedSource::Brain,
            priority_spec(resp.priority@),
            insight_title_spec(resp.category@),
            lines_spec(resp.text@),
            if resp.widgets@.len() > 0 {
                Some(
                    widget_as(resp.widgets@[0], insight_color_spec(resp.widgets@[0].widget_type@)),
                )
            } else {
                None
            },
            now_secs,
        ),
{
    if !resp.has_insight || resp.text.as_str().is_empty() {
        return None;
    }
    let mut card = FeedItem::new(
        FeedSource::Brain,
        priority_of(resp.priority.as_str()),
        String::from_str(insight_title(resp.category.as_str())),
        now_secs,
    ).with_body(split_lines(resp.text.as_str()));
    if resp.widgets.len() > 0 {
        let first = &resp.widgets[0];
        card = card.with_widget(widget_data(first, insight_color(first.widget_type.as_str())));
    }
    Some(card)
}

} // verus!
