//! Where a feed item comes from and how urgent it is.

use vstd::prelude::*;
use vstd::string::*;
use crate::widgets::{decimal, push_decimal};
use crate::text::{same_text, texts_of};

verus! {

/// Source of a feed item.
#[derive(Clone, Copy, Debug, PartialEq, Eq, Structural)]
pub enum FeedSource {
    System,
    Brain,
    WorldModel,
    User,
    Task,
}

/// Priority level of a feed item, most urgent first.
#[derive(Clone, Copy, Debug, PartialEq, Eq, Structural)]
pub enum Priority {
    Urgent,
    Normal,
    Low,
}

impl FeedSource {
    /// The one-letter icon of each source.
    pub open spec fn icon_spec(self) -> Seq<char> {
        match self {
            FeedSource::System => "S"@,
            FeedSource::Brain => "B"@,
            FeedSource::WorldModel => "W"@,
            FeedSource::User => "U"@,
            FeedSource::Task => "T"@,
        }
    }

    /// The name of each source.
    pub open spec fn label_spec(self) -> Seq<char> {
        match self {
            FeedSource::System => "System"@,
            FeedSource::Brain => "Brain"@,
            FeedSource::WorldModel => "World Model"@,
            FeedSource::User => "User"@,
            FeedSource::Task => "Task"@,
        }
    }

    /// Single-character icon for the source.
    pub fn icon(&self) -> (s: &'static str)
        ensures
            s@ == self.icon_spec(),
    {
        match self {
            FeedSource::System => "S",
            FeedSource::Brain => "B",
            FeedSource::WorldModel => "W",
            FeedSource::User => "U",
            FeedSource::Task => "T",
        }
    }

    /// Name of the source as shown to the user.
    pub fn label(&self) -> (s: &'static str)
        ensures
            s@ == self.label_spec(),
    {
        match self {
            FeedSource::System => "System",
            FeedSource::Brain => "Brain",
            FeedSource::WorldModel => "World Model",
            FeedSource::User => "User",
            FeedSource::Task => "Task",
        }
    }
}

impl Priority {
    /// Rank of the priority: 0 for urgent, 1 for normal, 2 for low.
    pub open spec fn rank_spec(self) -> int {
        match self {
            Priority::Urgent => 0,
            Priority::Normal => 1,
            Priority::Low => 2,
        }
    }

    /// Rank of the priority; a smaller rank is more urgent.
    pub fn rank(&self) -> (r: u8)
        ensures
            r == self.rank_spec(),
    {
        match self {
            Priority::Urgent => 0,
            Priority::Normal => 1,
            Priority::Low => 2,
        }
    }

    /// Whether `self` is more urgent than `other`.
    pub fn outranks(&self, other: &Priority) -> (yes: bool)
        ensures
            yes == (self.rank_spec() < other.rank_spec()),
    {
        self.rank() < other.rank()
    }
}

/// Colour identifiers for styled output.
#[derive(Clone, Copy, Debug, PartialEq, Eq, Structural)]
pub enum BlockColor {
    Cyan,
    Green,
    Yellow,
    Blue,
    Red,
    White,
    DarkGray,
    Magenta,
}

impl FeedSource {
    /// The colour of each source.
    pub open spec fn color_spec(self) -> BlockColor {
        match self {
            FeedSource::System => BlockColor::Green,
            FeedSource::Brain => BlockColor::Yellow,
            FeedSource::WorldModel => BlockColor::Cyan,
            FeedSource::User => BlockColor::Blue,
            FeedSource::Task => BlockColor::White,
        }
    }

    /// Colour that items of the source are drawn in.
    pub fn color(&self) -> (c: BlockColor)
        ensures
            c == self.color_spec(),
    {
        match self {
            FeedSource::System => BlockColor::Green,
            FeedSource::Brain => BlockColor::Yellow,
            FeedSource::WorldModel => BlockColor::Cyan,
            FeedSource::User => BlockColor::Blue,
            FeedSource::Task => BlockColor::White,
        }
    }
}

/// The colour that a widget of each type is drawn in.
pub open spec fn widget_color_spec(widget_type: Seq<char>) -> BlockColor {
    if widget_type == "weather"@ {
        BlockColor::Yellow
    } else if widget_type == "system"@ {
        BlockColor::Green
    } else if widget_type == "file"@ {
        BlockColor::Blue
    } else if widget_type == "table"@ {
        BlockColor::Cyan
    } else {
        BlockColor::White
    }
}

/// Colour of a widget by its type; white for a type that has none.
pub fn widget_color(widget_type: &str) -> (c: BlockColor)
    ensures
        c == widget_color_spec(widget_type@),
{
    if same_text(widget_type, "weather") {
        BlockColor::Yellow
    } else if same_text(widget_type, "system") {
        BlockColor::Green
    } else if same_text(widget_type, "file") {
        BlockColor::Blue
    } else if same_text(widget_type, "table") {
        BlockColor::Cyan
    } else {
        BlockColor::White
    }
}

/// Widget data embedded in a feed item.
pub struct WidgetData {
    pub widget_type: String,
    pub title: String,
    pub lines: Vec<String>,
    pub color: BlockColor,
}

/// A widget as plain values: type, title, lines and colour.
pub type WidgetView = (Seq<char>, Seq<char>, Seq<Seq<char>>, BlockColor);

impl View for WidgetData {
    type V = WidgetView;

    open spec fn view(&self) -> WidgetView {
        (self.widget_type@, self.title@, texts_of(self.lines@), self.color)
    }
}

/// The widget of an item as plain values.
pub open spec fn widget_view(widget: Option<WidgetData>) -> Option<WidgetView> {
    match widget {
        Some(w) => Some(w@),
        None => None,
    }
}

/// A single item in the feed.
pub struct FeedItem {
    /// Assigned by the store.
    pub id: u64,
    pub source: FeedSource,
    pub priority: Priority,
    pub title: String,
    pub body: Vec<String>,
    pub widget: Option<WidgetData>,
    /// When the item was made, in seconds of a monotonic clock.
    pub created_secs: u64,
    pub seen: bool,
    pub stale_after_secs: Option<u64>,
    pub collapsed: bool,
    pub dismissed: bool,
    /// If set, the item replaces the latest item of this source.
    pub replaces_source: Option<FeedSource>,
}

/// An age in words: "just now" under five seconds, then seconds, minutes
/// or hours, rounded down.
pub open spec fn age_spec(secs: u64) -> Seq<char> {
    if secs < 5 {
        "just now"@
    } else if secs < 60 {
        decimal(secs as nat) + "s ago"@
    } else if secs < 3600 {
        decimal((secs / 60) as nat) + "m ago"@
    } else {
        decimal((secs / 3600) as nat) + "h ago"@
    }
}

impl FeedItem {
    /// Seconds from the making of the item to `now_secs`; zero where the
    /// clock went backwards.
    pub open spec fn age(self, now_secs: u64) -> u64 {
        if now_secs >= self.created_secs {
            (now_secs - self.created_secs) as u64
        } else {
            0
        }
    }

    /// The item has outlived the time it was given.
    pub open spec fn stale_at(self, now_secs: u64) -> bool {
        match self.stale_after_secs {
            Some(limit) => self.age(now_secs) >= limit,
            None => false,
        }
    }

    /// The item is shown: neither dismissed nor stale.
    pub open spec fn visible_at(self, now_secs: u64) -> bool {
        !self.dismissed && !self.stale_at(now_secs)
    }

    /// The item is shown and has not been seen.
    pub open spec fn unseen_at(self, now_secs: u64) -> bool {
        !self.seen && self.visible_at(now_secs)
    }

    /// The item is a fresh card with these contents: made at `now_secs`,
    /// unseen, open, never stale, replacing nothing, and without an id yet.
    pub open spec fn is_card(
        self,
        source: FeedSource,
        priority: Priority,
        title: Seq<char>,
        body: Seq<Seq<char>>,
        widget: Option<WidgetView>,
        now_secs: u64,
    ) -> bool {
        &&& self.id == 0
        &&& self.source == source
        &&& self.priority == priority
        &&& self.title@ == title
        &&& texts_of(self.body@) == body
        &&& widget_view(self.widget) == widget
        &&& self.created_secs == now_secs
        &&& !self.seen
        &&& self.stale_after_secs is None
        &&& !self.collapsed
        &&& !self.dismissed
        &&& self.replaces_source is None
    }

    /// A fresh item made at `now_secs`: no body, no widget, unseen, open,
    /// never stale, replacing nothing. The store assigns the id.
    pub fn new(source: FeedSource, priority: Priority, title: String, now_secs: u64) -> (item:
        FeedItem)
        ensures
            item.id == 0,
            item.source == source,
            item.priority == priority,
            item.title == title,
            item.body@.len() == 0,
            item.widget is None,
            item.created_secs == now_secs,
            !item.seen,
            item.stale_after_secs is None,
            !item.collapsed,
            !item.dismissed,
            item.replaces_source is None,
    {
        FeedItem {
            id: 0,
            source,
            priority,
            title,
            body: Vec::new(),
            widget: None,
            created_secs: now_secs,
            seen: false,
            stale_after_secs: None,
            collapsed: false,
            dismissed: false,
            replaces_source: None,
        }
    }

    pub fn with_body(self, lines: Vec<String>) -> (item: FeedItem)
        ensures
            item == (FeedItem { body: lines, ..self }),
    {
        let mut item = self;
        item.body = lines;
        item
    }

    pub fn with_widget(self, widget: WidgetData) -> (item: FeedItem)
        ensures
            item == (FeedItem { widget: Some(widget), ..self }),
    {
        let mut item = self;
        item.widget = Some(widget);
        item
    }

    pub fn with_stale(self, secs: u64) -> (item: FeedItem)
        ensures
            item == (FeedItem { stale_after_secs: Some(secs), ..self }),
    {
        let mut item = self;
        item.stale_after_secs = Some(secs);
        item
    }

    pub fn with_replaces(self, source: FeedSource) -> (item: FeedItem)
        ensures
            item == (FeedItem { replaces_source: Some(source), ..self }),
    {
        let mut item = self;
        item.replaces_source = Some(source);
        item
    }

    /// Seconds since the item was made.
    pub fn age_secs(&self, now_secs: u64) -> (age: u64)
        ensures
            age == self.age(now_secs),
    {
        if now_secs >= self.created_secs {
            now_secs - self.created_secs
        } else {
            0
        }
    }

    /// Whether this item has expired.
    pub fn is_stale(&self, now_secs: u64) -> (stale: bool)
        ensures
            stale == self.stale_at(now_secs),
    {
        match self.stale_after_secs {
            Some(limit) => self.age_secs(now_secs) >= limit,
            None => false,
        }
    }

    /// Whether the item is shown at `now_secs`.
    pub fn is_visible(&self, now_secs: u64) -> (visible: bool)
        ensures
            visible == self.visible_at(now_secs),
    {
        !self.dismissed && !self.is_stale(now_secs)
    }

    /// Human-readable relative timestamp.
    pub fn age_str(&self, now_secs: u64) -> (s: String)
        ensures
            s@ == age_spec(self.age(now_secs)),
    {
        let secs: u64 = self.age_secs(now_secs);
        let mut out = String::new();
        if secs < 5 {
            out.append("just now");
        } else if secs < 60 {
            push_decimal(&mut out, secs);
            out.append("s ago");
        } else if secs < 3600 {
            push_decimal(&mut out, secs / 60);
            out.append("m ago");
        } else {
            push_decimal(&mut out, secs / 3600);
            out.append("h ago");
        }
        assert(out@ =~= age_spec(secs));
        out
    }
}

/// Index of the first dismissed item, or the length where there is none.
pub open spec fn first_dismissed(items: Seq<FeedItem>) -> int
    decreases items.len(),
{
    if items.len() == 0 {
        0
    } else if items[0].dismissed {
        0
    } else {
        1 + first_dismissed(items.drop_first())
    }
}

/// Index of the first item with the id, or the length where there is none.
pub open spec fn first_with_id(items: Seq<FeedItem>, id: u64) -> int
    decreases items.len(),
{
    if items.len() == 0 {
        0
    } else if items[0].id == id {
        0
    } else {
        1 + first_with_id(items.drop_first(), id)
    }
}

/// Index of the last item of the source that is not dismissed, or -1 where
/// there is none.
pub open spec fn latest_active(items: Seq<FeedItem>, source: FeedSource) -> int
    decreases items.len(),
{
    if items.len() == 0 {
        -1
    } else if items.last().source == source && !items.last().dismissed {
        items.len() - 1
    } else {
        latest_active(items.drop_last(), source)
    }
}

/// How many items are shown and unseen; with `urgent_only`, how many of
/// them are urgent.
pub open spec fn unseen_of(items: Seq<FeedItem>, now_secs: u64, urgent_only: bool) -> nat
    decreases items.len(),
{
    if items.len() == 0 {
        0
    } else {
        let rest = unseen_of(items.drop_last(), now_secs, urgent_only);
        if items.last().unseen_at(now_secs) && (!urgent_only || items.last().priority
            == Priority::Urgent) {
            rest + 1
        } else {
            rest
        }
    }
}

/// The items that are shown, in the order they came.
pub open spec fn visible_of(items: Seq<FeedItem>, now_secs: u64) -> Seq<FeedItem>
    decreases items.len(),
{
    if items.len() == 0 {
        Seq::empty()
    } else if items.last().visible_at(now_secs) {
        visible_of(items.drop_last(), now_secs).push(items.last())
    } else {
        visible_of(items.drop_last(), now_secs)
    }
}

/// The items with item `at` dismissed.
pub open spec fn with_dismissed(items: Seq<FeedItem>, at: int) -> Seq<FeedItem> {
    if 0 <= at < items.len() {
        items.update(at, FeedItem { dismissed: true, ..items[at] })
    } else {
        items
    }
}

/// The items after a push: the latest live item of the source that the new
/// item replaces is dismissed, the new item goes to the end under the next
/// id, and where that makes one too many, the first dismissed item leaves,
/// or the oldest item where none is dismissed.
pub open spec fn after_push(items: Seq<FeedItem>, next_id: u64, max_items: usize, item: FeedItem) -> Seq<
    FeedItem,
> {
    let replaced = match item.replaces_source {
        Some(source) => with_dismissed(items, latest_active(items, source)),
        None => items,
    };
    let grown = replaced.push(FeedItem { id: next_id, ..item });
    if grown.len() > max_items {
        if first_dismissed(grown) < grown.len() {
            grown.remove(first_dismissed(grown))
        } else {
            grown.remove(0)
        }
    } else {
        grown
    }
}

/// Every id is at least 1 and under `bound`, and ids rise along the
/// sequence.
pub open spec fn ids_rising(items: Seq<FeedItem>, bound: u64) -> bool {
    &&& bound >= 1
    &&& forall|i: int| 0 <= i < items.len() ==> 1 <= (#[trigger] items[i]).id < bound
    &&& forall|i: int, j: int|
        0 <= i < j < items.len() ==> (#[trigger] items[i]).id < (#[trigger] items[j]).id
}

/// Dismissing an item changes no id.
pub proof fn lemma_dismiss_keeps_ids(items: Seq<FeedItem>, at: int, bound: u64)
    requires
        ids_rising(items, bound),
    ensures
        ids_rising(with_dismissed(items, at), bound),
        with_dismissed(items, at).len() == items.len(),
{
    let after = with_dismissed(items, at);
    assert forall|i: int| 0 <= i < after.len() implies (#[trigger] after[i]).id == items[i].id by {}
    assert forall|i: int, j: int| 0 <= i < j < after.len() implies (#[trigger] after[i]).id < (
    #[trigger] after[j]).id by {
        assert(after[i].id == items[i].id);
        assert(after[j].id == items[j].id);
    }
}

/// An item that arrives under the next id keeps the ids rising.
pub proof fn lemma_push_keeps_ids(items: Seq<FeedItem>, item: FeedItem, bound: u64)
    requires
        ids_rising(items, bound),
        bound < u64::MAX,
        item.id == bound,
    ensures
        ids_rising(items.push(item), (bound + 1) as u64),
{
    let after = items.push(item);
    assert forall|i: int, j: int| 0 <= i < j < after.len() implies (#[trigger] after[i]).id < (
    #[trigger] after[j]).id by {
        assert(after[i] == items[i]);
        if j < items.len() {
            assert(after[j] == items[j]);
        }
    }
    assert forall|i: int| 0 <= i < after.len() implies 1 <= (#[trigger] after[i]).id < bound
        + 1 by {
        if i < items.len() {
            assert(after[i] == items[i]);
        }
    }
}

/// Taking an item out keeps the ids of the others rising.
pub proof fn lemma_remove_keeps_ids(items: Seq<FeedItem>, at: int, bound: u64)
    requires
        ids_rising(items, bound),
        0 <= at < items.len(),
    ensures
        ids_rising(items.remove(at), bound),
        items.remove(at).len() == items.len() - 1,
{
    let after = items.remove(at);
    assert forall|i: int| 0 <= i < after.len() implies 1 <= (#[trigger] after[i]).id < bound by {
        if i < at {
            assert(after[i] == items[i]);
        } else {
            assert(after[i] == items[i + 1]);
        }
    }
    assert forall|i: int, j: int| 0 <= i < j < after.len() implies (#[trigger] after[i]).id < (
    #[trigger] after[j]).id by {
        let a = if i < at {
            i
        } else {
            i + 1
        };
        let b = if j < at {
            j
        } else {
            j + 1
        };
        assert(after[i] == items[a]);
        assert(after[j] == items[b]);
    }
}

/// `first_dismissed` names the first dismissed item: nothing before it is
/// dismissed, and it is, unless it is the length.
pub proof fn lemma_first_dismissed(items: Seq<FeedItem>)
    ensures
        0 <= first_dismissed(items) <= items.len(),
        first_dismissed(items) < items.len() ==> items[first_dismissed(items)].dismissed,
        forall|j: int| 0 <= j < first_dismissed(items) ==> !(#[trigger] items[j]).dismissed,
    decreases items.len(),
{
    if items.len() > 0 && !items[0].dismissed {
        let rest = items.drop_first();
        lemma_first_dismissed(rest);
        assert forall|j: int| 0 <= j < first_dismissed(items) implies !(#[trigger] items[j]).dismissed by {
            if j > 0 {
                assert(items[j] == rest[j - 1]);
            }
        }
    }
}

/// `first_with_id` names the first item with the id.
pub proof fn lemma_first_with_id(items: Seq<FeedItem>, id: u64)
    ensures
        0 <= first_with_id(items, id) <= items.len(),
        first_with_id(items, id) < items.len() ==> items[first_with_id(items, id)].id == id,
        forall|j: int| 0 <= j < first_with_id(items, id) ==> (#[trigger] items[j]).id != id,
    decreases items.len(),
{
    if items.len() > 0 && items[0].id != id {
        let rest = items.drop_first();
        lemma_first_with_id(rest, id);
        assert forall|j: int| 0 <= j < first_with_id(items, id) implies (#[trigger] items[j]).id
            != id by {
            if j > 0 {
                assert(items[j] == rest[j - 1]);
            }
        }
    }
}

/// `latest_active` names the last live item of the source.
pub proof fn lemma_latest_active(items: Seq<FeedItem>, source: FeedSource)
    ensures
        -1 <= latest_active(items, source) < items.len(),
        latest_active(items, source) >= 0 ==> items[latest_active(items, source)].source == source
            && !items[latest_active(items, source)].dismissed,
        forall|j: int|
            latest_active(items, source) < j < items.len() ==> !((#[trigger] items[j]).source
                == source && !items[j].dismissed),
    decreases items.len(),
{
    if items.len() > 0 && !(items.last().source == source && !items.last().dismissed) {
        let init = items.drop_last();
        lemma_latest_active(init, source);
        assert forall|j: int| latest_active(items, source) < j < items.len() implies !((
        #[trigger] items[j]).source == source && !items[j].dismissed) by {
            if j < items.len() - 1 {
                assert(items[j] == init[j]);
            }
        }
    }
}

/// The feed store holds all feed items with capping and pruning.
pub struct FeedStore {
    items: Vec<FeedItem>,
    next_id: u64,
    max_items: usize,
}

/// The store as the list of its items, oldest first. The id that the next
/// item gets and the most items it holds are not part of the list: they
/// are `next_id` and `max_items`, and the contracts speak of them by name.
impl View for FeedStore {
    type V = Seq<FeedItem>;

    closed spec fn view(&self) -> Seq<FeedItem> {
        self.items@
    }
}

impl FeedStore {
    /// The id that the next item gets.
    pub closed spec fn next_id(&self) -> u64 {
        self.next_id
    }

    /// The most items the store holds.
    pub closed spec fn max_items(&self) -> usize {
        self.max_items
    }

    /// Every id in the store lies under the next id, and ids rise with the
    /// order of arrival, so no two items share one.
    pub open spec fn wf(&self) -> bool {
        ids_rising(self@, self.next_id())
    }

    /// An empty store for up to `max_items` items.
    pub fn new(max_items: usize) -> (store: FeedStore)
        ensures
            store@.len() == 0,
            store.next_id() == 1,
            store.max_items() == max_items,
            store.wf(),
    {
        FeedStore { items: Vec::new(), next_id: 1, max_items }
    }

    /// How many items the store holds, shown or not.
    pub fn len(&self) -> (n: usize)
        ensures
            n == self@.len(),
    {
        self.items.len()
    }

    fn find_first_dismissed(&self) -> (at: usize)
        ensures
            at == first_dismissed(self@),
    {
        let n: usize = self.items.len();
        let mut i: usize = 0;
        assert(self.items@.subrange(0, n as int) =~= self.items@);
        while i < n && !self.items[i].dismissed
            invariant
                n == self.items@.len(),
                i <= n,
                first_dismissed(self.items@) == i + first_dismissed(
                    self.items@.subrange(i as int, n as int),
                ),
            decreases n - i,
        {
            assert(self.items@.subrange(i as int, n as int).drop_first() =~= self.items@.subrange(
                i as int + 1,
                n as int,
            ));
            i = i + 1;
        }
        i
    }

    fn find_id(&self, id: u64) -> (at: usize)
        ensures
            at == first_with_id(self@, id),
    {
        let n: usize = self.items.len();
        let mut i: usize = 0;
        assert(self.items@.subrange(0, n as int) =~= self.items@);
        while i < n && self.items[i].id != id
            invariant
                n == self.items@.len(),
                i <= n,
                first_with_id(self.items@, id) == i + first_with_id(
                    self.items@.subrange(i as int, n as int),
                    id,
                ),
            decreases n - i,
        {
            assert(self.items@.subrange(i as int, n as int).drop_first() =~= self.items@.subrange(
                i as int + 1,
                n as int,
            ));
            i = i + 1;
        }
        i
    }

    fn find_latest_active(&self, source: FeedSource) -> (at: Option<usize>)
        ensures
            at matches Some(i) ==> i == latest_active(self@, source),
            at is None ==> latest_active(self@, source) == -1,
    {
        let mut i: usize = self.items.len();
        assert(self.items@.subrange(0, i as int) =~= self.items@);
        while i > 0
            invariant
                i <= self.items@.len(),
                latest_active(self.items@, source) == latest_active(
                    self.items@.subrange(0, i as int),
                    source,
                ),
            decreases i,
        {
            let ghost prefix = self.items@.subrange(0, i as int);
            assert(prefix.last() == self.items@[i - 1]);
            assert(prefix.drop_last() =~= self.items@.subrange(0, i - 1));
            if self.items[i - 1].source == source && !self.items[i - 1].dismissed {
                return Some(i - 1);
            }
            i = i - 1;
        }
        None
    }

    /// Pushes a new item, assigning it an id.
    pub fn push(&mut self, item: FeedItem)
        requires
            old(self).wf(),
            old(self).next_id() < u64::MAX,
        ensures
            final(self)@ == after_push(old(self)@, old(self).next_id(), old(self).max_items(), item),
            final(self).next_id() == old(self).next_id() + 1,
            final(self).max_items() == old(self).max_items(),
            final(self).wf(),
            final(self)@.len() <= old(self)@.len() + 1,
            old(self)@.len() <= old(self).max_items() ==> final(self)@.len() <= old(
                self,
            ).max_items(),
    {
        let ghost start = self@;
        let ghost bound = self.next_id;
        let ghost replaced = match item.replaces_source {
            Some(source) => with_dismissed(start, latest_active(start, source)),
            None => start,
        };
        let mut item = item;
        proof {
            match item.replaces_source {
                Some(source) => {
                    lemma_latest_active(start, source);
                    lemma_dismiss_keeps_ids(start, latest_active(start, source), bound);
                },
                None => {},
            }
        }
        match item.replaces_source {
            Some(source) => {
                match self.find_latest_active(source) {
                    Some(at) => {
                        self.items[at].dismissed = true;
                        assert(self.items@ =~= replaced);
                    },
                    None => {},
                }
            },
            None => {},
        }
        assert(self.items@ == replaced);
        item.id = self.next_id;
        let ghost stamped = item;
        self.next_id = self.next_id + 1;
        self.items.push(item);
        let ghost grown = replaced.push(stamped);
        assert(self.items@ == grown);
        proof {
            lemma_push_keeps_ids(replaced, stamped, bound);
            lemma_first_dismissed(grown);
        }
        if self.items.len() > self.max_items {
            let at: usize = self.find_first_dismissed();
            if at < self.items.len() {
                proof {
                    lemma_remove_keeps_ids(grown, at as int, (bound + 1) as u64);
                }
                self.items.remove(at);
            } else {
                proof {
                    lemma_remove_keeps_ids(grown, 0, (bound + 1) as u64);
                }
                self.items.remove(0);
            }
        }
    }

    /// The visible items, oldest first.
    pub fn visible_items(&self, now_secs: u64) -> (shown: Vec<&FeedItem>)
        ensures
            shown@.len() == visible_of(self@, now_secs).len(),
            forall|i: int| 0 <= i < shown@.len() ==> *(#[trigger] shown@[i]) == visible_of(
                self@,
                now_secs,
            )[i],
    {
        let n: usize = self.items.len();
        let mut shown: Vec<&FeedItem> = Vec::new();
        let mut i: usize = 0;
        while i < n
            invariant
                n == self.items@.len(),
                i <= n,
                shown@.len() == visible_of(self.items@.subrange(0, i as int), now_secs).len(),
                forall|k: int|
                    0 <= k < shown@.len() ==> *(#[trigger] shown@[k]) == visible_of(
                        self.items@.subrange(0, i as int),
                        now_secs,
                    )[k],
            decreases n - i,
        {
            let ghost next = self.items@.subrange(0, i as int + 1);
            assert(next.drop_last() =~= self.items@.subrange(0, i as int));
            assert(next.last() == self.items@[i as int]);
            if self.items[i].is_visible(now_secs) {
                shown.push(&self.items[i]);
            }
            i = i + 1;
        }
        assert(self.items@.subrange(0, n as int) =~= self.items@);
        shown
    }

    /// How many items are visible.
    pub fn visible_count(&self, now_secs: u64) -> (n: usize)
        ensures
            n == visible_of(self@, now_secs).len(),
    {
        self.visible_items(now_secs).len()
    }

    fn count_unseen(&self, now_secs: u64, urgent_only: bool) -> (count: usize)
        ensures
            count == unseen_of(self@, now_secs, urgent_only),
    {
        let n: usize = self.items.len();
        let mut count: usize = 0;
        let mut i: usize = 0;
        while i < n
            invariant
                n == self.items@.len(),
                i <= n,
                count <= i,
                count == unseen_of(self.items@.subrange(0, i as int), now_secs, urgent_only),
            decreases n - i,
        {
            let ghost next = self.items@.subrange(0, i as int + 1);
            assert(next.drop_last() =~= self.items@.subrange(0, i as int));
            assert(next.last() == self.items@[i as int]);
            let it = &self.items[i];
            let urgent = match it.priority {
                Priority::Urgent => true,
                _ => false,
            };
            if !it.seen && it.is_visible(now_secs) && (!urgent_only || urgent) {
                count = count + 1;
            }
            i = i + 1;
        }
        assert(self.items@.subrange(0, n as int) =~= self.items@);
        count
    }

    /// Count of unseen, visible items.
    pub fn unseen_count(&self, now_secs: u64) -> (count: usize)
        ensures
            count == unseen_of(self@, now_secs, false),
    {
        self.count_unseen(now_secs, false)
    }

    /// Count of unseen, visible, urgent items.
    pub fn unseen_urgent_count(&self, now_secs: u64) -> (count: usize)
        ensures
            count == unseen_of(self@, now_secs, true),
    {
        self.count_unseen(now_secs, true)
    }

    /// Marks the item with the id as seen. An unknown id changes nothing.
    pub fn mark_seen(&mut self, id: u64)
        ensures
            final(self)@ == (if first_with_id(old(self)@, id) < old(self)@.len() {
                old(self)@.update(
                    first_with_id(old(self)@, id),
                    FeedItem { seen: true, ..old(self)@[first_with_id(old(self)@, id)] },
                )
            } else {
                old(self)@
            }),
            final(self).next_id() == old(self).next_id(),
            final(self).max_items() == old(self).max_items(),
            old(self).wf() ==> final(self).wf(),
    {
        let at: usize = self.find_id(id);
        if at < self.items.len() {
            self.items[at].seen = true;
            assert(self.items@ =~= old(self)@.update(
                at as int,
                FeedItem { seen: true, ..old(self)@[at as int] },
            ));
        }
    }

    /// Flips the collapsed state of the item with the id.
    pub fn toggle_collapse(&mut self, id: u64)
        ensures
            final(self)@ == (if first_with_id(old(self)@, id) < old(self)@.len() {
                old(self)@.update(
                    first_with_id(old(self)@, id),
                    FeedItem {
                        collapsed: !old(self)@[first_with_id(old(self)@, id)].collapsed,
                        ..old(self)@[first_with_id(old(self)@, id)]
                    },
                )
            } else {
                old(self)@
            }),
            final(self).next_id() == old(self).next_id(),
            final(self).max_items() == old(self).max_items(),
            old(self).wf() ==> final(self).wf(),
    {
        let at: usize = self.find_id(id);
        if at < self.items.len() {
            let was: bool = self.items[at].collapsed;
            self.items[at].collapsed = !was;
            assert(self.items@ =~= old(self)@.update(
                at as int,
                FeedItem { collapsed: !was, ..old(self)@[at as int] },
            ));
        }
    }

    /// Dismisses the item with the id: it is no longer shown.
    pub fn dismiss(&mut self, id: u64)
        ensures
            final(self)@ == (if first_with_id(old(self)@, id) < old(self)@.len() {
                with_dismissed(old(self)@, first_with_id(old(self)@, id))
            } else {
                old(self)@
            }),
            final(self).next_id() == old(self).next_id(),
            final(self).max_items() == old(self).max_items(),
            old(self).wf() ==> final(self).wf(),
    {
        let at: usize = self.find_id(id);
        if at < self.items.len() {
            self.items[at].dismissed = true;
            assert(self.items@ =~= with_dismissed(old(self)@, at as int));
        }
    }

    /// Dismisses every stale item. Nothing is shown afterwards that was not
    /// shown before, and what was shown stays shown.
    pub fn prune_stale(&mut self, now_secs: u64)
        ensures
            final(self)@.len() == old(self)@.len(),
            forall|i: int|
                0 <= i < old(self)@.len() ==> (#[trigger] final(self)@[i]) == (if old(self)@[i].stale_at(
                    now_secs,
                ) {
                    FeedItem { dismissed: true, ..old(self)@[i] }
                } else {
                    old(self)@[i]
                }),
            final(self).next_id() == old(self).next_id(),
            final(self).max_items() == old(self).max_items(),
            old(self).wf() ==> final(self).wf(),
    {
        let n: usize = self.items.len();
        let mut i: usize = 0;
        while i < n
            invariant
                n == old(self).items@.len(),
                self.items@.len() == n,
                i <= n,
                self.next_id == old(self).next_id,
                self.max_items == old(self).max_items,
                forall|k: int|
                    0 <= k < i ==> (#[trigger] self.items@[k]) == (if old(self).items@[k].stale_at(
                        now_secs,
                    ) {
                        FeedItem { dismissed: true, ..old(self).items@[k] }
                    } else {
                        old(self).items@[k]
                    }),
                forall|k: int| i <= k < n ==> (#[trigger] self.items@[k]) == old(self).items@[k],
            decreases n - i,
        {
            if self.items[i].is_stale(now_secs) && !self.items[i].dismissed {
                self.items[i].dismissed = true;
            }
            i = i + 1;
        }
    }

    /// Removes all items.
    pub fn clear(&mut self)
        ensures
            final(self)@.len() == 0,
            final(self).next_id() == old(self).next_id(),
            final(self).max_items() == old(self).max_items(),
            old(self).wf() ==> final(self).wf(),
    {
        self.items.clear();
    }
}

} // verus!
