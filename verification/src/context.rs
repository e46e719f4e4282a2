//! What a session remembers of its user: the words that keep coming up in
//! queries, the categories that were waved away, the last few queries.

use vstd::prelude::*;
use vstd::string::*;
use vstd::utf8::encode_utf8;
use crate::text::{
    alphanumeric, is_alphanumeric, lowercase, same_text, spans_from, spans_of, texts_of,
    to_lowercase, word_spans,
};

verus! {

/// Seconds between two saves of the session.
pub const SAVE_INTERVAL_SECS: u64 = 60;

/// How many queries are remembered.
pub const MAX_RECENT_QUERIES: usize = 10;

/// How many topics are kept.
pub const MAX_TOPICS: usize = 50;

/// A keyword and how often it came up.
pub struct Topic {
    pub word: String,
    pub count: u32,
}

/// Tracks user session context for smarter proactive intelligence.
pub struct SessionContext {
    /// Keywords from user queries with their counts, in the order they
    /// first came up; no keyword twice.
    pub topics: Vec<Topic>,
    /// Categories the user has dismissed; none twice.
    pub dismissed_categories: Vec<String>,
    /// Total queries this session.
    pub query_count: u32,
    /// Last few queries, oldest first.
    pub recent_queries: Vec<String>,
    /// When the session began, in seconds of a monotonic clock.
    pub session_start_secs: Option<u64>,
    /// When the session was saved last.
    pub last_save_secs: Option<u64>,
}

/// Topics as plain values: each a keyword and its count.
pub type Counts = Seq<(Seq<char>, u32)>;

/// The topics of a list as plain values.
pub open spec fn counts_of(topics: Seq<Topic>) -> Counts {
    Seq::new(topics.len(), |i: int| (topics[i].word@, topics[i].count))
}

/// Index of the keyword among the counts, or their number where it is not
/// among them.
pub open spec fn index_of(counts: Counts, word: Seq<char>) -> int
    decreases counts.len(),
{
    if counts.len() == 0 {
        0
    } else if counts[0].0 == word {
        0
    } else {
        1 + index_of(counts.drop_first(), word)
    }
}

/// The counts after the keyword came up once more: its count goes up by
/// one, as far as the counter goes, or it joins at the end with a count of
/// one.
pub open spec fn bumped(counts: Counts, word: Seq<char>) -> Counts {
    let at = index_of(counts, word);
    if at < counts.len() {
        counts.update(
            at,
            (
                word,
                if counts[at].1 < u32::MAX {
                    (counts[at].1 + 1) as u32
                } else {
                    u32::MAX
                },
            ),
        )
    } else {
        counts.push((word, 1u32))
    }
}

/// Index of the entry to give up first: the last one among those with the
/// smallest count.
pub open spec fn weakest(counts: Counts) -> int
    decreases counts.len(),
{
    if counts.len() <= 1 {
        0
    } else {
        let before = weakest(counts.drop_last());
        if counts.last().1 <= counts[before].1 {
            counts.len() - 1
        } else {
            before
        }
    }
}

/// Index of the entry that leads: the first one among those with the
/// largest count.
pub open spec fn strongest(counts: Counts) -> int
    decreases counts.len(),
{
    if counts.len() <= 1 {
        0
    } else {
        let before = strongest(counts.drop_last());
        if counts.last().1 > counts[before].1 {
            counts.len() - 1
        } else {
            before
        }
    }
}

/// The counts cut down to `cap` entries by giving up the weakest, one at a
/// time.
pub open spec fn trimmed(counts: Counts, cap: nat) -> Counts
    decreases counts.len(),
{
    if counts.len() <= cap {
        counts
    } else {
        proof {
            lemma_weakest(counts);
        }
        trimmed(counts.remove(weakest(counts)), cap)
    }
}

/// The `n` leading keywords, the strongest first.
pub open spec fn top(counts: Counts, n: nat) -> Seq<Seq<char>>
    decreases n,
{
    if n == 0 || counts.len() == 0 {
        Seq::empty()
    } else {
        seq![counts[strongest(counts)].0] + top(counts.remove(strongest(counts)), (n - 1) as nat)
    }
}

/// The `n` leading entries, the strongest first: the keywords that `top`
/// names, each with its count.
pub open spec fn leading(counts: Counts, n: nat) -> Counts
    decreases n,
{
    if n == 0 || counts.len() == 0 {
        Seq::empty()
    } else {
        seq![counts[strongest(counts)]] + leading(
            counts.remove(strongest(counts)),
            (n - 1) as nat,
        )
    }
}

/// No keyword stands twice.
pub open spec fn distinct(counts: Counts) -> bool {
    forall|i: int, j: int|
        0 <= i < j < counts.len() ==> (#[trigger] counts[i]).0 != (#[trigger] counts[j]).0
}

/// `index_of` names the first entry with the keyword.
pub proof fn lemma_index_of(counts: Counts, word: Seq<char>)
    ensures
        0 <= index_of(counts, word) <= counts.len(),
        index_of(counts, word) < counts.len() ==> counts[index_of(counts, word)].0 == word,
        forall|j: int| 0 <= j < index_of(counts, word) ==> (#[trigger] counts[j]).0 != word,
    decreases counts.len(),
{
    if counts.len() > 0 && counts[0].0 != word {
        let rest = counts.drop_first();
        lemma_index_of(rest, word);
        assert forall|j: int| 0 <= j < index_of(counts, word) implies (#[trigger] counts[j]).0
            != word by {
            if j > 0 {
                assert(counts[j] == rest[j - 1]);
            }
        }
    }
}

/// The weakest entry has the smallest count, and is the last to have it.
pub proof fn lemma_weakest(counts: Counts)
    requires
        counts.len() > 0,
    ensures
        0 <= weakest(counts) < counts.len(),
        forall|j: int| 0 <= j < counts.len() ==> counts[weakest(counts)].1 <= (#[trigger] counts[j]).1,
        forall|j: int|
            weakest(counts) < j < counts.len() ==> counts[weakest(counts)].1 < (#[trigger] counts[j]).1,
    decreases counts.len(),
{
    if counts.len() > 1 {
        let init = counts.drop_last();
        lemma_weakest(init);
        let before = weakest(init);
        assert(counts[before] == init[before]);
        assert forall|j: int| 0 <= j < counts.len() implies counts[weakest(counts)].1 <= (
        #[trigger] counts[j]).1 by {
            if j < counts.len() - 1 {
                assert(counts[j] == init[j]);
            }
        }
        assert forall|j: int| weakest(counts) < j < counts.len() implies counts[weakest(
            counts,
        )].1 < (#[trigger] counts[j]).1 by {
            if j < counts.len() - 1 {
                assert(counts[j] == init[j]);
            }
        }
    }
}

/// The strongest entry has the largest count, and is the first to have it.
pub proof fn lemma_strongest(counts: Counts)
    requires
        counts.len() > 0,
    ensures
        0 <= strongest(counts) < counts.len(),
        forall|j: int|
            0 <= j < counts.len() ==> counts[strongest(counts)].1 >= (#[trigger] counts[j]).1,
        forall|j: int|
            0 <= j < strongest(counts) ==> counts[strongest(counts)].1 > (#[trigger] counts[j]).1,
    decreases counts.len(),
{
    if counts.len() > 1 {
        let init = counts.drop_last();
        lemma_strongest(init);
        let before = strongest(init);
        assert(counts[before] == init[before]);
        assert forall|j: int| 0 <= j < counts.len() implies counts[strongest(counts)].1 >= (
        #[trigger] counts[j]).1 by {
            if j < counts.len() - 1 {
                assert(counts[j] == init[j]);
            }
        }
        assert forall|j: int| 0 <= j < strongest(counts) implies counts[strongest(counts)].1 > (
        #[trigger] counts[j]).1 by {
            if j < counts.len() - 1 {
                assert(counts[j] == init[j]);
            }
        }
    }
}

/// The leading keywords are as many as were asked for, or all there are.
/// Each is a keyword of the counts, and they stand by falling count: none
/// came up more often than one that stands before it.
pub proof fn lemma_top_is_ranked(counts: Counts, n: nat)
    ensures
        top(counts, n).len() == leading(counts, n).len(),
        leading(counts, n).len() == (if n <= counts.len() {
            n
        } else {
            counts.len()
        }),
        forall|k: int|
            0 <= k < leading(counts, n).len() ==> top(counts, n)[k] == (#[trigger] leading(
                counts,
                n,
            )[k]).0,
        forall|k: int|
            0 <= k < leading(counts, n).len() ==> counts.contains(#[trigger] leading(counts, n)[k]),
        forall|i: int, j: int|
            0 <= i <= j < leading(counts, n).len() ==> (#[trigger] leading(counts, n)[i]).1
                >= (#[trigger] leading(counts, n)[j]).1,
    decreases n,
{
    if n > 0 && counts.len() > 0 {
        lemma_strongest(counts);
        let at = strongest(counts);
        let rest = counts.remove(at);
        let tail = leading(rest, (n - 1) as nat);
        let all = leading(counts, n);
        lemma_top_is_ranked(rest, (n - 1) as nat);
        assert(all =~= seq![counts[at]] + tail);
        assert forall|k: int| 0 <= k < all.len() implies counts.contains(#[trigger] all[k]) by {
            if k > 0 {
                assert(all[k] == tail[k - 1]);
                assert(rest.contains(tail[k - 1]));
                let m = choose|m: int| 0 <= m < rest.len() && rest[m] == tail[k - 1];
                if m < at {
                    assert(counts[m] == all[k]);
                } else {
                    assert(counts[m + 1] == all[k]);
                }
            } else {
                assert(counts[at] == all[0]);
            }
        }
        assert forall|i: int, j: int| 0 <= i <= j < all.len() implies (#[trigger] all[i]).1
            >= (#[trigger] all[j]).1 by {
            if i == 0 {
                assert(counts.contains(all[j]));
                let m = choose|m: int| 0 <= m < counts.len() && counts[m] == all[j];
                assert(counts[at].1 >= counts[m].1);
            } else {
                assert(all[i] == tail[i - 1] && all[j] == tail[j - 1]);
            }
        }
        assert forall|k: int| 0 <= k < all.len() implies top(counts, n)[k] == (
            #[trigger] all[k]
        ).0 by {
            if k > 0 {
                assert(all[k] == tail[k - 1]);
                assert(top(counts, n)[k] == top(rest, (n - 1) as nat)[k - 1]);
            }
        }
    }
}

/// Trimming leaves no more than the cap, and takes nothing away from a list
/// that is within it.
pub proof fn lemma_trimmed(counts: Counts, cap: nat)
    ensures
        trimmed(counts, cap).len() == (if counts.len() <= cap {
            counts.len()
        } else {
            cap
        }),
        distinct(counts) ==> distinct(trimmed(counts, cap)),
    decreases counts.len(),
{
    if counts.len() > cap {
        lemma_weakest(counts);
        let at = weakest(counts);
        let rest = counts.remove(at);
        lemma_trimmed(rest, cap);
        if distinct(counts) {
            assert forall|i: int, j: int| 0 <= i < j < rest.len() implies (#[trigger] rest[i]).0 != (
            #[trigger] rest[j]).0 by {
                let a = if i < at {
                    i
                } else {
                    i + 1
                };
                let b = if j < at {
                    j
                } else {
                    j + 1
                };
                assert(rest[i] == counts[a]);
                assert(rest[j] == counts[b]);
            }
        }
    }
}

/// A keyword that comes up keeps the keywords distinct, and is among them
/// afterwards.
pub proof fn lemma_bumped(counts: Counts, word: Seq<char>)
    requires
        distinct(counts),
    ensures
        distinct(bumped(counts, word)),
        index_of(bumped(counts, word), word) < bumped(counts, word).len(),
        bumped(counts, word).len() == (if index_of(counts, word) < counts.len() {
            counts.len()
        } else {
            counts.len() + 1
        }),
{
    lemma_index_of(counts, word);
    let after = bumped(counts, word);
    let at = index_of(counts, word);
    assert forall|i: int, j: int| 0 <= i < j < after.len() implies (#[trigger] after[i]).0 != (
    #[trigger] after[j]).0 by {
        if j < counts.len() {
            assert(after[i].0 == counts[i].0);
            assert(after[j].0 == counts[j].0);
        } else {
            assert(after[i].0 == counts[i].0);
        }
    }
    lemma_index_of(after, word);
    assert(after[at].0 == word);
}

/// Index of the topic with the keyword, or the number of topics.
fn find_topic(topics: &Vec<Topic>, word: &String) -> (at: usize)
    ensures
        at == index_of(counts_of(topics@), word@),
        at <= topics@.len(),
{
    let ghost counts = counts_of(topics@);
    let n: usize = topics.len();
    let mut i: usize = 0;
    assert(counts.subrange(0, n as int) =~= counts);
    while i < n && !(topics[i].word == *word)
        invariant
            n == topics@.len(),
            counts == counts_of(topics@),
            i <= n,
            index_of(counts, word@) == i + index_of(counts.subrange(i as int, n as int), word@),
        decreases n - i,
    {
        assert(counts.subrange(i as int, n as int).drop_first() =~= counts.subrange(
            i as int + 1,
            n as int,
        ));
        assert(counts.subrange(i as int, n as int)[0] == counts[i as int]);
        i = i + 1;
    }
    proof {
        if i < n {
            assert(counts.subrange(i as int, n as int)[0] == counts[i as int]);
        }
    }
    i
}

/// Index of the weakest topic.
fn find_weakest(topics: &Vec<Topic>) -> (at: usize)
    requires
        topics@.len() > 0,
    ensures
        at == weakest(counts_of(topics@)),
        at < topics@.len(),
{
    let ghost counts = counts_of(topics@);
    let n: usize = topics.len();
    let mut best: usize = 0;
    let mut i: usize = 1;
    while i < n
        invariant
            n == topics@.len(),
            counts == counts_of(topics@),
            1 <= i <= n,
            best < i,
            best == weakest(counts.subrange(0, i as int)),
        decreases n - i,
    {
        let ghost next = counts.subrange(0, i as int + 1);
        assert(next.drop_last() =~= counts.subrange(0, i as int));
        assert(next.last() == counts[i as int]);
        assert(next[best as int] == counts[best as int]);
        if topics[i].count <= topics[best].count {
            best = i;
        }
        i = i + 1;
    }
    assert(counts.subrange(0, n as int) =~= counts);
    best
}

/// Index of the strongest topic.
fn find_strongest(topics: &Vec<Topic>) -> (at: usize)
    requires
        topics@.len() > 0,
    ensures
        at == strongest(counts_of(topics@)),
        at < topics@.len(),
{
    let ghost counts = counts_of(topics@);
    let n: usize = topics.len();
    let mut best: usize = 0;
    let mut i: usize = 1;
    while i < n
        invariant
            n == topics@.len(),
            counts == counts_of(topics@),
            1 <= i <= n,
            best < i,
            best == strongest(counts.subrange(0, i as int)),
        decreases n - i,
    {
        let ghost next = counts.subrange(0, i as int + 1);
        assert(next.drop_last() =~= counts.subrange(0, i as int));
        assert(next.last() == counts[i as int]);
        assert(next[best as int] == counts[best as int]);
        if topics[i].count > topics[best].count {
            best = i;
        }
        i = i + 1;
    }
    assert(counts.subrange(0, n as int) =~= counts);
    best
}

impl SessionContext {
    /// The topics as plain values.
    pub open spec fn counts(&self) -> Counts {
        counts_of(self.topics@)
    }

    /// No keyword stands twice among the topics.
    pub open spec fn wf(&self) -> bool {
        distinct(self.counts())
    }

    /// A session that begins at `now_secs`, with nothing remembered.
    pub fn new(now_secs: u64) -> (ctx: SessionContext)
        ensures
            ctx.topics@.len() == 0,
            ctx.dismissed_categories@.len() == 0,
            ctx.query_count == 0,
            ctx.recent_queries@.len() == 0,
            ctx.session_start_secs == Some(now_secs),
            ctx.last_save_secs is None,
            ctx.wf(),
    {
        SessionContext {
            topics: Vec::new(),
            dismissed_categories: Vec::new(),
            query_count: 0,
            recent_queries: Vec::new(),
            session_start_secs: Some(now_secs),
            last_save_secs: None,
        }
    }

    /// A save is due: none was made yet, or the last one lies a minute or
    /// more back.
    pub open spec fn save_due(&self, now_secs: u64) -> bool {
        match self.last_save_secs {
            Some(last) => now_secs >= last && now_secs - last >= SAVE_INTERVAL_SECS,
            None => true,
        }
    }

    /// Decides whether the session is to be saved now, and if so takes
    /// `now_secs` down as the time of the last save. Returns the decision;
    /// the writing is the caller's.
    pub fn maybe_save(&mut self, now_secs: u64) -> (save: bool)
        ensures
            save == old(self).save_due(now_secs),
            final(self).last_save_secs == (if save {
                Some(now_secs)
            } else {
                old(self).last_save_secs
            }),
            final(self).topics == old(self).topics,
            final(self).dismissed_categories == old(self).dismissed_categories,
            final(self).query_count == old(self).query_count,
            final(self).recent_queries == old(self).recent_queries,
            final(self).session_start_secs == old(self).session_start_secs,
    {
        let due = match self.last_save_secs {
            Some(last) => now_secs >= last && now_secs - last >= SAVE_INTERVAL_SECS,
            None => true,
        };
        if due {
            self.last_save_secs = Some(now_secs);
        }
        due
    }

    /// Records a dismissed category, once.
    pub fn record_dismiss(&mut self, category: &str)
        ensures
            texts_of(final(self).dismissed_categories@) == (if texts_of(
                old(self).dismissed_categories@,
            ).contains(category@) {
                texts_of(old(self).dismissed_categories@)
            } else {
                texts_of(old(self).dismissed_categories@).push(category@)
            }),
            final(self).topics == old(self).topics,
            final(self).query_count == old(self).query_count,
            final(self).recent_queries == old(self).recent_queries,
            final(self).session_start_secs == old(self).session_start_secs,
            final(self).last_save_secs == old(self).last_save_secs,
    {
        let wanted = String::from_str(category);
        let ghost before = texts_of(self.dismissed_categories@);
        let n: usize = self.dismissed_categories.len();
        let mut i: usize = 0;
        while i < n
            invariant
                n == self.dismissed_categories@.len(),
                before == texts_of(self.dismissed_categories@),
                *self == *old(self),
                wanted@ == category@,
                i <= n,
                forall|k: int| 0 <= k < i ==> before[k] != category@,
            decreases n - i,
        {
            if self.dismissed_categories[i] == wanted {
                assert(before[i as int] == category@);
                return ;
            }
            i = i + 1;
        }
        self.dismissed_categories.push(wanted);
        assert(texts_of(self.dismissed_categories@) =~= before.push(category@));
    }

    /// Counts a keyword once more.
    pub fn bump_topic(&mut self, word: String)
        requires
            old(self).wf(),
        ensures
            final(self).counts() == bumped(old(self).counts(), word@),
            final(self).wf(),
            final(self).dismissed_categories == old(self).dismissed_categories,
            final(self).query_count == old(self).query_count,
            final(self).recent_queries == old(self).recent_queries,
            final(self).session_start_secs == old(self).session_start_secs,
            final(self).last_save_secs == old(self).last_save_secs,
    {
        proof {
            lemma_bumped(self.counts(), word@);
        }
        let at: usize = find_topic(&self.topics, &word);
        if at < self.topics.len() {
            let count: u32 = self.topics[at].count;
            if count < u32::MAX {
                self.topics[at].count = count + 1;
            }
            proof {
                lemma_index_of(old(self).counts(), word@);
            }
            assert(self.counts() =~= bumped(old(self).counts(), word@));
        } else {
            self.topics.push(Topic { word, count: 1 });
            assert(self.counts() =~= bumped(old(self).counts(), word@));
        }
    }

    /// Cuts the topics down to the fifty most frequent.
    pub fn trim_topics(&mut self)
        ensures
            final(self).counts() == trimmed(old(self).counts(), MAX_TOPICS as nat),
            final(self).topics@.len() <= MAX_TOPICS,
            old(self).wf() ==> final(self).wf(),
            final(self).dismissed_categories == old(self).dismissed_categories,
            final(self).query_count == old(self).query_count,
            final(self).recent_queries == old(self).recent_queries,
            final(self).session_start_secs == old(self).session_start_secs,
            final(self).last_save_secs == old(self).last_save_secs,
    {
        proof {
            lemma_trimmed(self.counts(), MAX_TOPICS as nat);
        }
        while self.topics.len() > MAX_TOPICS
            invariant
                trimmed(self.counts(), MAX_TOPICS as nat) == trimmed(
                    old(self).counts(),
                    MAX_TOPICS as nat,
                ),
                self.dismissed_categories == old(self).dismissed_categories,
                self.query_count == old(self).query_count,
                self.recent_queries == old(self).recent_queries,
                self.session_start_secs == old(self).session_start_secs,
                self.last_save_secs == old(self).last_save_secs,
            decreases self.topics@.len(),
        {
            let ghost before = self.counts();
            let at: usize = find_weakest(&self.topics);
            self.topics.remove(at);
            assert(self.counts() =~= before.remove(at as int));
        }
    }

    /// The `n` most frequent keywords, the most frequent first; of two that
    /// came up equally often, the one that came up first.
    pub fn top_topics(&self, n: usize) -> (words: Vec<String>)
        ensures
            texts_of(words@) == top(self.counts(), n as nat),
    {
        let ghost counts = self.counts();
        let mut work: Vec<Topic> = Vec::new();
        let len: usize = self.topics.len();
        let mut i: usize = 0;
        while i < len
            invariant
                len == self.topics@.len(),
                i <= len,
                counts == counts_of(self.topics@),
                counts_of(work@) == counts.subrange(0, i as int),
            decreases len - i,
        {
            let ghost copied = counts_of(work@);
            let word = self.topics[i].word.clone();
            let count: u32 = self.topics[i].count;
            assert(word@ == counts[i as int].0 && count == counts[i as int].1);
            work.push(Topic { word, count });
            assert(counts_of(work@) =~= copied.push(counts[i as int]));
            i = i + 1;
            assert(counts_of(work@) =~= counts.subrange(0, i as int));
        }
        assert(counts.subrange(0, len as int) =~= counts);
        let mut words: Vec<String> = Vec::new();
        assert(texts_of(words@) + top(counts, n as nat) =~= top(counts, n as nat));
        while words.len() < n && work.len() > 0
            invariant
                words@.len() <= n,
                texts_of(words@) + top(counts_of(work@), (n - words@.len()) as nat) == top(
                    counts,
                    n as nat,
                ),
            decreases work@.len(),
        {
            let ghost before = counts_of(work@);
            let ghost sofar = texts_of(words@);
            let at: usize = find_strongest(&work);
            let topic = work.remove(at);
            assert(counts_of(work@) =~= before.remove(at as int));
            words.push(topic.word);
            assert(texts_of(words@) =~= sofar.push(before[at as int].0));
            assert(sofar.push(before[at as int].0) + top(
                before.remove(at as int),
                (n - words@.len()) as nat,
            ) =~= sofar + top(before, (n - sofar.len()) as nat));
        }
        proof {
            let left = top(counts_of(work@), (n - words@.len()) as nat);
            assert(left.len() == 0);
            assert(texts_of(words@) + left =~= texts_of(words@));
        }
        words
    }
}

/// How many stop words there are.
pub const STOP_WORD_COUNT: usize = 135;

/// Stop word number `i`: a word too common to count as a topic.
pub open spec fn stop_word_at(i: int) -> Seq<char> {
    if i == 0 {
        "the"@
    } else if i == 1 {
        "a"@
    } else if i == 2 {
        "an"@
    } else if i == 3 {
        "is"@
    } else if i == 4 {
        "are"@
    } else if i == 5 {
        "was"@
    } else if i == 6 {
        "were"@
    } else if i == 7 {
        "be"@
    } else if i == 8 {
        "been"@
    } else if i == 9 {
        "being"@
    } else if i == 10 {
        "have"@
    } else if i == 11 {
        "has"@
    } else if i == 12 {
        "had"@
    } else if i == 13 {
        "do"@
    } else if i == 14 {
        "does"@
    } else if i == 15 {
        "did"@
    } else if i == 16 {
        "will"@
    } else if i == 17 {
        "would"@
    } else if i == 18 {
        "could"@
    } else if i == 19 {
        "should"@
    } else if i == 20 {
        "may"@
    } else if i == 21 {
        "might"@
    } else if i == 22 {
        "shall"@
    } else if i == 23 {
        "can"@
    } else if i == 24 {
        "need"@
    } else if i == 25 {
        "must"@
    } else if i == 26 {
        "ought"@
    } else if i == 27 {
        "i"@
    } else if i == 28 {
        "me"@
    } else if i == 29 {
        "my"@
    } else if i == 30 {
        "mine"@
    } else if i == 31 {
        "we"@
    } else if i == 32 {
        "our"@
    } else if i == 33 {
        "ours"@
    } else if i == 34 {
        "you"@
    } else if i == 35 {
        "your"@
    } else if i == 36 {
        "yours"@
    } else if i == 37 {
        "he"@
    } else if i == 38 {
        "him"@
    } else if i == 39 {
        "his"@
    } else if i == 40 {
        "she"@
    } else if i == 41 {
        "her"@
    } else if i == 42 {
        "hers"@
    } else if i == 43 {
        "it"@
    } else if i == 44 {
        "its"@
    } else if i == 45 {
        "they"@
    } else if i == 46 {
        "them"@
    } else if i == 47 {
        "their"@
    } else if i == 48 {
        "theirs"@
    } else if i == 49 {
        "what"@
    } else if i == 50 {
        "which"@
    } else if i == 51 {
        "who"@
    } else if i == 52 {
        "whom"@
    } else if i == 53 {
        "this"@
    } else if i == 54 {
        "that"@
    } else if i == 55 {
        "these"@
    } else if i == 56 {
        "those"@
    } else if i == 57 {
        "am"@
    } else if i == 58 {
        "at"@
    } else if i == 59 {
        "by"@
    } else if i == 60 {
        "for"@
    } else if i == 61 {
        "with"@
    } else if i == 62 {
        "about"@
    } else if i == 63 {
        "against"@
    } else if i == 64 {
        "between"@
    } else if i == 65 {
        "through"@
    } else if i == 66 {
        "during"@
    } else if i == 67 {
        "before"@
    } else if i == 68 {
        "after"@
    } else if i == 69 {
        "above"@
    } else if i == 70 {
        "below"@
    } else if i == 71 {
        "to"@
    } else if i == 72 {
        "from"@
    } else if i == 73 {
        "up"@
    } else if i == 74 {
        "down"@
    } else if i == 75 {
        "in"@
    } else if i == 76 {
        "out"@
    } else if i == 77 {
        "on"@
    } else if i == 78 {
        "off"@
    } else if i == 79 {
        "over"@
    } else if i == 80 {
        "under"@
    } else if i == 81 {
        "again"@
    } else if i == 82 {
        "further"@
    } else if i == 83 {
        "then"@
    } else if i == 84 {
        "once"@
    } else if i == 85 {
        "here"@
    } else if i == 86 {
        "there"@
    } else if i == 87 {
        "when"@
    } else if i == 88 {
        "where"@
    } else if i == 89 {
        "why"@
    } else if i == 90 {
        "how"@
    } else if i == 91 {
        "all"@
    } else if i == 92 {
        "both"@
    } else if i == 93 {
        "each"@
    } else if i == 94 {
        "few"@
    } else if i == 95 {
        "more"@
    } else if i == 96 {
        "most"@
    } else if i == 97 {
        "other"@
    } else if i == 98 {
        "some"@
    } else if i == 99 {
        "such"@
    } else if i == 100 {
        "no"@
    } else if i == 101 {
        "nor"@
    } else if i == 102 {
        "not"@
    } else if i == 103 {
        "only"@
    } else if i == 104 {
        "own"@
    } else if i == 105 {
        "same"@
    } else if i == 106 {
        "so"@
    } else if i == 107 {
        "than"@
    } else if i == 108 {
        "too"@
    } else if i == 109 {
        "very"@
    } else if i == 110 {
        "just"@
    } else if i == 111 {
        "don"@
    } else if i == 112 {
        "now"@
    } else if i == 113 {
        "of"@
    } else if i == 114 {
        "and"@
    } else if i == 115 {
        "but"@
    } else if i == 116 {
        "or"@
    } else if i == 117 {
        "if"@
    } else if i == 118 {
        "tell"@
    } else if i == 119 {
        "show"@
    } else if i == 120 {
        "get"@
    } else if i == 121 {
        "give"@
    } else if i == 122 {
        "make"@
    } else if i == 123 {
        "go"@
    } else if i == 124 {
        "know"@
    } else if i == 125 {
        "take"@
    } else if i == 126 {
        "see"@
    } else if i == 127 {
        "come"@
    } else if i == 128 {
        "think"@
    } else if i == 129 {
        "look"@
    } else if i == 130 {
        "want"@
    } else if i == 131 {
        "say"@
    } else if i == 132 {
        "use"@
    } else if i == 133 {
        "find"@
    } else {
        "put"@
    }
}

/// The word is a stop word.
pub open spec fn is_stop_word_spec(word: Seq<char>) -> bool {
    exists|i: int| 0 <= i < STOP_WORD_COUNT && #[trigger] stop_word_at(i) == word
}

fn stop_word(i: usize) -> (word: &'static str)
    requires
        i < STOP_WORD_COUNT,
    ensures
        word@ == stop_word_at(i as int),
{
    match i {
        0 => "the",
        1 => "a",
        2 => "an",
        3 => "is",
        4 => "are",
        5 => "was",
        6 => "were",
        7 => "be",
        8 => "been",
        9 => "being",
        10 => "have",
        11 => "has",
        12 => "had",
        13 => "do",
        14 => "does",
        15 => "did",
        16 => "will",
        17 => "would",
        18 => "could",
        19 => "should",
        20 => "may",
        21 => "might",
        22 => "shall",
        23 => "can",
        24 => "need",
        25 => "must",
        26 => "ought",
        27 => "i",
        28 => "me",
        29 => "my",
        30 => "mine",
        31 => "we",
        32 => "our",
        33 => "ours",
        34 => "you",
        35 => "your",
        36 => "yours",
        37 => "he",
        38 => "him",
        39 => "his",
        40 => "she",
        41 => "her",
        42 => "hers",
        43 => "it",
        44 => "its",
        45 => "they",
        46 => "them",
        47 => "their",
        48 => "theirs",
        49 => "what",
        50 => "which",
        51 => "who",
        52 => "whom",
        53 => "this",
        54 => "that",
        55 => "these",
        56 => "those",
        57 => "am",
        58 => "at",
        59 => "by",
        60 => "for",
        61 => "with",
        62 => "about",
        63 => "against",
        64 => "between",
        65 => "through",
        66 => "during",
        67 => "before",
        68 => "after",
        69 => "above",
        70 => "below",
        71 => "to",
        72 => "from",
        73 => "up",
        74 => "down",
        75 => "in",
        76 => "out",
        77 => "on",
        78 => "off",
        79 => "over",
        80 => "under",
        81 => "again",
        82 => "further",
        83 => "then",
        84 => "once",
        85 => "here",
        86 => "there",
        87 => "when",
        88 => "where",
        89 => "why",
        90 => "how",
        91 => "all",
        92 => "both",
        93 => "each",
        94 => "few",
        95 => "more",
        96 => "most",
        97 => "other",
        98 => "some",
        99 => "such",
        100 => "no",
        101 => "nor",
        102 => "not",
        103 => "only",
        104 => "own",
        105 => "same",
        106 => "so",
        107 => "than",
        108 => "too",
        109 => "very",
        110 => "just",
        111 => "don",
        112 => "now",
        113 => "of",
        114 => "and",
        115 => "but",
        116 => "or",
        117 => "if",
        118 => "tell",
        119 => "show",
        120 => "get",
        121 => "give",
        122 => "make",
        123 => "go",
        124 => "know",
        125 => "take",
        126 => "see",
        127 => "come",
        128 => "think",
        129 => "look",
        130 => "want",
        131 => "say",
        132 => "use",
        133 => "find",
        _ => "put",
    }
}

/// Whether a word is too common to count as a topic.
pub fn is_stop_word(word: &str) -> (stop: bool)
    ensures
        stop == is_stop_word_spec(word@),
{
    let mut i: usize = 0;
    while i < STOP_WORD_COUNT
        invariant
            i <= STOP_WORD_COUNT,
            forall|k: int| 0 <= k < i ==> #[trigger] stop_word_at(k) != word@,
        decreases STOP_WORD_COUNT - i,
    {
        if same_text(stop_word(i), word) {
            assert(stop_word_at(i as int) == word@);
            return true;
        }
        i = i + 1;
    }
    false
}

/// Whether each character of a text is a letter or a number.
pub open spec fn classes(text: Seq<char>) -> Seq<bool> {
    Seq::new(text.len(), |i: int| alphanumeric(text[i]))
}

/// The keywords among the words that the spans mark in a text: each word of
/// more than two bytes, in lower case.
pub open spec fn keywords_in(text: Seq<char>, spans: Seq<(int, int)>) -> Seq<Seq<char>>
    decreases spans.len(),
{
    if spans.len() == 0 {
        Seq::empty()
    } else {
        let word = text.subrange(spans.last().0, spans.last().1);
        let before = keywords_in(text, spans.drop_last());
        if encode_utf8(word).len() > 2 {
            before.push(lowercase(word))
        } else {
            before
        }
    }
}

/// The keywords of a query: its runs of letters and numbers that take more
/// than two bytes, in lower case, in the order they stand.
pub open spec fn keywords(query: Seq<char>) -> Seq<Seq<char>> {
    keywords_in(query, spans_from(classes(query), 0))
}

/// The counts after one keyword: a stop word changes nothing, any other
/// word is counted.
pub open spec fn with_keyword(counts: Counts, word: Seq<char>) -> Counts {
    if is_stop_word_spec(word) {
        counts
    } else {
        bumped(counts, word)
    }
}

/// The counts after a run of keywords, taken in order.
pub open spec fn with_keywords(counts: Counts, words: Seq<Seq<char>>) -> Counts
    decreases words.len(),
{
    if words.len() == 0 {
        counts
    } else {
        with_keyword(with_keywords(counts, words.drop_last()), words.last())
    }
}

/// The last queries after one more: the new one at the end, and the oldest
/// gone where that makes more than ten.
pub open spec fn with_query(recent: Seq<Seq<char>>, query: Seq<char>) -> Seq<Seq<char>> {
    let grown = recent.push(query);
    if grown.len() > MAX_RECENT_QUERIES {
        grown.drop_first()
    } else {
        grown
    }
}

impl SessionContext {
    /// Takes one keyword in, already in lower case: a stop word is passed
    /// over, any other word is counted.
    pub fn record_keyword(&mut self, word: &str)
        requires
            old(self).wf(),
        ensures
            final(self).counts() == with_keyword(old(self).counts(), word@),
            final(self).wf(),
            final(self).dismissed_categories == old(self).dismissed_categories,
            final(self).query_count == old(self).query_count,
            final(self).recent_queries == old(self).recent_queries,
            final(self).session_start_secs == old(self).session_start_secs,
            final(self).last_save_secs == old(self).last_save_secs,
    {
        if !is_stop_word(word) {
            self.bump_topic(String::from_str(word));
        }
    }

    /// Records a user query: counts it, remembers it among the last ten,
    /// counts its keywords, and keeps the fifty most frequent topics.
    pub fn record_query(&mut self, query: &str)
        requires
            old(self).wf(),
        ensures
            final(self).counts() == trimmed(
                with_keywords(old(self).counts(), keywords(query@)),
                MAX_TOPICS as nat,
            ),
            final(self).wf(),
            final(self).topics@.len() <= MAX_TOPICS,
            final(self).query_count == (if old(self).query_count < u32::MAX {
                (old(self).query_count + 1) as u32
            } else {
                u32::MAX
            }),
            texts_of(final(self).recent_queries@) == with_query(
                texts_of(old(self).recent_queries@),
                query@,
            ),
            final(self).dismissed_categories == old(self).dismissed_categories,
            final(self).session_start_secs == old(self).session_start_secs,
            final(self).last_save_secs == old(self).last_save_secs,
    {
        if self.query_count < u32::MAX {
            self.query_count = self.query_count + 1;
        }
        let ghost recent = texts_of(self.recent_queries@);
        self.recent_queries.push(String::from_str(query));
        assert(texts_of(self.recent_queries@) =~= recent.push(query@));
        if self.recent_queries.len() > MAX_RECENT_QUERIES {
            self.recent_queries.remove(0);
            assert(texts_of(self.recent_queries@) =~= recent.push(query@).drop_first());
        }
        let ghost remembered = self.recent_queries;
        let ghost counted = self.query_count;

        let n: usize = query.unicode_len();
        let mut flags: Vec<bool> = Vec::with_capacity(n);
        let mut i: usize = 0;
        while i < n
            invariant
                n == query@.len(),
                i <= n,
                flags@.len() == i,
                forall|k: int| 0 <= k < i ==> flags@[k] == alphanumeric(query@[k]),
            decreases n - i,
        {
            flags.push(is_alphanumeric(query.get_char(i)));
            i = i + 1;
        }
        assert(flags@ =~= classes(query@));
        let spans = word_spans(flags.as_slice());
        let ghost marks = spans_of(spans@);

        let count: usize = spans.len();
        let mut k: usize = 0;
        assert(marks.subrange(0, 0) =~= Seq::<(int, int)>::empty());
        while k < count
            invariant
                count == spans@.len(),
                marks == spans_of(spans@),
                n == query@.len(),
                k <= count,
                forall|j: int|
                    0 <= j < spans@.len() ==> (#[trigger] spans@[j]).0 < spans@[j].1 <= n,
                self.wf(),
                self.counts() == with_keywords(
                    old(self).counts(),
                    keywords_in(query@, marks.subrange(0, k as int)),
                ),
                self.recent_queries == remembered,
                self.query_count == counted,
                self.dismissed_categories == old(self).dismissed_categories,
                self.session_start_secs == old(self).session_start_secs,
                self.last_save_secs == old(self).last_save_secs,
            decreases count - k,
        {
            let span = spans[k];
            let ghost done = marks.subrange(0, k as int);
            let ghost next = marks.subrange(0, k as int + 1);
            assert(next.drop_last() =~= done);
            assert(next.last() == (span.0 as int, span.1 as int));
            let word: &str = query.substring_char(span.0, span.1);
            if word.as_bytes().len() > 2 {
                let lower = to_lowercase(word);
                let ghost sofar = keywords_in(query@, done);
                assert(keywords_in(query@, next) == sofar.push(lower@));
                assert(sofar.push(lower@).drop_last() =~= sofar);
                self.record_keyword(lower.as_str());
            }
            k = k + 1;
        }
        assert(marks.subrange(0, count as int) =~= marks);
        self.trim_topics();
    }
}

} // verus!
