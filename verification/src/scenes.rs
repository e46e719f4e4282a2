//! The scenes of first boot as state machines: the splash that fades in,
//! and the wizard that asks for a name and for interests.
//!
//! What a scene turns into when it is done is for the program to say; the
//! machines only tell when they are done.

use vstd::prelude::*;
use vstd::string::*;
use vstd::utf8::encode_utf8;
use crate::input::InputEvent;
use crate::text_input::{lemma_boundary_splits, TextInputState};

verus! {

/// How long the splash stays, in milliseconds.
pub const SPLASH_MS: u32 = 2500;

/// How long the splash takes to fade in, in milliseconds.
pub const FADE_IN_MS: u32 = 1000;

/// When the second line of the splash starts to fade in.
pub const SUBTITLE_DELAY_MS: u32 = 500;

/// How long the wizard's last step takes, in milliseconds.
pub const FINISH_MS: u32 = 3000;

/// How many interests the wizard offers.
pub const INTEREST_COUNT: usize = 10;

/// How many interests stand in a row.
pub const INTERESTS_PER_ROW: usize = 5;

/// Longest name the wizard takes, in bytes, before the last character.
pub const NAME_LIMIT: usize = 32;

/// The boot splash.
#[derive(Clone, Copy, Debug, PartialEq, Eq, Structural)]
pub struct BootSplash {
    pub elapsed_ms: u32,
}

/// The opacity, from 0 to 255, of something that fades in over a second
/// from `delay_ms` on.
pub open spec fn fade_in_spec(elapsed_ms: u32, delay_ms: u32) -> int {
    if elapsed_ms <= delay_ms {
        0
    } else if elapsed_ms - delay_ms >= FADE_IN_MS {
        255
    } else {
        (elapsed_ms - delay_ms) * 255 / (FADE_IN_MS as int)
    }
}

impl BootSplash {
    pub fn new() -> (s: BootSplash)
        ensures
            s.elapsed_ms == 0,
    {
        BootSplash { elapsed_ms: 0 }
    }

    /// The splash has stayed long enough.
    pub open spec fn done(self) -> bool {
        self.elapsed_ms >= SPLASH_MS
    }

    /// Lets `dt_ms` milliseconds pass. Returns whether the splash is over.
    pub fn update(&mut self, dt_ms: u32) -> (over: bool)
        ensures
            final(self).elapsed_ms == (if old(self).elapsed_ms + dt_ms > u32::MAX {
                u32::MAX as int
            } else {
                old(self).elapsed_ms + dt_ms
            }),
            over == final(self).done(),
    {
        self.elapsed_ms = self.elapsed_ms.saturating_add(dt_ms);
        self.elapsed_ms >= SPLASH_MS
    }

    /// Any input skips the splash: the next update ends it.
    pub fn handle_input(&mut self, event: InputEvent)
        ensures
            final(self).elapsed_ms == SPLASH_MS,
            final(self).done(),
    {
        self.elapsed_ms = SPLASH_MS;
    }

    /// Opacity of the title.
    pub fn title_alpha(&self) -> (alpha: u8)
        ensures
            alpha == fade_in_spec(self.elapsed_ms, 0),
    {
        fade_in(self.elapsed_ms, 0)
    }

    /// Opacity of the line under the title, which comes in half a second
    /// later.
    pub fn subtitle_alpha(&self) -> (alpha: u8)
        ensures
            alpha == fade_in_spec(self.elapsed_ms, SUBTITLE_DELAY_MS),
    {
        fade_in(self.elapsed_ms, SUBTITLE_DELAY_MS)
    }
}

/// The opacity of something that fades in over a second from `delay_ms` on.
pub fn fade_in(elapsed_ms: u32, delay_ms: u32) -> (alpha: u8)
    ensures
        alpha == fade_in_spec(elapsed_ms, delay_ms),
{
    if elapsed_ms <= delay_ms {
        0
    } else if elapsed_ms - delay_ms >= FADE_IN_MS {
        255
    } else {
        let since: u32 = elapsed_ms - delay_ms;
        (since * 255 / FADE_IN_MS) as u8
    }
}

/// The steps of the wizard.
#[derive(Clone, Copy, Debug, PartialEq, Eq, Structural)]
pub enum Step {
    Name,
    Interests,
    Finishing,
}

/// The setup wizard: a name, then interests, then a moment of waiting.
pub struct SetupWizard {
    step: Step,
    name: TextInputState,
    selected_interests: Vec<bool>,
    interest_cursor: usize,
    finish_elapsed_ms: u32,
}

/// The name of interest number `i`.
pub open spec fn interest_spec(i: int) -> Seq<char> {
    if i == 0 {
        "Technology"@
    } else if i == 1 {
        "Weather"@
    } else if i == 2 {
        "Science"@
    } else if i == 3 {
        "Programming"@
    } else if i == 4 {
        "News"@
    } else if i == 5 {
        "Finance"@
    } else if i == 6 {
        "Music"@
    } else if i == 7 {
        "Space"@
    } else if i == 8 {
        "AI"@
    } else {
        "Health"@
    }
}

/// The name of one of the interests on offer.
pub fn interest_name(i: usize) -> (name: &'static str)
    requires
        i < INTEREST_COUNT,
    ensures
        name@ == interest_spec(i as int),
{
    match i {
        0 => "Technology",
        1 => "Weather",
        2 => "Science",
        3 => "Programming",
        4 => "News",
        5 => "Finance",
        6 => "Music",
        7 => "Space",
        8 => "AI",
        _ => "Health",
    }
}

/// The indices of the set flags, in rising order.
pub open spec fn chosen_of(flags: Seq<bool>) -> Seq<int>
    decreases flags.len(),
{
    if flags.len() == 0 {
        Seq::empty()
    } else if flags.last() {
        chosen_of(flags.drop_last()).push(flags.len() - 1)
    } else {
        chosen_of(flags.drop_last())
    }
}

/// Some flag is set.
pub open spec fn any_set(flags: Seq<bool>) -> bool {
    exists|i: int| 0 <= i < flags.len() && #[trigger] flags[i]
}

/// The cursor among the interests after a key: left and right by one, up
/// and down by a row, never off the grid.
pub open spec fn cursor_after(cursor: int, event: InputEvent) -> int {
    match event {
        InputEvent::Left => if cursor > 0 {
            cursor - 1
        } else {
            cursor
        },
        InputEvent::Right => if cursor < INTEREST_COUNT - 1 {
            cursor + 1
        } else {
            cursor
        },
        InputEvent::Up => if cursor >= INTERESTS_PER_ROW {
            cursor - INTERESTS_PER_ROW
        } else {
            cursor
        },
        InputEvent::Down => if cursor + INTERESTS_PER_ROW < INTEREST_COUNT {
            cursor + INTERESTS_PER_ROW
        } else {
            cursor
        },
        _ => cursor,
    }
}

impl SetupWizard {
    /// The step the wizard is at.
    pub closed spec fn step(&self) -> Step {
        self.step
    }

    /// The name typed so far.
    pub closed spec fn name(&self) -> Seq<char> {
        self.name.text@
    }

    /// The characters of the name before the cursor.
    pub closed spec fn before_cursor(&self) -> Seq<char> {
        self.name.before_cursor()
    }

    /// The characters of the name behind the cursor.
    pub closed spec fn after_cursor(&self) -> Seq<char> {
        self.name.after_cursor()
    }

    /// Which interests are chosen.
    pub closed spec fn selected(&self) -> Seq<bool> {
        self.selected_interests@
    }

    /// The interest that the cursor stands on.
    pub closed spec fn interest_cursor(&self) -> usize {
        self.interest_cursor
    }

    /// How long the last step has lasted.
    pub closed spec fn finish_elapsed_ms(&self) -> u32 {
        self.finish_elapsed_ms
    }

    /// The cursor of the name lies on a character boundary, there is a flag
    /// for each interest, and the cursor among them stands on one.
    pub closed spec fn wf(&self) -> bool {
        &&& self.name.wf()
        &&& self.name.text@ == self.name.before_cursor() + self.name.after_cursor()
        &&& self.selected_interests@.len() == INTEREST_COUNT
        &&& self.interest_cursor < INTEREST_COUNT
    }

    /// The wizard is through: the last step has lasted its time.
    pub open spec fn done(&self) -> bool {
        self.step() == Step::Finishing && self.finish_elapsed_ms() >= FINISH_MS
    }

    /// A wizard at its first step, with no name and nothing chosen.
    pub fn new() -> (w: SetupWizard)
        ensures
            w.wf(),
            w.step() == Step::Name,
            w.name().len() == 0,
            w.selected() == Seq::new(INTEREST_COUNT as nat, |i: int| false),
            w.interest_cursor() == 0,
            w.finish_elapsed_ms() == 0,
    {
        let name = TextInputState::new("");
        proof {
            lemma_boundary_splits(name.text@, 0);
        }
        let selected_interests: Vec<bool> = vec![false; INTEREST_COUNT];
        assert(selected_interests@ =~= Seq::new(INTEREST_COUNT as nat, |i: int| false));
        SetupWizard {
            step: Step::Name,
            name,
            selected_interests,
            interest_cursor: 0,
            finish_elapsed_ms: 0,
        }
    }

    /// The step the wizard is at.
    pub fn current_step(&self) -> (step: Step)
        ensures
            step == self.step(),
    {
        self.step
    }

    /// The name typed so far.
    pub fn typed_name(&self) -> (name: &str)
        ensures
            name@ == self.name(),
    {
        self.name.text.as_str()
    }

    /// The interest that the cursor stands on.
    pub fn cursor(&self) -> (i: usize)
        ensures
            i == self.interest_cursor(),
    {
        self.interest_cursor
    }

    /// The byte offset of the cursor in the name.
    pub fn name_cursor(&self) -> (at: usize)
        requires
            self.wf(),
        ensures
            at == encode_utf8(self.before_cursor()).len(),
            at <= encode_utf8(self.name()).len(),
    {
        proof {
            lemma_boundary_splits(self.name.text@, self.name.cursor as int);
        }
        self.name.cursor
    }

    /// How long the last step has lasted, in milliseconds.
    pub fn finish_elapsed(&self) -> (ms: u32)
        ensures
            ms == self.finish_elapsed_ms(),
    {
        self.finish_elapsed_ms
    }

    /// Whether interest `i` is chosen.
    pub fn is_selected(&self, i: usize) -> (chosen: bool)
        requires
            self.wf(),
            i < INTEREST_COUNT,
        ensures
            chosen == self.selected()[i as int],
    {
        self.selected_interests[i]
    }

    /// The names of the chosen interests, in the order they are offered.
    pub fn chosen_interests(&self) -> (names: Vec<&'static str>)
        requires
            self.wf(),
        ensures
            names@.len() == chosen_of(self.selected()).len(),
            forall|k: int|
                0 <= k < names@.len() ==> (#[trigger] names@[k])@ == interest_spec(
                    chosen_of(self.selected())[k],
                ),
    {
        let mut names: Vec<&'static str> = Vec::new();
        let mut i: usize = 0;
        assert(self.selected_interests@.subrange(0, 0) =~= Seq::<bool>::empty());
        while i < INTEREST_COUNT
            invariant
                self.selected_interests@.len() == INTEREST_COUNT,
                i <= INTEREST_COUNT,
                names@.len() == chosen_of(self.selected_interests@.subrange(0, i as int)).len(),
                forall|k: int|
                    0 <= k < names@.len() ==> (#[trigger] names@[k])@ == interest_spec(
                        chosen_of(self.selected_interests@.subrange(0, i as int))[k],
                    ),
            decreases INTEREST_COUNT - i,
        {
            let ghost next = self.selected_interests@.subrange(0, i as int + 1);
            assert(next.drop_last() =~= self.selected_interests@.subrange(0, i as int));
            assert(next.last() == self.selected_interests@[i as int]);
            if self.selected_interests[i] {
                names.push(interest_name(i));
            }
            i = i + 1;
        }
        assert(self.selected_interests@.subrange(0, INTEREST_COUNT as int)
            =~= self.selected_interests@);
        names
    }

    fn any_selected(&self) -> (any: bool)
        ensures
            any == any_set(self.selected_interests@),
    {
        let n: usize = self.selected_interests.len();
        let mut i: usize = 0;
        while i < n
            invariant
                n == self.selected_interests@.len(),
                i <= n,
                forall|k: int| 0 <= k < i ==> !self.selected_interests@[k],
            decreases n - i,
        {
            if self.selected_interests[i] {
                return true;
            }
            i = i + 1;
        }
        false
    }

    /// Lets `dt_ms` milliseconds pass. Time counts at the last step only.
    /// Returns whether the wizard is through.
    pub fn update(&mut self, dt_ms: u32) -> (through: bool)
        requires
            old(self).wf(),
        ensures
            final(self).wf(),
            through == final(self).done(),
            final(self).step() == old(self).step(),
            final(self).name() == old(self).name(),
            final(self).selected() == old(self).selected(),
            final(self).interest_cursor() == old(self).interest_cursor(),
            final(self).finish_elapsed_ms() == (if old(self).step() != Step::Finishing {
                old(self).finish_elapsed_ms() as int
            } else if old(self).finish_elapsed_ms() + dt_ms > u32::MAX {
                u32::MAX as int
            } else {
                old(self).finish_elapsed_ms() + dt_ms
            }),
    {
        match self.step {
            Step::Finishing => {
                self.finish_elapsed_ms = self.finish_elapsed_ms.saturating_add(dt_ms);
                self.finish_elapsed_ms >= FINISH_MS
            },
            _ => false,
        }
    }

    /// Nothing but the name has changed between `self` and `after`.
    pub open spec fn same_but_name(&self, after: SetupWizard) -> bool {
        &&& after.step() == self.step()
        &&& after.selected() == self.selected()
        &&& after.interest_cursor() == self.interest_cursor()
        &&& after.finish_elapsed_ms() == self.finish_elapsed_ms()
    }

    /// Nothing has changed in the name between `self` and `after`.
    pub open spec fn same_name(&self, after: SetupWizard) -> bool {
        &&& after.name() == self.name()
        &&& after.before_cursor() == self.before_cursor()
        &&& after.after_cursor() == self.after_cursor()
        &&& after.finish_elapsed_ms() == self.finish_elapsed_ms()
    }

    /// What an event makes of the wizard.
    ///
    /// At the name: characters go in at the cursor while the name is under
    /// 32 bytes, backspace, left and right edit and move, and enter or tab
    /// go on to the interests once there is a name. At the interests: the
    /// arrows move over the grid, enter or space choose and unchoose, tab
    /// goes on once something is chosen, and escape goes back to the name.
    /// At the last step nothing is taken.
    pub open spec fn handled(&self, event: InputEvent, after: SetupWizard) -> bool {
        let before = self.before_cursor();
        let behind = self.after_cursor();
        match self.step() {
            Step::Name => match event {
                InputEvent::Char(ch) => self.same_but_name(after) && (if encode_utf8(
                    self.name(),
                ).len() < NAME_LIMIT {
                    after.before_cursor() == before.push(ch) && after.after_cursor() == behind
                } else {
                    after.before_cursor() == before && after.after_cursor() == behind
                }),
                InputEvent::Backspace => self.same_but_name(after) && after.after_cursor()
                    == behind && after.before_cursor() == (if before.len() > 0 {
                    before.drop_last()
                } else {
                    before
                }),
                InputEvent::Left => self.same_but_name(after) && (if before.len() > 0 {
                    after.before_cursor() == before.drop_last() && after.after_cursor() == seq![
                        before.last(),
                    ] + behind
                } else {
                    after.before_cursor() == before && after.after_cursor() == behind
                }),
                InputEvent::Right => self.same_but_name(after) && (if behind.len() > 0 {
                    after.before_cursor() == before.push(behind[0]) && after.after_cursor()
                        == behind.drop_first()
                } else {
                    after.before_cursor() == before && after.after_cursor() == behind
                }),
                InputEvent::Enter | InputEvent::Tab => {
                    &&& self.same_name(after)
                    &&& after.selected() == self.selected()
                    &&& after.interest_cursor() == self.interest_cursor()
                    &&& after.step() == (if self.name().len() > 0 {
                        Step::Interests
                    } else {
                        Step::Name
                    })
                },
                _ => self.same_but_name(after) && self.same_name(after),
            },
            Step::Interests => {
                &&& self.same_name(after)
                &&& after.interest_cursor() == cursor_after(self.interest_cursor() as int, event)
                &&& after.selected() == (if event == InputEvent::Enter || event
                    == InputEvent::Char(' ') {
                    self.selected().update(
                        self.interest_cursor() as int,
                        !self.selected()[self.interest_cursor() as int],
                    )
                } else {
                    self.selected()
                })
                &&& after.step() == (if event == InputEvent::Tab && any_set(self.selected()) {
                    Step::Finishing
                } else if event == InputEvent::Escape {
                    Step::Name
                } else {
                    Step::Interests
                })
            },
            Step::Finishing => self.same_but_name(after) && self.same_name(after),
        }
    }

    /// Handles an input event.
    pub fn handle_input(&mut self, event: InputEvent)
        requires
            old(self).wf(),
        ensures
            final(self).wf(),
            old(self).handled(event, *final(self)),
    {
        proof {
            lemma_boundary_splits(self.name.text@, self.name.cursor as int);
        }
        match self.step {
            Step::Name => {
                match event {
                    InputEvent::Char(ch) => {
                        if self.name.text.as_str().as_bytes().len() < NAME_LIMIT {
                            self.name.insert_char(ch);
                        }
                    },
                    InputEvent::Backspace => {
                        self.name.backspace();
                    },
                    InputEvent::Enter => {
                        if !self.name.text.as_str().is_empty() {
                            self.step = Step::Interests;
                        }
                    },
                    InputEvent::Tab => {
                        if !self.name.text.as_str().is_empty() {
                            self.step = Step::Interests;
                        }
                    },
                    InputEvent::Left => {
                        self.name.move_left();
                    },
                    InputEvent::Right => {
                        self.name.move_right();
                    },
                    _ => {},
                }
                proof {
                    lemma_boundary_splits(self.name.text@, self.name.cursor as int);
                }
            },
            Step::Interests => {
                match event {
                    InputEvent::Left => {
                        if self.interest_cursor > 0 {
                            self.interest_cursor = self.interest_cursor - 1;
                        }
                    },
                    InputEvent::Right => {
                        if self.interest_cursor < INTEREST_COUNT - 1 {
                            self.interest_cursor = self.interest_cursor + 1;
                        }
                    },
                    InputEvent::Up => {
                        if self.interest_cursor >= INTERESTS_PER_ROW {
                            self.interest_cursor = self.interest_cursor - INTERESTS_PER_ROW;
                        }
                    },
                    InputEvent::Down => {
                        if self.interest_cursor + INTERESTS_PER_ROW < INTEREST_COUNT {
                            self.interest_cursor = self.interest_cursor + INTERESTS_PER_ROW;
                        }
                    },
                    InputEvent::Enter => {
                        self.toggle();
                    },
                    InputEvent::Char(c) => {
                        if c == ' ' {
                            self.toggle();
                        }
                    },
                    InputEvent::Tab => {
                        if self.any_selected() {
                            self.step = Step::Finishing;
                        }
                    },
                    InputEvent::Escape => {
                        self.step = Step::Name;
                    },
                    _ => {},
                }
            },
            Step::Finishing => {},
        }
    }

    fn toggle(&mut self)
        requires
            old(self).wf(),
        ensures
            final(self).wf(),
            final(self).selected_interests@ == old(self).selected_interests@.update(
                old(self).interest_cursor as int,
                !old(self).selected_interests@[old(self).interest_cursor as int],
            ),
            final(self).step == old(self).step,
            final(self).name == old(self).name,
            final(self).interest_cursor == old(self).interest_cursor,
            final(self).finish_elapsed_ms == old(self).finish_elapsed_ms,
    {
        let at: usize = self.interest_cursor;
        let was: bool = self.selected_interests[at];
        self.selected_interests[at] = !was;
    }
}

/// Milliseconds between two telemetry readings on the dashboard.
pub const TELEMETRY_INTERVAL_MS: u64 = 5000;

/// Milliseconds between two refreshes of the dashboard from the brain.
pub const DASHBOARD_REFRESH_MS: u64 = 120000;

/// What the dashboard wants fetched.
#[derive(Clone, Copy, Debug, PartialEq, Eq, Structural)]
pub struct DashboardWork {
    /// A telemetry reading is due.
    pub telemetry: bool,
    /// A refresh from the brain is due.
    pub refresh: bool,
}

/// The dashboard: a greeting, cards to pick from, and the omnibar.
pub struct Dashboard {
    greeting: String,
    subtitle: String,
    card_count: usize,
    selected_card: usize,
    omnibar: TextInputState,
    response_text: Option<String>,
    loading: bool,
    elapsed_ms: u64,
    last_telemetry_ms: u64,
    last_refresh_ms: u64,
}

/// The part of the day that a greeting names: morning before noon,
/// afternoon before five, evening from then on.
pub open spec fn day_part_spec(hour: u32) -> Seq<char> {
    if hour < 12 {
        "morning"@
    } else if hour < 17 {
        "afternoon"@
    } else {
        "evening"@
    }
}

/// The greeting for a user at an hour of the day.
pub open spec fn greeting_spec(hour: u32, name: Seq<char>) -> Seq<char> {
    "Good "@ + day_part_spec(hour) + ", "@ + name + "."@
}

/// The greeting for a user at an hour of the day.
pub fn greeting_for(hour: u32, name: &str) -> (greeting: String)
    ensures
        greeting@ == greeting_spec(hour, name@),
{
    let mut greeting = String::from_str("Good ");
    if hour < 12 {
        greeting.append("morning");
    } else if hour < 17 {
        greeting.append("afternoon");
    } else {
        greeting.append("evening");
    }
    greeting.append(", ");
    greeting.append(name);
    greeting.append(".");
    greeting
}

/// The time after `dt_ms` more milliseconds, as far as the counter goes.
pub open spec fn later(elapsed_ms: u64, dt_ms: u32) -> u64 {
    if elapsed_ms + dt_ms > u64::MAX {
        u64::MAX
    } else {
        (elapsed_ms + dt_ms) as u64
    }
}

/// The text of an optional string.
pub open spec fn shown_text(text: Option<String>) -> Option<Seq<char>> {
    match text {
        Some(t) => Some(t@),
        None => None,
    }
}

impl Dashboard {
    pub closed spec fn greeting(&self) -> Seq<char> {
        self.greeting@
    }

    pub closed spec fn subtitle(&self) -> Seq<char> {
        self.subtitle@
    }

    /// How many cards are shown.
    pub closed spec fn card_count(&self) -> usize {
        self.card_count
    }

    /// The card that is picked.
    pub closed spec fn selected_card(&self) -> usize {
        self.selected_card
    }

    /// The text in the omnibar.
    pub closed spec fn query(&self) -> Seq<char> {
        self.omnibar.text@
    }

    /// The characters of the query before the cursor.
    pub closed spec fn before_cursor(&self) -> Seq<char> {
        self.omnibar.before_cursor()
    }

    /// The characters of the query behind the cursor.
    pub closed spec fn after_cursor(&self) -> Seq<char> {
        self.omnibar.after_cursor()
    }

    /// The answer on show, if any.
    pub closed spec fn response(&self) -> Option<Seq<char>> {
        shown_text(self.response_text)
    }

    /// An answer is being waited for.
    pub closed spec fn loading(&self) -> bool {
        self.loading
    }

    pub closed spec fn elapsed_ms(&self) -> u64 {
        self.elapsed_ms
    }

    /// When telemetry was read last.
    pub closed spec fn last_telemetry_ms(&self) -> u64 {
        self.last_telemetry_ms
    }

    /// When the dashboard was refreshed last.
    pub closed spec fn last_refresh_ms(&self) -> u64 {
        self.last_refresh_ms
    }

    /// The cursor of the omnibar lies on a character boundary.
    pub closed spec fn wf(&self) -> bool {
        self.omnibar.wf() && self.omnibar.text@ == self.omnibar.before_cursor()
            + self.omnibar.after_cursor()
    }

    /// The dashboard for a user at an hour of the day, with `card_count`
    /// cards to start with.
    pub fn new(hour: u32, user_name: &str, card_count: usize) -> (d: Dashboard)
        ensures
            d.wf(),
            d.greeting() == greeting_spec(hour, user_name@),
            d.subtitle() == "Here's what I found for you today."@,
            d.card_count() == card_count,
            d.selected_card() == 0,
            d.query().len() == 0,
            d.response() is None,
            !d.loading(),
            d.elapsed_ms() == 0,
            d.last_telemetry_ms() == 0,
            d.last_refresh_ms() == 0,
    {
        let omnibar = TextInputState::new("Ask me anything...");
        proof {
            lemma_boundary_splits(omnibar.text@, 0);
        }
        Dashboard {
            greeting: greeting_for(hour, user_name),
            subtitle: String::from_str("Here's what I found for you today."),
            card_count,
            selected_card: 0,
            omnibar,
            response_text: None,
            loading: false,
            elapsed_ms: 0,
            last_telemetry_ms: 0,
            last_refresh_ms: 0,
        }
    }

    /// The greeting.
    pub fn greeting_text(&self) -> (text: &str)
        ensures
            text@ == self.greeting(),
    {
        self.greeting.as_str()
    }

    /// The line under the greeting.
    pub fn subtitle_text(&self) -> (text: &str)
        ensures
            text@ == self.subtitle(),
    {
        self.subtitle.as_str()
    }

    /// Whether an answer is being waited for.
    pub fn is_loading(&self) -> (loading: bool)
        ensures
            loading == self.loading(),
    {
        self.loading
    }

    /// The omnibar, to draw it.
    pub fn omnibar(&self) -> (bar: &TextInputState)
        ensures
            bar.text@ == self.query(),
            bar.before_cursor() == self.before_cursor(),
            bar.after_cursor() == self.after_cursor(),
            self.wf() ==> bar.wf(),
    {
        &self.omnibar
    }

    /// The index of the card that is picked.
    pub fn picked_card(&self) -> (i: usize)
        ensures
            i == self.selected_card(),
    {
        self.selected_card
    }

    /// The text in the omnibar.
    pub fn query_text(&self) -> (text: &str)
        ensures
            text@ == self.query(),
    {
        self.omnibar.text.as_str()
    }

    /// The answer on show, if any.
    pub fn response_text(&self) -> (text: Option<&String>)
        ensures
            text is Some <==> self.response() is Some,
            text matches Some(t) ==> Some(t@) == self.response(),
    {
        self.response_text.as_ref()
    }

    /// Lets `dt_ms` milliseconds pass, and says what is due: a telemetry
    /// reading every five seconds, a refresh from the brain every two
    /// minutes. What is due is taken down as done now.
    pub fn update(&mut self, dt_ms: u32) -> (work: DashboardWork)
        requires
            old(self).wf(),
        ensures
            final(self).wf(),
            final(self).elapsed_ms() == later(old(self).elapsed_ms(), dt_ms),
            work.telemetry == (final(self).elapsed_ms() >= old(self).last_telemetry_ms() && final(self).elapsed_ms() - old(self).last_telemetry_ms() >= TELEMETRY_INTERVAL_MS),
            work.refresh == (final(self).elapsed_ms() >= old(self).last_refresh_ms() && final(self).elapsed_ms() - old(self).last_refresh_ms() >= DASHBOARD_REFRESH_MS),
            final(self).last_telemetry_ms() == (if work.telemetry {
                final(self).elapsed_ms()
            } else {
                old(self).last_telemetry_ms()
            }),
            final(self).last_refresh_ms() == (if work.refresh {
                final(self).elapsed_ms()
            } else {
                old(self).last_refresh_ms()
            }),
            final(self).query() == old(self).query(),
            final(self).response() == old(self).response(),
            final(self).selected_card() == old(self).selected_card(),
            final(self).card_count() == old(self).card_count(),
            final(self).greeting() == old(self).greeting(),
            final(self).subtitle() == old(self).subtitle(),
            final(self).loading() == old(self).loading(),
    {
        self.elapsed_ms = self.elapsed_ms.saturating_add(dt_ms as u64);
        let telemetry = self.elapsed_ms >= self.last_telemetry_ms && self.elapsed_ms
            - self.last_telemetry_ms >= TELEMETRY_INTERVAL_MS;
        if telemetry {
            self.last_telemetry_ms = self.elapsed_ms;
        }
        let refresh = self.elapsed_ms >= self.last_refresh_ms && self.elapsed_ms
            - self.last_refresh_ms >= DASHBOARD_REFRESH_MS;
        if refresh {
            self.last_refresh_ms = self.elapsed_ms;
        }
        DashboardWork { telemetry, refresh }
    }

    /// Takes in what a refresh from the brain brought: a greeting and a
    /// subtitle replace the old ones unless they are empty, and so do the
    /// cards unless there are none.
    pub fn apply_refresh(&mut self, greeting: String, subtitle: String, card_count: usize)
        ensures
            final(self).greeting() == (if greeting@.len() > 0 {
                greeting@
            } else {
                old(self).greeting()
            }),
            final(self).subtitle() == (if subtitle@.len() > 0 {
                subtitle@
            } else {
                old(self).subtitle()
            }),
            final(self).card_count() == (if card_count > 0 {
                card_count
            } else {
                old(self).card_count()
            }),
            final(self).selected_card() == old(self).selected_card(),
            final(self).query() == old(self).query(),
            final(self).response() == old(self).response(),
            old(self).wf() ==> final(self).wf(),
    {
        if !greeting.as_str().is_empty() {
            self.greeting = greeting;
        }
        if !subtitle.as_str().is_empty() {
            self.subtitle = subtitle;
        }
        if card_count > 0 {
            self.card_count = card_count;
        }
    }

    /// Puts the answer to a query on show.
    pub fn show_response(&mut self, text: String)
        ensures
            final(self).response() == Some(text@),
            !final(self).loading(),
            final(self).query() == old(self).query(),
            final(self).selected_card() == old(self).selected_card(),
            final(self).card_count() == old(self).card_count(),
            old(self).wf() ==> final(self).wf(),
    {
        self.response_text = Some(text);
        self.loading = false;
    }

    /// Puts the failure of a query on show.
    pub fn show_error(&mut self, error: &str)
        ensures
            final(self).response() == Some("Error: "@ + error@),
            !final(self).loading(),
            final(self).query() == old(self).query(),
            final(self).selected_card() == old(self).selected_card(),
            final(self).card_count() == old(self).card_count(),
            old(self).wf() ==> final(self).wf(),
    {
        let mut text = String::from_str("Error: ");
        text.append(error);
        self.response_text = Some(text);
        self.loading = false;
    }

    /// What an event makes of the dashboard.
    ///
    /// Characters and backspace edit the query, left and right move its
    /// cursor, up and down pick a card; a character, tab and escape take
    /// the answer off show; enter hands the query out, if there is one, and
    /// empties the omnibar.
    pub open spec fn handled(&self, event: InputEvent, after: Dashboard) -> bool {
        let before = self.before_cursor();
        let behind = self.after_cursor();
        &&& after.greeting() == self.greeting()
        &&& after.subtitle() == self.subtitle()
        &&& after.card_count() == self.card_count()
        &&& after.elapsed_ms() == self.elapsed_ms()
        &&& after.last_telemetry_ms() == self.last_telemetry_ms()
        &&& after.last_refresh_ms() == self.last_refresh_ms()
        &&& after.selected_card() == (match event {
            InputEvent::Up => if self.selected_card() > 0 {
                (self.selected_card() - 1) as usize
            } else {
                self.selected_card()
            },
            InputEvent::Down => if self.selected_card() + 1 < self.card_count() {
                (self.selected_card() + 1) as usize
            } else {
                self.selected_card()
            },
            _ => self.selected_card(),
        })
        &&& after.response() == (match event {
            InputEvent::Char(_) => None,
            InputEvent::Tab => None,
            InputEvent::Escape => None,
            _ => self.response(),
        })
        &&& after.loading() == (if event == InputEvent::Enter && self.query().len() > 0 {
            true
        } else {
            self.loading()
        })
        &&& match event {
            InputEvent::Char(ch) => after.before_cursor() == before.push(ch) && after.after_cursor()
                == behind,
            InputEvent::Backspace => after.after_cursor() == behind && after.before_cursor() == (
            if before.len() > 0 {
                before.drop_last()
            } else {
                before
            }),
            InputEvent::Left => if before.len() > 0 {
                after.before_cursor() == before.drop_last() && after.after_cursor() == seq![
                    before.last(),
                ] + behind
            } else {
                after.before_cursor() == before && after.after_cursor() == behind
            },
            InputEvent::Right => if behind.len() > 0 {
                after.before_cursor() == before.push(behind[0]) && after.after_cursor()
                    == behind.drop_first()
            } else {
                after.before_cursor() == before && after.after_cursor() == behind
            },
            InputEvent::Enter => after.query().len() == 0,
            _ => after.before_cursor() == before && after.after_cursor() == behind,
        }
    }

    /// Handles an input event. Returns the query to put to the brain,
    /// where the event is enter and the omnibar holds one.
    pub fn handle_input(&mut self, event: InputEvent) -> (submit: Option<String>)
        requires
            old(self).wf(),
        ensures
            final(self).wf(),
            old(self).handled(event, *final(self)),
            submit is Some <==> event == InputEvent::Enter && old(self).query().len() > 0,
            submit matches Some(q) ==> q@ == old(self).query(),
    {
        proof {
            lemma_boundary_splits(self.omnibar.text@, self.omnibar.cursor as int);
        }
        let mut submit: Option<String> = None;
        match event {
            InputEvent::Char(ch) => {
                self.omnibar.insert_char(ch);
                self.response_text = None;
            },
            InputEvent::Backspace => {
                self.omnibar.backspace();
            },
            InputEvent::Enter => {
                let query = self.omnibar.take_text();
                if !query.as_str().is_empty() {
                    self.loading = true;
                    submit = Some(query);
                }
            },
            InputEvent::Left => {
                self.omnibar.move_left();
            },
            InputEvent::Right => {
                self.omnibar.move_right();
            },
            InputEvent::Up => {
                if self.selected_card > 0 {
                    self.selected_card = self.selected_card - 1;
                }
            },
            InputEvent::Down => {
                if self.card_count > 0 && self.selected_card < self.card_count - 1 {
                    self.selected_card = self.selected_card + 1;
                }
            },
            InputEvent::Tab => {
                self.response_text = None;
            },
            InputEvent::Escape => {
                self.response_text = None;
            },
            _ => {},
        }
        proof {
            lemma_boundary_splits(self.omnibar.text@, self.omnibar.cursor as int);
        }
        submit
    }
}

} // verus!
