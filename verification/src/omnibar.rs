//! The omni-bar: one line of input that offers what can be done with it.

use vstd::prelude::*;
use vstd::string::*;
use vstd::utf8::{encode_utf8, encode_utf8_valid_utf8, is_char_boundary_start_end_of_seq};
use crate::keys::Key;
use crate::text::{has_prefix, is_control, is_control_spec, lowercase, same_text, to_lowercase};
use crate::text_input::{lemma_boundary_splits, TextInputState};

verus! {

/// What happens when a result is selected.
pub enum OmniAction {
    OpenFacet { name: String },
    Execute { command: String },
    Navigate { path: String },
    Search { query: String },
}

/// Search/command result.
pub struct OmniResult {
    pub title: String,
    pub subtitle: Option<String>,
    pub icon: Option<String>,
    pub action: OmniAction,
}

/// The results that the bar knows how to offer.
#[derive(Clone, Copy, Debug, PartialEq, Eq, Structural)]
pub enum ResultKind {
    Terminal,
    Write,
    Files,
    Settings,
    Quit,
    Search,
}

/// An action as plain values: 0 opens a facet, 1 executes a command, 2
/// navigates to a path, 3 searches; and the name, command, path or query.
pub type ActionView = (int, Seq<char>);

/// A result as plain values: title, subtitle, icon and action.
pub type ResultView = (Seq<char>, Option<Seq<char>>, Option<Seq<char>>, ActionView);

impl View for OmniAction {
    type V = ActionView;

    open spec fn view(&self) -> ActionView {
        match *self {
            OmniAction::OpenFacet { name } => (0, name@),
            OmniAction::Execute { command } => (1, command@),
            OmniAction::Navigate { path } => (2, path@),
            OmniAction::Search { query } => (3, query@),
        }
    }
}

/// The text of an optional string.
pub open spec fn text_of(s: Option<String>) -> Option<Seq<char>> {
    match s {
        Some(t) => Some(t@),
        None => None,
    }
}

impl View for OmniResult {
    type V = ResultView;

    open spec fn view(&self) -> ResultView {
        (self.title@, text_of(self.subtitle), text_of(self.icon), self.action@)
    }
}

/// The results of a list as plain values.
pub open spec fn views_of(results: Seq<OmniResult>) -> Seq<ResultView> {
    Seq::new(results.len(), |i: int| results[i]@)
}

/// What each kind of result looks like for a given input.
pub open spec fn entry_view(kind: ResultKind, input: Seq<char>) -> ResultView {
    match kind {
        ResultKind::Terminal => (
            "Terminal"@,
            Some("Open command line"@),
            Some("terminal"@),
            (0, "terminal"@),
        ),
        ResultKind::Write => ("Write"@, Some("Open text editor"@), Some("edit"@), (0, "editor"@)),
        ResultKind::Files => ("Files"@, Some("Browse filesystem"@), Some("folder"@), (0, "files"@)),
        ResultKind::Settings => (
            "Settings"@,
            Some("System preferences"@),
            Some("settings"@),
            (0, "settings"@),
        ),
        ResultKind::Quit => ("Quit Nebula"@, Some("Exit to console"@), Some("power"@), (1, "quit"@)),
        ResultKind::Search => (
            "Search for \""@ + input + "\""@,
            Some("Search files and content"@),
            Some("search"@),
            (3, input),
        ),
    }
}

/// One kind, where it is wanted.
pub open spec fn offered(wanted: bool, kind: ResultKind) -> Seq<ResultKind> {
    if wanted {
        seq![kind]
    } else {
        Seq::empty()
    }
}

/// The kinds of result for an input and its lower-case form, in the order
/// they are offered. An empty input offers nothing. The built-in results go
/// by how the lower-case form starts, quitting by the whole of it; where
/// none of them fits, an input of more than two bytes is offered as a
/// search.
pub open spec fn kinds_spec(input: Seq<char>, lowered: Seq<char>) -> Seq<ResultKind> {
    if input.len() == 0 {
        Seq::empty()
    } else {
        let built_in = offered(
            "term"@.is_prefix_of(lowered) || "shell"@.is_prefix_of(lowered),
            ResultKind::Terminal,
        ) + offered(
            "write"@.is_prefix_of(lowered) || "edit"@.is_prefix_of(lowered) || "note"@.is_prefix_of(
                lowered,
            ),
            ResultKind::Write,
        ) + offered(
            "file"@.is_prefix_of(lowered) || "browse"@.is_prefix_of(lowered),
            ResultKind::Files,
        ) + offered(
            "set"@.is_prefix_of(lowered) || "pref"@.is_prefix_of(lowered),
            ResultKind::Settings,
        ) + offered(
            lowered == "quit"@ || lowered == "exit"@ || lowered == "logout"@,
            ResultKind::Quit,
        );
        if built_in.len() == 0 && encode_utf8(input).len() > 2 {
            seq![ResultKind::Search]
        } else {
            built_in
        }
    }
}

/// The results for an input and its lower-case form, as plain values.
pub open spec fn results_spec(input: Seq<char>, lowered: Seq<char>) -> Seq<ResultView> {
    let kinds = kinds_spec(input, lowered);
    Seq::new(kinds.len(), |i: int| entry_view(kinds[i], input))
}

fn open_facet(title: &str, subtitle: &str, icon: &str, name: &str) -> (r: OmniResult)
    ensures
        r@ == (title@, Some(subtitle@), Some(icon@), (0int, name@)),
{
    OmniResult {
        title: String::from_str(title),
        subtitle: Some(String::from_str(subtitle)),
        icon: Some(String::from_str(icon)),
        action: OmniAction::OpenFacet { name: String::from_str(name) },
    }
}

/// Builds the result of one kind for an input.
pub fn make_entry(kind: ResultKind, input: &str) -> (r: OmniResult)
    ensures
        r@ == entry_view(kind, input@),
{
    match kind {
        ResultKind::Terminal => open_facet("Terminal", "Open command line", "terminal", "terminal"),
        ResultKind::Write => open_facet("Write", "Open text editor", "edit", "editor"),
        ResultKind::Files => open_facet("Files", "Browse filesystem", "folder", "files"),
        ResultKind::Settings => open_facet("Settings", "System preferences", "settings", "settings"),
        ResultKind::Quit => OmniResult {
            title: String::from_str("Quit Nebula"),
            subtitle: Some(String::from_str("Exit to console")),
            icon: Some(String::from_str("power")),
            action: OmniAction::Execute { command: String::from_str("quit") },
        },
        ResultKind::Search => {
            let mut title = String::from_str("Search for \"");
            title.append(input);
            title.append("\"");
            OmniResult {
                title,
                subtitle: Some(String::from_str("Search files and content")),
                icon: Some(String::from_str("search")),
                action: OmniAction::Search { query: String::from_str(input) },
            }
        },
    }
}

/// Decides which kinds of result an input is offered, given its lower-case
/// form.
pub fn kinds_for(input: &str, lowered: &str) -> (kinds: Vec<ResultKind>)
    ensures
        kinds@ == kinds_spec(input@, lowered@),
{
    let mut kinds: Vec<ResultKind> = Vec::new();
    if input.is_empty() {
        return kinds;
    }
    let ghost none = Seq::<ResultKind>::empty();
    if has_prefix(lowered, "term") || has_prefix(lowered, "shell") {
        kinds.push(ResultKind::Terminal);
    }
    let ghost a = kinds@;
    assert(a =~= none + offered(
        "term"@.is_prefix_of(lowered@) || "shell"@.is_prefix_of(lowered@),
        ResultKind::Terminal,
    ));
    if has_prefix(lowered, "write") || has_prefix(lowered, "edit") || has_prefix(lowered, "note") {
        kinds.push(ResultKind::Write);
    }
    let ghost b = kinds@;
    assert(b =~= a + offered(
        "write"@.is_prefix_of(lowered@) || "edit"@.is_prefix_of(lowered@) || "note"@.is_prefix_of(
            lowered@,
        ),
        ResultKind::Write,
    ));
    if has_prefix(lowered, "file") || has_prefix(lowered, "browse") {
        kinds.push(ResultKind::Files);
    }
    let ghost c = kinds@;
    assert(c =~= b + offered(
        "file"@.is_prefix_of(lowered@) || "browse"@.is_prefix_of(lowered@),
        ResultKind::Files,
    ));
    if has_prefix(lowered, "set") || has_prefix(lowered, "pref") {
        kinds.push(ResultKind::Settings);
    }
    let ghost d = kinds@;
    assert(d =~= c + offered(
        "set"@.is_prefix_of(lowered@) || "pref"@.is_prefix_of(lowered@),
        ResultKind::Settings,
    ));
    if same_text(lowered, "quit") || same_text(lowered, "exit") || same_text(lowered, "logout") {
        kinds.push(ResultKind::Quit);
    }
    let ghost e = kinds@;
    assert(e =~= d + offered(
        lowered@ == "quit"@ || lowered@ == "exit"@ || lowered@ == "logout"@,
        ResultKind::Quit,
    ));
    assert(a =~= offered(
        "term"@.is_prefix_of(lowered@) || "shell"@.is_prefix_of(lowered@),
        ResultKind::Terminal,
    ));
    if kinds.len() == 0 && input.as_bytes().len() > 2 {
        kinds.push(ResultKind::Search);
        assert(kinds@ =~= seq![ResultKind::Search]);
    }
    kinds
}

/// The results that an input is offered, given its lower-case form.
pub fn results_for(input: &str, lowered: &str) -> (results: Vec<OmniResult>)
    ensures
        views_of(results@) == results_spec(input@, lowered@),
{
    let kinds = kinds_for(input, lowered);
    let n: usize = kinds.len();
    let mut results: Vec<OmniResult> = Vec::with_capacity(n);
    let mut i: usize = 0;
    while i < n
        invariant
            n == kinds@.len(),
            kinds@ == kinds_spec(input@, lowered@),
            i <= n,
            results@.len() == i,
            forall|k: int| 0 <= k < i ==> (#[trigger] results@[k])@ == entry_view(kinds@[k], input@),
        decreases n - i,
    {
        results.push(make_entry(kinds[i], input));
        i = i + 1;
    }
    assert(views_of(results@) =~= results_spec(input@, lowered@));
    results
}

fn copy_action(action: &OmniAction) -> (copy: OmniAction)
    ensures
        copy@ == action@,
{
    match action {
        OmniAction::OpenFacet { name } => OmniAction::OpenFacet { name: name.clone() },
        OmniAction::Execute { command } => OmniAction::Execute { command: command.clone() },
        OmniAction::Navigate { path } => OmniAction::Navigate { path: path.clone() },
        OmniAction::Search { query } => OmniAction::Search { query: query.clone() },
    }
}

/// The omni-bar.
pub struct OmniBar {
    visible: bool,
    input: TextInputState,
    results: Vec<OmniResult>,
    selected_index: usize,
}

impl OmniBar {
    /// Whether the bar is up.
    pub closed spec fn shown(&self) -> bool {
        self.visible
    }

    /// The text typed so far.
    pub closed spec fn text(&self) -> Seq<char> {
        self.input.text@
    }

    /// The characters before the cursor.
    pub closed spec fn before_cursor(&self) -> Seq<char> {
        self.input.before_cursor()
    }

    /// The characters behind the cursor.
    pub closed spec fn after_cursor(&self) -> Seq<char> {
        self.input.after_cursor()
    }

    /// The results on offer, as plain values.
    pub closed spec fn results(&self) -> Seq<ResultView> {
        views_of(self.results@)
    }

    /// The index of the highlighted result.
    pub closed spec fn selected(&self) -> usize {
        self.selected_index
    }

    /// The cursor lies on a character boundary, and the highlight on a
    /// result, or on the first place where there is none.
    pub closed spec fn wf(&self) -> bool {
        &&& self.input.wf()
        &&& self.text() == self.before_cursor() + self.after_cursor()
        &&& (self.selected_index == 0 || self.selected_index < self.results@.len())
    }

    /// The results are those that the text is offered.
    pub open spec fn results_fit_text(&self) -> bool {
        self.results() == results_spec(self.text(), lowercase(self.text()))
    }

    /// Nothing but the cursor has moved between `self` and `after`.
    pub open spec fn same_but_cursor(&self, after: OmniBar) -> bool {
        &&& after.shown() == self.shown()
        &&& after.text() == self.text()
        &&& after.results() == self.results()
        &&& after.selected() == self.selected()
    }

    /// Nothing but the highlight has moved between `self` and `after`.
    pub open spec fn same_but_highlight(&self, after: OmniBar) -> bool {
        &&& after.shown() == self.shown()
        &&& after.text() == self.text()
        &&& after.before_cursor() == self.before_cursor()
        &&& after.after_cursor() == self.after_cursor()
        &&& after.results() == self.results()
    }

    /// The text has been edited to `before` and `behind` the cursor, and the
    /// results have been renewed.
    pub open spec fn edited_to(&self, after: OmniBar, before: Seq<char>, behind: Seq<char>) -> bool {
        &&& after.shown() == self.shown()
        &&& after.before_cursor() == before
        &&& after.after_cursor() == behind
        &&& after.results_fit_text()
        &&& after.selected() == 0
    }

    /// What a key makes of the bar.
    ///
    /// Backspace and delete take out the character before or behind the
    /// cursor and renew the results; left and right move the cursor by one
    /// character; up and down move the highlight within the results; tab
    /// takes the highlighted title as the text, with the cursor at its end;
    /// enter takes the bar down. At the ends of the text and of the results,
    /// and for every other key, nothing changes.
    pub open spec fn handled(&self, key: Key, after: OmniBar) -> bool {
        let before = self.before_cursor();
        let behind = self.after_cursor();
        match key {
            Key::Backspace => if before.len() > 0 {
                self.edited_to(after, before.drop_last(), behind)
            } else {
                self.same_but_cursor(after) && after.before_cursor() == before
            },
            Key::Delete => if behind.len() > 0 {
                self.edited_to(after, before, behind.drop_first())
            } else {
                self.same_but_cursor(after) && after.before_cursor() == before
            },
            Key::Left => self.same_but_cursor(after) && (if before.len() > 0 {
                after.before_cursor() == before.drop_last() && after.after_cursor() == seq![
                    before.last(),
                ] + behind
            } else {
                after.before_cursor() == before
            }),
            Key::Right => self.same_but_cursor(after) && (if behind.len() > 0 {
                after.before_cursor() == before.push(behind[0]) && after.after_cursor()
                    == behind.drop_first()
            } else {
                after.before_cursor() == before
            }),
            Key::Up => self.same_but_highlight(after) && after.selected() == (if self.selected()
                > 0 {
                (self.selected() - 1) as usize
            } else {
                0
            }),
            Key::Down => self.same_but_highlight(after) && after.selected() == (if self.selected()
                + 1 < self.results().len() {
                (self.selected() + 1) as usize
            } else {
                self.selected()
            }),
            Key::Tab => if self.selected() < self.results().len() {
                &&& after.shown() == self.shown()
                &&& after.text() == self.results()[self.selected() as int].0
                &&& after.after_cursor().len() == 0
                &&& after.results() == self.results()
                &&& after.selected() == self.selected()
            } else {
                self.same_but_cursor(after) && after.before_cursor() == before
            },
            Key::Enter => {
                &&& !after.shown()
                &&& after.text() == self.text()
                &&& after.before_cursor() == before
                &&& after.results() == self.results()
                &&& after.selected() == self.selected()
            },
            _ => self.same_but_cursor(after) && after.before_cursor() == before,
        }
    }

    /// A hidden, empty bar, with the cursor at the start of the empty text.
    pub fn new() -> (bar: OmniBar)
        ensures
            !bar.shown(),
            bar.text().len() == 0,
            bar.before_cursor().len() == 0,
            bar.after_cursor().len() == 0,
            bar.results().len() == 0,
            bar.selected() == 0,
            bar.wf(),
    {
        let input = TextInputState::new("");
        proof {
            lemma_boundary_splits(input.text@, 0);
        }
        OmniBar { visible: false, input, results: Vec::new(), selected_index: 0 }
    }

    pub fn is_visible(&self) -> (visible: bool)
        ensures
            visible == self.shown(),
    {
        self.visible
    }

    /// The text typed so far.
    pub fn input_text(&self) -> (text: &str)
        ensures
            text@ == self.text(),
    {
        self.input.text.as_str()
    }

    /// The index of the highlighted result.
    pub fn selected_index(&self) -> (i: usize)
        ensures
            i == self.selected(),
    {
        self.selected_index
    }

    /// The results on offer.
    pub fn offered_results(&self) -> (results: &Vec<OmniResult>)
        ensures
            views_of(results@) == self.results(),
    {
        &self.results
    }

    /// Brings the bar up, empty.
    pub fn show(&mut self)
        ensures
            final(self).shown(),
            final(self).text().len() == 0,
            final(self).results().len() == 0,
            final(self).selected() == 0,
            final(self).wf(),
    {
        self.visible = true;
        let _ = self.input.take_text();
        self.results.clear();
        self.selected_index = 0;
        proof {
            lemma_boundary_splits(self.input.text@, 0);
        }
    }

    /// Takes the bar down; what it holds stays.
    pub fn close(&mut self)
        ensures
            !final(self).shown(),
            final(self).text() == old(self).text(),
            final(self).before_cursor() == old(self).before_cursor(),
            final(self).after_cursor() == old(self).after_cursor(),
            final(self).results() == old(self).results(),
            final(self).selected() == old(self).selected(),
            old(self).wf() ==> final(self).wf(),
    {
        self.visible = false;
    }

    /// Takes the bar down if it is up, and brings it up, empty, if not.
    pub fn toggle(&mut self)
        ensures
            final(self).shown() == !old(self).shown(),
            old(self).shown() ==> final(self).text() == old(self).text() && final(self).results()
                == old(self).results() && final(self).selected() == old(self).selected(),
            !old(self).shown() ==> final(self).text().len() == 0 && final(self).results().len()
                == 0 && final(self).selected() == 0 && final(self).wf(),
            old(self).wf() ==> final(self).wf(),
    {
        if self.visible {
            self.close();
        } else {
            self.show();
        }
    }

    /// Works out the results for the text as it stands, and highlights the
    /// first.
    pub fn update_results(&mut self)
        requires
            old(self).wf(),
        ensures
            final(self).results_fit_text(),
            final(self).selected() == 0,
            final(self).text() == old(self).text(),
            final(self).before_cursor() == old(self).before_cursor(),
            final(self).after_cursor() == old(self).after_cursor(),
            final(self).shown() == old(self).shown(),
            final(self).wf(),
    {
        let lowered = to_lowercase(self.input.text.as_str());
        self.results = results_for(self.input.text.as_str(), lowered.as_str());
        self.selected_index = 0;
    }

    /// Takes a typed character in at the cursor. Control codes are passed
    /// over.
    pub fn handle_char(&mut self, c: char)
        requires
            old(self).wf(),
        ensures
            final(self).wf(),
            final(self).shown() == old(self).shown(),
            is_control_spec(c) ==> old(self).same_but_cursor(*final(self)) && final(self).before_cursor() == old(self).before_cursor(),
            !is_control_spec(c) ==> old(self).edited_to(
                *final(self),
                old(self).before_cursor().push(c),
                old(self).after_cursor(),
            ),
    {
        if is_control(c) {
            return ;
        }
        self.input.insert_char(c);
        proof {
            lemma_boundary_splits(self.input.text@, self.input.cursor as int);
        }
        self.update_results();
    }

    /// The action of the highlighted result, if there is one; then the bar
    /// goes down.
    pub fn execute_selected(&mut self) -> (action: Option<OmniAction>)
        requires
            old(self).wf(),
        ensures
            !final(self).shown(),
            action is Some <==> old(self).selected() < old(self).results().len(),
            action matches Some(a) ==> a@ == old(self).results()[old(self).selected() as int].3,
            final(self).text() == old(self).text(),
            final(self).before_cursor() == old(self).before_cursor(),
            final(self).after_cursor() == old(self).after_cursor(),
            final(self).results() == old(self).results(),
            final(self).selected() == old(self).selected(),
            final(self).wf(),
    {
        let action = if self.selected_index < self.results.len() {
            Some(copy_action(&self.results[self.selected_index].action))
        } else {
            None
        };
        self.close();
        action
    }

    /// Handles a key, and hands out the action of the highlighted result
    /// where the key is enter and a result is highlighted.
    pub fn handle_key(&mut self, key: Key) -> (action: Option<OmniAction>)
        requires
            old(self).wf(),
        ensures
            final(self).wf(),
            old(self).handled(key, *final(self)),
            action is Some <==> key == Key::Enter && old(self).selected() < old(self).results().len(),
            action matches Some(a) ==> a@ == old(self).results()[old(self).selected() as int].3,
    {
        match key {
            Key::Backspace => {
                proof {
                    lemma_boundary_splits(self.input.text@, self.input.cursor as int);
                }
                if self.input.cursor > 0 {
                    self.input.backspace();
                    proof {
                        lemma_boundary_splits(self.input.text@, self.input.cursor as int);
                    }
                    self.update_results();
                }
                None
            },
            Key::Delete => {
                proof {
                    lemma_boundary_splits(self.input.text@, self.input.cursor as int);
                }
                if self.input.cursor < self.input.text.as_str().as_bytes().len() {
                    let ghost before = self.input.before_cursor();
                    let ghost after = self.input.after_cursor();
                    self.input.move_right();
                    self.input.backspace();
                    proof {
                        assert(before.push(after[0]).drop_last() =~= before);
                        lemma_boundary_splits(self.input.text@, self.input.cursor as int);
                    }
                    self.update_results();
                }
                None
            },
            Key::Left => {
                proof {
                    lemma_boundary_splits(self.input.text@, self.input.cursor as int);
                }
                self.input.move_left();
                proof {
                    lemma_boundary_splits(self.input.text@, self.input.cursor as int);
                }
                None
            },
            Key::Right => {
                proof {
                    lemma_boundary_splits(self.input.text@, self.input.cursor as int);
                }
                self.input.move_right();
                proof {
                    lemma_boundary_splits(self.input.text@, self.input.cursor as int);
                }
                None
            },
            Key::Up => {
                if self.selected_index > 0 {
                    self.selected_index = self.selected_index - 1;
                }
                None
            },
            Key::Down => {
                let n: usize = self.results.len();
                if n > 0 && self.selected_index < n - 1 {
                    self.selected_index = self.selected_index + 1;
                }
                None
            },
            Key::Enter => self.execute_selected(),
            Key::Tab => {
                if self.selected_index < self.results.len() {
                    self.input.text = self.results[self.selected_index].title.clone();
                    self.input.cursor = self.input.text.as_str().as_bytes().len();
                    proof {
                        encode_utf8_valid_utf8(self.input.text@);
                        is_char_boundary_start_end_of_seq(encode_utf8(self.input.text@));
                        lemma_boundary_splits(self.input.text@, self.input.cursor as int);
                    }
                }
                None
            },
            _ => None,
        }
    }
}

} // verus!
