//! Facets: capabilities that compose, not applications. Here are the three
//! built-in ones as far as their state goes: a terminal, an editor and a
//! file browser.

use vstd::prelude::*;
use vstd::string::*;
use vstd::utf8::{encode_utf8, encode_utf8_valid_utf8, is_char_boundary_start_end_of_seq};
use crate::keys::Key;
use crate::text::{has_prefix, same_text, texts_of};
use crate::text_input::{lemma_boundary_splits, TextInputState};

verus! {

/// Capabilities a facet can declare.
#[derive(Clone, Copy, Debug, PartialEq, Eq, Hash, Structural)]
pub enum Capability {
    ReadText,
    WriteText,
    ReadImage,
    WriteImage,
    ReadAudio,
    WriteAudio,
    ReadVideo,
    WriteVideo,
    FileAccess,
    NetworkAccess,
    Clipboard,
    Notifications,
    Camera,
    Microphone,
    Location,
    LLMAccess,
    SemanticSearch,
}

/// Facet state.
#[derive(Clone, Copy, Debug, PartialEq, Eq, Structural)]
pub enum FacetState {
    Loading,
    Active,
    Background,
    Suspended,
}

/// Data that can flow between facets.
pub enum FacetData {
    Text(String),
    Binary(Vec<u8>),
    /// A JSON document, as text.
    Json(String),
    Reference { uri: String },
}

/// Terminal facet: a command line.
pub struct TerminalFacet {
    history: Vec<String>,
    current_line: String,
    output: Vec<String>,
}

/// Editor facet: text editing.
pub struct EditorFacet {
    text: TextInputState,
    filename: Option<String>,
}

/// Files facet: a file browser.
pub struct FilesFacet {
    current_path: String,
    entries: Vec<String>,
    selected: usize,
}

/// The lines that a fresh terminal shows.
pub open spec fn terminal_banner() -> Seq<Seq<char>> {
    seq!["Aether Terminal v0.1"@, "Type 'help' for commands"@, ""@]
}

/// The entries that a fresh file browser shows.
pub open spec fn root_entries() -> Seq<Seq<char>> {
    seq![".."@, "home/"@, "etc/"@, "tmp/"@]
}

/// The views of a list of strings.
pub open spec fn lines_of(v: Seq<String>) -> Seq<Seq<char>> {
    texts_of(v)
}

/// What the terminal answers to a command: the list of commands to
/// "help", the rest of the line to "echo", nothing to "clear" and to an
/// empty line, and a complaint to anything else.
pub open spec fn response_spec(cmd: Seq<char>) -> Seq<char> {
    if cmd == "help"@ {
        "Commands: help, clear, echo, exit"@
    } else if cmd == "clear"@ {
        Seq::empty()
    } else if "echo "@.is_prefix_of(cmd) {
        cmd.subrange("echo "@.len() as int, cmd.len() as int)
    } else if cmd.len() == 0 {
        Seq::empty()
    } else {
        "Unknown command: "@ + cmd
    }
}

/// The lines on screen after a command: the command behind a prompt,
/// unless the command clears the screen, and the answer where there is one.
pub open spec fn output_after(output: Seq<Seq<char>>, cmd: Seq<char>) -> Seq<Seq<char>> {
    let shown = if cmd == "clear"@ {
        Seq::empty()
    } else {
        output.push("$ "@ + cmd)
    };
    if response_spec(cmd).len() > 0 {
        shown.push(response_spec(cmd))
    } else {
        shown
    }
}

/// Lines put together with a line feed between each two.
pub open spec fn joined(lines: Seq<Seq<char>>) -> Seq<char>
    decreases lines.len(),
{
    if lines.len() == 0 {
        Seq::empty()
    } else if lines.len() == 1 {
        lines[0]
    } else {
        joined(lines.drop_last()) + seq!['\n'] + lines.last()
    }
}

/// The text of a piece of data, where it is text.
pub open spec fn text_in(data: Option<FacetData>) -> Option<Seq<char>> {
    match data {
        Some(FacetData::Text(t)) => Some(t@),
        _ => None,
    }
}

/// What the terminal answers to a command.
pub fn respond(cmd: &str) -> (answer: String)
    ensures
        answer@ == response_spec(cmd@),
{
    if same_text(cmd, "help") {
        String::from_str("Commands: help, clear, echo, exit")
    } else if same_text(cmd, "clear") {
        String::new()
    } else if has_prefix(cmd, "echo ") {
        let from: usize = "echo ".unicode_len();
        let to: usize = cmd.unicode_len();
        String::from_str(cmd.substring_char(from, to))
    } else if cmd.is_empty() {
        let answer = String::new();
        assert(answer@ =~= response_spec(cmd@));
        answer
    } else {
        let mut answer = String::from_str("Unknown command: ");
        answer.append(cmd);
        answer
    }
}

/// Puts lines together with a line feed between each two.
pub fn join_lines(lines: &Vec<String>) -> (text: String)
    ensures
        text@ == joined(texts_of(lines@)),
{
    proof {
        reveal_strlit("\n");
    }
    let ghost all = texts_of(lines@);
    let n: usize = lines.len();
    let mut text = String::new();
    let mut i: usize = 0;
    assert(all.subrange(0, 0) =~= Seq::<Seq<char>>::empty());
    while i < n
        invariant
            n == lines@.len(),
            all == texts_of(lines@),
            i <= n,
            "\n"@ == seq!['\n'],
            text@ == joined(all.subrange(0, i as int)),
        decreases n - i,
    {
        let ghost next = all.subrange(0, i as int + 1);
        assert(next.drop_last() =~= all.subrange(0, i as int));
        assert(next.last() == lines@[i as int]@);
        if i > 0 {
            text.append("\n");
        }
        text.append(lines[i].as_str());
        i = i + 1;
        assert(text@ =~= joined(next));
    }
    assert(all.subrange(0, n as int) =~= all);
    text
}

impl TerminalFacet {
    /// The commands entered so far.
    pub closed spec fn history(&self) -> Seq<Seq<char>> {
        lines_of(self.history@)
    }

    /// The line being typed.
    pub closed spec fn current_line(&self) -> Seq<char> {
        self.current_line@
    }

    /// The lines on screen.
    pub closed spec fn output(&self) -> Seq<Seq<char>> {
        lines_of(self.output@)
    }

    /// A terminal with the banner on screen and nothing typed.
    pub fn new() -> (t: TerminalFacet)
        ensures
            t.history() == Seq::<Seq<char>>::empty(),
            t.current_line() == Seq::<char>::empty(),
            t.output() == terminal_banner(),
    {
        let mut output: Vec<String> = Vec::new();
        output.push(String::from_str("Aether Terminal v0.1"));
        output.push(String::from_str("Type 'help' for commands"));
        output.push(String::from_str(""));
        let t = TerminalFacet { history: Vec::new(), current_line: String::new(), output };
        assert(t.output() =~= terminal_banner());
        assert(t.history() =~= Seq::<Seq<char>>::empty());
        t
    }

    pub fn id(&self) -> (s: &'static str)
        ensures
            s@ == "terminal"@,
    {
        "terminal"
    }

    pub fn name(&self) -> (s: &'static str)
        ensures
            s@ == "Terminal"@,
    {
        "Terminal"
    }

    /// What the terminal may do: read and write text, and reach files.
    pub fn capabilities(&self) -> (caps: Vec<Capability>)
        ensures
            caps@ == seq![Capability::ReadText, Capability::WriteText, Capability::FileAccess],
    {
        let mut caps: Vec<Capability> = Vec::new();
        caps.push(Capability::ReadText);
        caps.push(Capability::WriteText);
        caps.push(Capability::FileAccess);
        assert(caps@ =~= seq![
            Capability::ReadText,
            Capability::WriteText,
            Capability::FileAccess,
        ]);
        caps
    }

    /// Takes typed text in, at the end of the line.
    pub fn on_text(&mut self, text: &str)
        ensures
            final(self).current_line() == old(self).current_line() + text@,
            final(self).history() == old(self).history(),
            final(self).output() == old(self).output(),
    {
        self.current_line.append(text);
    }

    /// Starts with the given text as the line being typed, where the data
    /// is text.
    pub fn init(&mut self, data: Option<FacetData>)
        ensures
            final(self).current_line() == (match text_in(data) {
                Some(t) => t,
                None => old(self).current_line(),
            }),
            final(self).history() == old(self).history(),
            final(self).output() == old(self).output(),
    {
        match data {
            Some(FacetData::Text(cmd)) => {
                self.current_line = cmd;
            },
            _ => {},
        }
    }

    /// Takes data from another facet: text becomes the line being typed.
    pub fn receive(&mut self, data: FacetData)
        ensures
            final(self).current_line() == (match text_in(Some(data)) {
                Some(t) => t,
                None => old(self).current_line(),
            }),
            final(self).history() == old(self).history(),
            final(self).output() == old(self).output(),
    {
        self.init(Some(data));
    }

    /// Hands the screen out as one text.
    pub fn provide(&self) -> (data: Option<FacetData>)
        ensures
            text_in(data) == Some(joined(self.output())),
    {
        Some(FacetData::Text(join_lines(&self.output)))
    }

    /// The terminal has nothing to suggest.
    pub fn suggest(&self) -> (s: Option<String>)
        ensures
            s is None,
    {
        None
    }

    /// Handles a key going down: enter runs the line, backspace takes its
    /// last character away. A key going up, or any other key, does nothing.
    pub fn on_key(&mut self, key: Key, pressed: bool)
        ensures
            pressed && key == Key::Enter ==> {
                &&& final(self).current_line().len() == 0
                &&& final(self).history() == old(self).history().push(old(self).current_line())
                &&& final(self).output() == output_after(
                    old(self).output(),
                    old(self).current_line(),
                )
            },
            pressed && key == Key::Backspace ==> {
                &&& final(self).current_line() == (if old(self).current_line().len() > 0 {
                    old(self).current_line().drop_last()
                } else {
                    old(self).current_line()
                })
                &&& final(self).history() == old(self).history()
                &&& final(self).output() == old(self).output()
            },
            !pressed || (key != Key::Enter && key != Key::Backspace) ==> {
                &&& final(self).current_line() == old(self).current_line()
                &&& final(self).history() == old(self).history()
                &&& final(self).output() == old(self).output()
            },
    {
        if !pressed {
            return ;
        }
        match key {
            Key::Enter => {
                let cmd = self.current_line.clone();
                self.current_line = String::new();
                let ghost shown = texts_of(self.output@);
                let ghost past = texts_of(self.history@);
                let mut echoed = String::from_str("$ ");
                echoed.append(cmd.as_str());
                let answer = respond(cmd.as_str());
                if same_text(cmd.as_str(), "clear") {
                    self.output.clear();
                    assert(texts_of(self.output@) =~= Seq::<Seq<char>>::empty());
                } else {
                    self.output.push(echoed);
                    assert(texts_of(self.output@) =~= shown.push("$ "@ + cmd@));
                }
                let ghost base = texts_of(self.output@);
                if !answer.as_str().is_empty() {
                    self.output.push(answer);
                    assert(texts_of(self.output@) =~= base.push(response_spec(cmd@)));
                }
                self.history.push(cmd);
                assert(texts_of(self.history@) =~= past.push(old(self).current_line@));
            },
            Key::Backspace => {
                let n: usize = self.current_line.as_str().unicode_len();
                if n > 0 {
                    let shorter = String::from_str(
                        self.current_line.as_str().substring_char(0, n - 1),
                    );
                    assert(shorter@ =~= self.current_line@.drop_last());
                    self.current_line = shorter;
                }
            },
            _ => {},
        }
    }
}

impl EditorFacet {
    /// The text being edited.
    pub closed spec fn content(&self) -> Seq<char> {
        self.text.text@
    }

    /// The characters before the cursor.
    pub closed spec fn before_cursor(&self) -> Seq<char> {
        self.text.before_cursor()
    }

    /// The characters behind the cursor.
    pub closed spec fn after_cursor(&self) -> Seq<char> {
        self.text.after_cursor()
    }

    /// The name of the file, once there is one.
    pub closed spec fn filename(&self) -> Option<Seq<char>> {
        match self.filename {
            Some(name) => Some(name@),
            None => None,
        }
    }

    /// The cursor lies on a character boundary of the text.
    pub closed spec fn wf(&self) -> bool {
        self.text.wf() && self.text.text@ == self.text.before_cursor() + self.text.after_cursor()
    }

    /// An empty, unnamed document.
    pub fn new() -> (e: EditorFacet)
        ensures
            e.content() == Seq::<char>::empty(),
            e.before_cursor().len() == 0,
            e.after_cursor().len() == 0,
            e.filename() is None,
            e.wf(),
    {
        let text = TextInputState::new("");
        proof {
            lemma_boundary_splits(text.text@, 0);
        }
        EditorFacet { text, filename: None }
    }

    pub fn id(&self) -> (s: &'static str)
        ensures
            s@ == "editor"@,
    {
        "editor"
    }

    pub fn name(&self) -> (s: &'static str)
        ensures
            s@ == "Editor"@,
    {
        "Editor"
    }

    /// What the editor may do: read and write text, and reach files.
    pub fn capabilities(&self) -> (caps: Vec<Capability>)
        ensures
            caps@ == seq![Capability::ReadText, Capability::WriteText, Capability::FileAccess],
    {
        let mut caps: Vec<Capability> = Vec::new();
        caps.push(Capability::ReadText);
        caps.push(Capability::WriteText);
        caps.push(Capability::FileAccess);
        assert(caps@ =~= seq![
            Capability::ReadText,
            Capability::WriteText,
            Capability::FileAccess,
        ]);
        caps
    }

    /// The text being edited.
    pub fn text(&self) -> (t: &str)
        ensures
            t@ == self.content(),
    {
        self.text.text.as_str()
    }

    /// The byte offset of the cursor in the text.
    pub fn cursor(&self) -> (at: usize)
        requires
            self.wf(),
        ensures
            at == encode_utf8(self.before_cursor()).len(),
    {
        proof {
            lemma_boundary_splits(self.text.text@, self.text.cursor as int);
        }
        self.text.cursor
    }

    /// Takes a text as the document, with the cursor at its end.
    fn load(&mut self, text: String)
        ensures
            final(self).content() == text@,
            final(self).before_cursor() == text@,
            final(self).after_cursor().len() == 0,
            final(self).filename() == old(self).filename(),
            final(self).wf(),
    {
        self.text.text = text;
        self.text.cursor = self.text.text.as_str().as_bytes().len();
        proof {
            encode_utf8_valid_utf8(self.text.text@);
            is_char_boundary_start_end_of_seq(encode_utf8(self.text.text@));
            lemma_boundary_splits(self.text.text@, self.text.cursor as int);
            assert(self.text.text@ =~= self.text.before_cursor() + self.text.after_cursor());
        }
    }

    /// Starts with the given text as the document, where the data is text.
    pub fn init(&mut self, data: Option<FacetData>)
        requires
            old(self).wf(),
        ensures
            final(self).wf(),
            final(self).filename() == old(self).filename(),
            text_in(data) matches Some(t) ==> final(self).before_cursor() == t && final(self).after_cursor().len() == 0,
            text_in(data) is None ==> final(self).before_cursor() == old(self).before_cursor()
                && final(self).after_cursor() == old(self).after_cursor(),
    {
        match data {
            Some(FacetData::Text(text)) => {
                self.load(text);
            },
            _ => {},
        }
    }

    /// Takes data from another facet: text becomes the document.
    pub fn receive(&mut self, data: FacetData)
        requires
            old(self).wf(),
        ensures
            final(self).wf(),
            final(self).filename() == old(self).filename(),
            text_in(Some(data)) matches Some(t) ==> final(self).before_cursor() == t && final(self).after_cursor().len() == 0,
            text_in(Some(data)) is None ==> final(self).before_cursor() == old(self).before_cursor() && final(self).after_cursor() == old(self).after_cursor(),
    {
        self.init(Some(data));
    }

    /// Hands the document out.
    pub fn provide(&self) -> (data: Option<FacetData>)
        ensures
            text_in(data) == Some(self.content()),
    {
        Some(FacetData::Text(self.text.text.clone()))
    }

    /// What the editor suggests doing next.
    pub fn suggest(&self) -> (s: Option<String>)
        ensures
            s matches Some(t) && t@ == "Save document"@,
    {
        Some(String::from_str("Save document"))
    }

    /// Takes typed text in at the cursor.
    pub fn on_text(&mut self, text: &str)
        requires
            old(self).wf(),
        ensures
            final(self).wf(),
            final(self).before_cursor() == old(self).before_cursor() + text@,
            final(self).after_cursor() == old(self).after_cursor(),
            final(self).filename() == old(self).filename(),
    {
        let n: usize = text.unicode_len();
        let mut i: usize = 0;
        assert(old(self).before_cursor() + text@.subrange(0, 0) =~= old(self).before_cursor());
        while i < n
            invariant
                n == text@.len(),
                i <= n,
                self.wf(),
                self.before_cursor() == old(self).before_cursor() + text@.subrange(0, i as int),
                self.after_cursor() == old(self).after_cursor(),
                self.filename() == old(self).filename(),
            decreases n - i,
        {
            self.text.insert_char(text.get_char(i));
            proof {
                lemma_boundary_splits(self.text.text@, self.text.cursor as int);
                assert(text@.subrange(0, i as int).push(text@[i as int]) =~= text@.subrange(
                    0,
                    i as int + 1,
                ));
                assert(self.before_cursor() =~= old(self).before_cursor() + text@.subrange(
                    0,
                    i as int + 1,
                ));
            }
            i = i + 1;
        }
        assert(text@.subrange(0, n as int) =~= text@);
    }

    /// What a key going down makes of the document: backspace takes out the
    /// character before the cursor, enter puts a line feed in, left and
    /// right move the cursor by one character. At the ends of the text, for
    /// a key going up and for any other key, nothing changes.
    pub open spec fn keyed(&self, key: Key, pressed: bool, after: EditorFacet) -> bool {
        let before = self.before_cursor();
        let behind = self.after_cursor();
        if !pressed {
            after.before_cursor() == before && after.after_cursor() == behind
        } else {
            match key {
                Key::Backspace => after.after_cursor() == behind && after.before_cursor() == (
                if before.len() > 0 {
                    before.drop_last()
                } else {
                    before
                }),
                Key::Enter => after.before_cursor() == before.push('\n') && after.after_cursor()
                    == behind,
                Key::Left => if before.len() > 0 {
                    after.before_cursor() == before.drop_last() && after.after_cursor() == seq![
                        before.last(),
                    ] + behind
                } else {
                    after.before_cursor() == before && after.after_cursor() == behind
                },
                Key::Right => if behind.len() > 0 {
                    after.before_cursor() == before.push(behind[0]) && after.after_cursor()
                        == behind.drop_first()
                } else {
                    after.before_cursor() == before && after.after_cursor() == behind
                },
                _ => after.before_cursor() == before && after.after_cursor() == behind,
            }
        }
    }

    /// Handles a key.
    pub fn on_key(&mut self, key: Key, pressed: bool)
        requires
            old(self).wf(),
        ensures
            final(self).wf(),
            old(self).keyed(key, pressed, *final(self)),
            final(self).filename() == old(self).filename(),
    {
        if !pressed {
            return ;
        }
        proof {
            lemma_boundary_splits(self.text.text@, self.text.cursor as int);
        }
        match key {
            Key::Backspace => {
                self.text.backspace();
            },
            Key::Enter => {
                self.text.insert_char('\n');
            },
            Key::Left => {
                self.text.move_left();
            },
            Key::Right => {
                self.text.move_right();
            },
            _ => {},
        }
        proof {
            lemma_boundary_splits(self.text.text@, self.text.cursor as int);
        }
    }
}

impl FilesFacet {
    /// The directory shown.
    pub closed spec fn current_path(&self) -> Seq<char> {
        self.current_path@
    }

    /// The entries of the directory.
    pub closed spec fn entries(&self) -> Seq<Seq<char>> {
        lines_of(self.entries@)
    }

    /// The index of the highlighted entry.
    pub closed spec fn selected(&self) -> usize {
        self.selected
    }

    /// The selection after a key went down or up. Only a key going down
    /// counts: up moves the selection towards the first entry, down towards
    /// the last, and neither moves it past the end.
    pub open spec fn selected_after(&self, key: Key, pressed: bool) -> int {
        let sel = self.selected() as int;
        let last = if self.entries().len() > 0 {
            self.entries().len() - 1
        } else {
            0
        };
        if !pressed {
            sel
        } else if key == Key::Up {
            if sel > 0 {
                sel - 1
            } else {
                0
            }
        } else if key == Key::Down {
            if sel + 1 <= last {
                sel + 1
            } else {
                last
            }
        } else {
            sel
        }
    }

    /// A browser at the root, with the first entry highlighted.
    pub fn new() -> (f: FilesFacet)
        ensures
            f.current_path() == "/"@,
            f.entries() == root_entries(),
            f.selected() == 0,
    {
        let mut entries: Vec<String> = Vec::new();
        entries.push(String::from_str(".."));
        entries.push(String::from_str("home/"));
        entries.push(String::from_str("etc/"));
        entries.push(String::from_str("tmp/"));
        let f = FilesFacet { current_path: String::from_str("/"), entries, selected: 0 };
        assert(f.entries() =~= root_entries());
        f
    }

    pub fn id(&self) -> (s: &'static str)
        ensures
            s@ == "files"@,
    {
        "files"
    }

    pub fn name(&self) -> (s: &'static str)
        ensures
            s@ == "Files"@,
    {
        "Files"
    }

    /// What the browser may do: reach files.
    pub fn capabilities(&self) -> (caps: Vec<Capability>)
        ensures
            caps@ == seq![Capability::FileAccess],
    {
        let mut caps: Vec<Capability> = Vec::new();
        caps.push(Capability::FileAccess);
        assert(caps@ =~= seq![Capability::FileAccess]);
        caps
    }

    /// The index of the highlighted entry.
    pub fn selection(&self) -> (i: usize)
        ensures
            i == self.selected(),
    {
        self.selected
    }

    /// Handles a key: up and down move the selection.
    pub fn on_key(&mut self, key: Key, pressed: bool)
        ensures
            final(self).selected() == old(self).selected_after(key, pressed),
            final(self).entries() == old(self).entries(),
            final(self).current_path() == old(self).current_path(),
    {
        if !pressed {
            return ;
        }
        match key {
            Key::Up => {
                if self.selected > 0 {
                    self.selected = self.selected - 1;
                }
            },
            Key::Down => {
                let n: usize = self.entries.len();
                let last: usize = if n > 0 {
                    n - 1
                } else {
                    0
                };
                if self.selected < last {
                    self.selected = self.selected + 1;
                } else {
                    self.selected = last;
                }
            },
            _ => {},
        }
    }

    /// Starts in the given directory, where the data is text. The entries
    /// stay as they are until the directory is read.
    pub fn init(&mut self, data: Option<FacetData>)
        ensures
            final(self).current_path() == (match text_in(data) {
                Some(t) => t,
                None => old(self).current_path(),
            }),
            final(self).entries() == old(self).entries(),
            final(self).selected() == old(self).selected(),
    {
        match data {
            Some(FacetData::Text(path)) => {
                self.current_path = path;
            },
            _ => {},
        }
    }

    /// Hands the path of the highlighted entry out.
    pub fn provide(&self) -> (data: Option<FacetData>)
        ensures
            data is Some <==> self.selected() < self.entries().len(),
            data is Some ==> text_in(data) == Some(
                self.current_path() + self.entries()[self.selected() as int],
            ),
    {
        match self.selected_path() {
            Some(path) => Some(FacetData::Text(path)),
            None => None,
        }
    }

    /// The path of the highlighted entry: the directory and the entry's
    /// name put together, or nothing where the selection points past the
    /// entries.
    pub fn selected_path(&self) -> (path: Option<String>)
        ensures
            path is Some <==> self.selected() < self.entries().len(),
            path matches Some(p) ==> p@ == self.current_path() + self.entries()[self.selected() as int],
    {
        if self.selected < self.entries.len() {
            let mut p = self.current_path.clone();
            p.append(self.entries[self.selected].as_str());
            Some(p)
        } else {
            None
        }
    }
}

} // verus!
