//! The line editor: line buffer, history and the decoder of key bytes.
//!
//! The editor does no I/O. It is fed one input byte at a time and answers
//! with the characters to write to the terminal and, on Enter or Tab, the
//! action asked for by the user.
use vstd::prelude::*;

use crate::completion::{common_prefix, common_prefix_of, lemma_prefix_of_all, starts_with};
use crate::escseq::{left_chars, right_chars, EscSeq};
use crate::text::{decimal, push_char, push_chars, push_decimal, push_suffix, str_to_chars};
use crate::tokenize::{tokenize, tokens_of, views};

verus! {

/// An action asked for by the user.
pub enum Action {
    /// Run the command: its name, then its arguments.
    Command(Vec<String>),
    /// Complete the line being typed, split into arguments.
    AutoComplete(Vec<String>),
    /// Nothing more to do; never produced by the editor, kept for its users.
    NoAction,
}

/// An action as sequences of characters.
pub enum Event {
    Command(Seq<Seq<char>>),
    AutoComplete(Seq<Seq<char>>),
    NoAction,
}

impl View for Action {
    type V = Event;

    open spec fn view(&self) -> Event {
        match self {
            Action::Command(a) => Event::Command(views(a@)),
            Action::AutoComplete(a) => Event::AutoComplete(views(a@)),
            Action::NoAction => Event::NoAction,
        }
    }
}

/// The view of an optional action.
pub open spec fn event_of(a: Option<Action>) -> Option<Event> {
    match a {
        Some(a) => Some(a@),
        None => None,
    }
}

/// Where the decoder stands in an escape sequence.
#[derive(Clone, Copy, PartialEq, Eq, Structural)]
pub enum Decoder {
    /// Between keys.
    Normal,
    /// After `ESC`.
    SawEscape,
    /// After `ESC [`.
    SawCsi,
    /// After `ESC [ 3`, waiting for `~`.
    SawDelete,
}

/// The state of the editor.
pub struct CliView {
    /// The next action starts on a fresh line.
    pub needs_reset: bool,
    pub prompt: Seq<char>,
    /// The line being edited.
    pub text: Seq<char>,
    /// The cursor, as an index into `text`.
    pub cursor: nat,
    /// The submitted lines, oldest first.
    pub entries: Seq<Seq<char>>,
    /// The history entry being recalled, if any.
    pub position: Option<nat>,
    pub decoder: Decoder,
}

/// The words, each followed by a space.
pub open spec fn spaced(ws: Seq<Seq<char>>) -> Seq<char>
    decreases ws.len(),
{
    if ws.len() == 0 {
        seq![]
    } else {
        spaced(ws.drop_last()) + ws.last() + seq![' ']
    }
}

/// The line written when the decoder meets an unknown selector byte `b`.
pub open spec fn unhandled_msg(b: u8) -> Seq<char> {
    "Unhandled ANSI Escape Sequence: "@ + decimal(b as nat) + seq!['\n']
}

/// The line written when `ESC [ 3` is followed by `c` instead of `~`.
pub open spec fn unexpected_msg(c: char) -> Seq<char> {
    "Unexpected character "@ + seq![c, '\n']
}

impl CliView {
    pub open spec fn wf(self) -> bool {
        &&& self.cursor <= self.text.len()
        &&& self.position matches Some(i) ==> i < self.entries.len()
    }

    pub open spec fn with_line(self, text: Seq<char>, cursor: nat) -> CliView {
        CliView { text, cursor, ..self }
    }

    /// The state at the start of an action: a fresh line after a submitted one.
    /// An empty line, the cursor at its start, no history entry recalled.
    pub open spec fn fresh_line(self) -> CliView {
        CliView { text: seq![], cursor: 0, position: None, ..self }
    }

    /// The state at the start of an action: out of any escape sequence left
    /// unfinished, and on a fresh line after a submitted one.
    pub open spec fn begin(self) -> CliView {
        let s = self.with_decoder(Decoder::Normal);
        if self.needs_reset {
            CliView { needs_reset: false, ..s.fresh_line() }
        } else {
            s
        }
    }

    pub open spec fn begin_out(self) -> Seq<char> {
        if self.needs_reset {
            self.prompt
        } else {
            seq![]
        }
    }

    pub open spec fn home(self) -> CliView {
        self.with_line(self.text, 0)
    }

    pub open spec fn home_out(self) -> Seq<char> {
        left_chars(self.cursor)
    }

    pub open spec fn left(self) -> CliView {
        if self.cursor > 0 {
            self.with_line(self.text, (self.cursor - 1) as nat)
        } else {
            self
        }
    }

    pub open spec fn left_out(self) -> Seq<char> {
        if self.cursor > 0 {
            left_chars(1)
        } else {
            seq![]
        }
    }

    pub open spec fn right(self) -> CliView {
        if self.cursor < self.text.len() {
            self.with_line(self.text, self.cursor + 1)
        } else {
            self
        }
    }

    pub open spec fn right_out(self) -> Seq<char> {
        if self.cursor < self.text.len() {
            right_chars(1)
        } else {
            seq![]
        }
    }

    pub open spec fn insert(self, c: char) -> CliView {
        self.with_line(self.text.insert(self.cursor as int, c), self.cursor + 1)
    }

    /// Writes `c` and redraws what follows it, then moves back over that.
    pub open spec fn insert_out(self, c: char) -> Seq<char> {
        if self.cursor < self.text.len() {
            seq![c] + self.text.skip(self.cursor as int) + left_chars(
                (self.text.len() - self.cursor) as nat,
            )
        } else {
            seq![c]
        }
    }

    pub open spec fn backspace(self) -> CliView {
        if self.cursor == 0 {
            self
        } else {
            self.with_line(self.text.remove(self.cursor - 1), (self.cursor - 1) as nat)
        }
    }

    pub open spec fn backspace_out(self) -> Seq<char> {
        if self.cursor == 0 {
            seq![]
        } else {
            seq!['\x08'] + self.text.skip(self.cursor as int) + seq![' '] + left_chars(
                (self.text.len() - self.cursor + 1) as nat,
            )
        }
    }

    /// Deletes the character under the cursor, unless it is the last one or there is none.
    pub open spec fn delete_forward(self) -> CliView {
        if self.cursor + 1 < self.text.len() {
            self.with_line(self.text.remove(self.cursor as int), self.cursor)
        } else {
            self
        }
    }

    pub open spec fn delete_forward_out(self) -> Seq<char> {
        if self.cursor + 1 < self.text.len() {
            self.text.skip(self.cursor + 1 as int) + seq![' '] + left_chars(
                (self.text.len() - self.cursor) as nat,
            )
        } else {
            seq![]
        }
    }

    /// Copies the recalled entry, if any, into the line, with the cursor at its end.
    pub open spec fn restore(self) -> CliView {
        match self.position {
            Some(i) => self.with_line(self.entries[i as int], self.entries[i as int].len()),
            None => self,
        }
    }

    pub open spec fn restore_out(self) -> Seq<char> {
        match self.position {
            Some(i) => EscSeq::EraseInLineAll.chars() + EscSeq::HorizontalAbs(0).chars()
                + self.prompt + self.entries[i as int],
            None => seq![],
        }
    }

    pub open spec fn prev_position(self) -> Option<nat> {
        match self.position {
            Some(i) => if i == 0 {
                Some(0)
            } else {
                Some((i - 1) as nat)
            },
            None => if self.entries.len() == 0 {
                None
            } else {
                Some((self.entries.len() - 1) as nat)
            },
        }
    }

    pub open spec fn next_position(self) -> Option<nat> {
        match self.position {
            Some(i) => if i + 1 < self.entries.len() {
                Some(i + 1)
            } else {
                None
            },
            None => None,
        }
    }

    pub open spec fn at(self, position: Option<nat>) -> CliView {
        CliView { position, ..self }
    }

    /// Moves to the previous history entry and recalls it.
    pub open spec fn prev(self) -> CliView {
        self.at(self.prev_position()).restore()
    }

    pub open spec fn prev_out(self) -> Seq<char> {
        self.at(self.prev_position()).restore_out()
    }

    /// Moves to the next history entry and recalls it; past the newest, stops recalling.
    pub open spec fn next(self) -> CliView {
        self.at(self.next_position()).restore()
    }

    pub open spec fn next_out(self) -> Seq<char> {
        self.at(self.next_position()).restore_out()
    }

    /// Ends the line: it joins the history when its first argument is not empty.
    pub open spec fn submit(self) -> CliView {
        CliView {
            needs_reset: true,
            entries: if tokens_of(self.text)[0].len() > 0 {
                self.entries.push(self.text)
            } else {
                self.entries
            },
            ..self
        }
    }

    pub open spec fn with_decoder(self, d: Decoder) -> CliView {
        CliView { decoder: d, ..self }
    }

    /// The state after the byte `b`.
    pub open spec fn feed(self, b: u8) -> CliView {
        match self.decoder {
            Decoder::Normal => if b == 1 || b == 2 {
                self.home()
            } else if b == 0x1B {
                self.with_decoder(Decoder::SawEscape)
            } else if b == 0x7F {
                self.backspace()
            } else if b == 0x0A {
                self.submit()
            } else if b == 0x09 {
                self
            } else {
                self.insert(b as char)
            },
            Decoder::SawEscape => if b == 0x5B {
                self.with_decoder(Decoder::SawCsi)
            } else {
                self.with_decoder(Decoder::Normal)
            },
            Decoder::SawCsi => {
                let s = self.with_decoder(Decoder::Normal);
                if b == 0x33 {
                    self.with_decoder(Decoder::SawDelete)
                } else if b == 0x41 {
                    s.prev()
                } else if b == 0x42 {
                    s.next()
                } else if b == 0x43 {
                    s.right()
                } else if b == 0x44 {
                    s.left()
                } else {
                    s
                }
            },
            Decoder::SawDelete => {
                let s = self.with_decoder(Decoder::Normal);
                if b == 0x7E {
                    s.delete_forward()
                } else {
                    s
                }
            },
        }
    }

    /// What is written to the terminal on the byte `b`.
    pub open spec fn feed_out(self, b: u8) -> Seq<char> {
        match self.decoder {
            Decoder::Normal => if b == 1 || b == 2 {
                self.home_out()
            } else if b == 0x1B || b == 0x09 {
                seq![]
            } else if b == 0x7F {
                self.backspace_out()
            } else if b == 0x0A {
                seq!['\n']
            } else {
                self.insert_out(b as char)
            },
            Decoder::SawEscape => seq![],
            Decoder::SawCsi => if b == 0x33 {
                seq![]
            } else if b == 0x41 {
                self.prev_out()
            } else if b == 0x42 {
                self.next_out()
            } else if b == 0x43 {
                self.right_out()
            } else if b == 0x44 {
                self.left_out()
            } else {
                unhandled_msg(b)
            },
            Decoder::SawDelete => if b == 0x7E {
                self.delete_forward_out()
            } else {
                unexpected_msg(b as char)
            },
        }
    }

    /// The action that the byte `b` completes, if any: Enter submits, Tab asks to complete.
    pub open spec fn feed_event(self, b: u8) -> Option<Event> {
        if self.decoder == Decoder::Normal && b == 0x0A {
            Some(Event::Command(tokens_of(self.text)))
        } else if self.decoder == Decoder::Normal && b == 0x09 {
            Some(Event::AutoComplete(tokens_of(self.text)))
        } else {
            None
        }
    }

    /// The argument being typed: the last one of the line.
    pub open spec fn last_arg(self) -> Seq<char> {
        tokens_of(self.text).last()
    }

    /// What completing with `words` appends to the line.
    pub open spec fn completion(self, words: Seq<Seq<char>>) -> Seq<char> {
        common_prefix_of(words).skip(self.last_arg().len() as int)
    }

    pub open spec fn complete(self, words: Seq<Seq<char>>) -> CliView {
        if words.len() == 0 {
            self
        } else {
            let k = self.completion(words);
            self.with_line(self.text + k, self.cursor + k.len())
        }
    }

    /// One candidate: the completion in place. Several: the candidates on a
    /// line of their own, then the prompt and the completed line below.
    pub open spec fn complete_out(self, words: Seq<Seq<char>>) -> Seq<char> {
        if words.len() == 0 {
            seq![]
        } else if words.len() == 1 {
            self.completion(words)
        } else {
            seq!['\n'] + spaced(words) + seq!['\n'] + self.prompt + self.complete(words).text
        }
    }
}

/// The state after `k` recalls of the previous history entry.
pub open spec fn prev_n(s: CliView, k: nat) -> CliView
    decreases k,
{
    if k == 0 {
        s
    } else {
        prev_n(s, (k - 1) as nat).prev()
    }
}

/// The state after `k` recalls of the next history entry.
pub open spec fn next_n(s: CliView, k: nat) -> CliView
    decreases k,
{
    if k == 0 {
        s
    } else {
        next_n(s, (k - 1) as nat).next()
    }
}

proof fn lemma_prev_n(s: CliView, j: nat)
    requires
        s.wf(),
        s.position is None,
        1 <= j <= s.entries.len(),
    ensures
        prev_n(s, j).entries == s.entries,
        prev_n(s, j).position == Some((s.entries.len() - j) as nat),
        prev_n(s, j).text == s.entries[s.entries.len() - j],
        prev_n(s, j).cursor == s.entries[s.entries.len() - j].len(),
    decreases j,
{
    let q = prev_n(s, (j - 1) as nat);
    assert(prev_n(s, j) == q.prev());
    if j > 1 {
        lemma_prev_n(s, (j - 1) as nat);
    } else {
        assert(q == s);
    }
    assert(q.prev_position() == Some((s.entries.len() - j) as nat));
}

proof fn lemma_next_n(t: CliView, m: nat, j: nat)
    requires
        t.position == Some(m),
        m < t.entries.len(),
        t.text == t.entries[m as int],
        t.cursor == t.entries[m as int].len(),
        j <= t.entries.len() - m,
    ensures
        next_n(t, j).entries == t.entries,
        j < t.entries.len() - m ==> next_n(t, j).position == Some(m + j),
        j == t.entries.len() - m ==> next_n(t, j).position is None,
        next_n(t, j).text == t.entries[m + j - (if j == t.entries.len() - m { 1int } else { 0int })],
        next_n(t, j).cursor == next_n(t, j).text.len(),
    decreases j,
{
    if j > 0 {
        lemma_next_n(t, m, (j - 1) as nat);
    }
}

/// Recalling the previous entry `k` times and then the next one `k` times,
/// from a line that recalls nothing and with `k` at most the number of
/// entries, ends on a line that recalls nothing again, with the history
/// unchanged. The line is unchanged when `k` is zero; otherwise it holds the
/// newest entry, with the cursor at its end: stepping past the newest entry
/// does not clear the line. So the line returns to what it was before when
/// `k` is zero or when it already held the newest entry.
pub proof fn lemma_history_round_trip(s: CliView, k: nat)
    requires
        s.wf(),
        s.position is None,
        k <= s.entries.len(),
    ensures
        next_n(prev_n(s, k), k).position is None,
        next_n(prev_n(s, k), k).entries == s.entries,
        k > 0 ==> next_n(prev_n(s, k), k).text == s.entries.last(),
        k > 0 ==> next_n(prev_n(s, k), k).cursor == s.entries.last().len(),
        (k == 0 || (s.text == s.entries.last() && s.cursor == s.text.len())) ==> next_n(
            prev_n(s, k),
            k,
        ).text == s.text && next_n(prev_n(s, k), k).cursor == s.cursor,
{
    if k > 0 {
        lemma_prev_n(s, k);
        let t = prev_n(s, k);
        lemma_next_n(t, (s.entries.len() - k) as nat, k);
    }
}

/// An interactive command line: the prompt, the line being edited, the
/// history of submitted lines and the escape-sequence decoder.
pub struct Cli {
    do_reset: bool,
    prompt: Vec<char>,
    cmd: Vec<char>,
    cursor: usize,
    history: Vec<Vec<char>>,
    history_idx: Option<usize>,
    decoder: Decoder,
}

/// The views of a vector of character vectors.
pub open spec fn lines(v: Seq<Vec<char>>) -> Seq<Seq<char>> {
    v.map_values(|l: Vec<char>| l@)
}

impl View for Cli {
    type V = CliView;

    closed spec fn view(&self) -> CliView {
        CliView {
            needs_reset: self.do_reset,
            prompt: self.prompt@,
            text: self.cmd@,
            cursor: self.cursor as nat,
            entries: lines(self.history@),
            position: match self.history_idx {
                Some(i) => Some(i as nat),
                None => None,
            },
            decoder: self.decoder,
        }
    }
}

/// A copy of `v`.
fn copy_line(v: &Vec<char>) -> (r: Vec<char>)
    ensures
        r@ == v@,
{
    let mut r: Vec<char> = Vec::new();
    let mut i: usize = 0;
    while i < v.len()
        invariant
            i <= v@.len(),
            r@ == v@.take(i as int),
        decreases v@.len() - i,
    {
        r.push(v[i]);
        i += 1;
        assert(r@ == v@.take(i as int));
    }
    assert(v@.take(v@.len() as int) == v@);
    r
}

/// Appends the characters of `text`.
fn push_str(out: &mut String, text: &str)
    ensures
        final(out)@ == old(out)@ + text@,
{
    let chars = str_to_chars(text);
    push_chars(out, &chars);
}

/// Appends the report of an unknown selector byte `b`.
fn push_unhandled(out: &mut String, b: u8)
    ensures
        final(out)@ == old(out)@ + unhandled_msg(b),
{
    push_str(out, "Unhandled ANSI Escape Sequence: ");
    push_decimal(out, b as usize);
    push_char(out, '\n');
}

/// Appends the report of a character `c` where `~` was due.
fn push_unexpected(out: &mut String, c: char)
    ensures
        final(out)@ == old(out)@ + unexpected_msg(c),
{
    push_str(out, "Unexpected character ");
    push_char(out, c);
    push_char(out, '\n');
}

impl Cli {
    /// A fresh editor: empty line and history, prompt `"> "`, a fresh line due.
    pub fn new() -> (r: Cli)
        ensures
            r@.wf(),
            r@.needs_reset,
            r@.prompt == seq!['>', ' '],
            r@.text == Seq::<char>::empty(),
            r@.cursor == 0,
            r@.entries == Seq::<Seq<char>>::empty(),
            r@.position is None,
            r@.decoder == Decoder::Normal,
    {
        let r = Cli {
            do_reset: true,
            prompt: vec!['>', ' '],
            cmd: Vec::new(),
            cursor: 0,
            history: Vec::new(),
            history_idx: None,
            decoder: Decoder::Normal,
        };
        assert(r@.prompt == seq!['>', ' ']);
        assert(r@.entries == Seq::<Seq<char>>::empty());
        r
    }

    /// The arguments of the line being edited.
    pub fn cmd2args(&self) -> (r: Vec<String>)
        ensures
            views(r@) == tokens_of(self@.text),
    {
        tokenize(&self.cmd)
    }

    /// Starts a fresh line: empties it, puts the cursor at its start, stops
    /// recalling history and writes the prompt.
    pub fn reset(&mut self, out: &mut String)
        ensures
            final(self)@ == old(self)@.fresh_line(),
            final(out)@ == old(out)@ + old(self)@.prompt,
    {
        self.cmd = Vec::new();
        self.cursor = 0;
        self.history_idx = None;
        push_chars(out, &self.prompt);
    }

    /// Moves the cursor to the start of the line.
    pub fn cursor_reset(&mut self, out: &mut String)
        requires
            old(self)@.wf(),
        ensures
            final(self)@ == old(self)@.home(),
            final(out)@ == old(out)@ + old(self)@.home_out(),
    {
        EscSeq::Left(self.cursor).write_to(out);
        self.cursor = 0;
    }

    /// Moves the cursor one character to the left, if it can move.
    pub fn cursor_left(&mut self, out: &mut String)
        requires
            old(self)@.wf(),
        ensures
            final(self)@ == old(self)@.left(),
            final(out)@ == old(out)@ + old(self)@.left_out(),
    {
        if self.cursor > 0 {
            EscSeq::Left(1).write_to(out);
            self.cursor -= 1;
        }
    }

    /// Moves the cursor one character to the right, if it can move.
    pub fn cursor_right(&mut self, out: &mut String)
        requires
            old(self)@.wf(),
        ensures
            final(self)@ == old(self)@.right(),
            final(out)@ == old(out)@ + old(self)@.right_out(),
    {
        if self.cursor < self.cmd.len() {
            EscSeq::Right(1).write_to(out);
            self.cursor += 1;
        }
    }

    /// Inserts `c` at the cursor.
    pub fn addchar(&mut self, c: char, out: &mut String)
        requires
            old(self)@.wf(),
        ensures
            final(self)@ == old(self)@.insert(c),
            final(out)@ == old(out)@ + old(self)@.insert_out(c),
    {
        let len = self.cmd.len();
        if self.cursor < len {
            push_char(out, c);
            push_suffix(out, &self.cmd, self.cursor);
            EscSeq::Left(len - self.cursor).write_to(out);
        } else {
            push_char(out, c);
        }
        self.cmd.insert(self.cursor, c);
        let n = self.cmd.len();
        assert(self.cursor < n);
        self.cursor += 1;
    }

    /// Deletes the character left of the cursor, if there is one.
    pub fn backspace(&mut self, out: &mut String)
        requires
            old(self)@.wf(),
        ensures
            final(self)@ == old(self)@.backspace(),
            final(out)@ == old(out)@ + old(self)@.backspace_out(),
            old(self)@.cursor == 0 ==> final(self)@ == old(self)@ && final(out)@ == old(out)@,
    {
        if self.cursor == 0 {
            return;
        }
        let len = self.cmd.len();
        push_char(out, '\x08');
        push_suffix(out, &self.cmd, self.cursor);
        push_char(out, ' ');
        EscSeq::Left(len - self.cursor + 1).write_to(out);
        self.cursor -= 1;
        self.cmd.remove(self.cursor);
    }

    /// Deletes the character under the cursor, unless it is the last one or there is none.
    pub fn suppr(&mut self, out: &mut String)
        requires
            old(self)@.wf(),
        ensures
            final(self)@ == old(self)@.delete_forward(),
            final(out)@ == old(out)@ + old(self)@.delete_forward_out(),
            old(self)@.cursor == old(self)@.text.len() ==> final(self)@ == old(self)@,
            old(self)@.cursor == old(self)@.text.len() ==> final(out)@ == old(out)@,
    {
        let len = self.cmd.len();
        if len > 0 && self.cursor < len - 1 {
            push_suffix(out, &self.cmd, self.cursor + 1);
            push_char(out, ' ');
            EscSeq::Left(len - self.cursor).write_to(out);
            self.cmd.remove(self.cursor);
        }
    }

    /// Copies the recalled history entry, if any, into the line and redraws it.
    fn history_restore(&mut self, out: &mut String)
        requires
            old(self)@.wf(),
        ensures
            final(self)@ == old(self)@.restore(),
            final(out)@ == old(out)@ + old(self)@.restore_out(),
    {
        match self.history_idx {
            Some(idx) => {
                self.cmd = copy_line(&self.history[idx]);
                self.cursor = self.cmd.len();
                EscSeq::EraseInLineAll.write_to(out);
                EscSeq::HorizontalAbs(0).write_to(out);
                push_chars(out, &self.prompt);
                push_chars(out, &self.cmd);
            },
            None => {},
        }
    }

    /// Recalls the previous history entry.
    pub fn history_prev(&mut self, out: &mut String)
        requires
            old(self)@.wf(),
        ensures
            final(self)@ == old(self)@.prev(),
            final(out)@ == old(out)@ + old(self)@.prev_out(),
    {
        self.history_idx = match self.history_idx {
            Some(idx) => if idx == 0 {
                Some(idx)
            } else {
                Some(idx - 1)
            },
            None => if self.history.len() == 0 {
                None
            } else {
                Some(self.history.len() - 1)
            },
        };
        self.history_restore(out);
    }

    /// Recalls the next history entry; past the newest, stops recalling.
    pub fn history_next(&mut self, out: &mut String)
        requires
            old(self)@.wf(),
        ensures
            final(self)@ == old(self)@.next(),
            final(out)@ == old(out)@ + old(self)@.next_out(),
    {
        let n = self.history.len();
        assert(lines(self.history@).len() == self.history@.len());
        self.history_idx = match self.history_idx {
            Some(idx) => if {
                assert(self@.position == Some(idx as nat));
                assert(idx < n);
                idx + 1 < n
            } {
                Some(idx + 1)
            } else {
                None
            },
            None => None,
        };
        self.history_restore(out);
    }

    /// Prepares for the next action: drops any escape sequence left
    /// unfinished and starts a fresh line after a submitted one. Returns what
    /// to write to the terminal.
    pub fn begin_action(&mut self) -> (out: String)
        requires
            old(self)@.wf(),
        ensures
            final(self)@ == old(self)@.begin(),
            final(self)@.wf(),
            out@ == old(self)@.begin_out(),
    {
        let mut out = String::new();
        self.decoder = Decoder::Normal;
        if self.do_reset {
            self.reset(&mut out);
            self.do_reset = false;
        }
        assert(out@ == seq![] + old(self)@.begin_out());
        assert(self@ == old(self)@.begin());
        out
    }

    /// Handles one input byte. Returns the action it completes, if any, and
    /// what to write to the terminal.
    ///
    /// Input is not decoded from UTF-8: each byte that is not a key of its
    /// own is inserted as the one character with that code (`b as char`),
    /// so the bytes 0x80 to 0xFF become U+0080 to U+00FF, and a character
    /// typed as several bytes arrives as several characters.
    pub fn feed(&mut self, b: u8) -> (r: (Option<Action>, String))
        requires
            old(self)@.wf(),
        ensures
            final(self)@ == old(self)@.feed(b),
            final(self)@.wf(),
            r.1@ == old(self)@.feed_out(b),
            event_of(r.0) == old(self)@.feed_event(b),
    {
        let mut out = String::new();
        let mut action: Option<Action> = None;
        match self.decoder {
            Decoder::Normal => {
                if b == 1 || b == 2 {
                    self.cursor_reset(&mut out);
                } else if b == 0x1B {
                    self.decoder = Decoder::SawEscape;
                } else if b == 0x7F {
                    self.backspace(&mut out);
                } else if b == 0x0A {
                    action = Some(Action::Command(self.eol(&mut out)));
                } else if b == 0x09 {
                    action = Some(Action::AutoComplete(self.cmd2args()));
                } else {
                    self.addchar(b as char, &mut out);
                }
            },
            Decoder::SawEscape => {
                self.decoder = if b == 0x5B {
                    Decoder::SawCsi
                } else {
                    Decoder::Normal
                };
            },
            Decoder::SawCsi => {
                if b == 0x33 {
                    self.decoder = Decoder::SawDelete;
                } else {
                    self.decoder = Decoder::Normal;
                    if b == 0x41 {
                        self.history_prev(&mut out);
                    } else if b == 0x42 {
                        self.history_next(&mut out);
                    } else if b == 0x43 {
                        self.cursor_right(&mut out);
                    } else if b == 0x44 {
                        self.cursor_left(&mut out);
                    } else {
                        push_unhandled(&mut out, b);
                    }
                }
            },
            Decoder::SawDelete => {
                self.decoder = Decoder::Normal;
                if b == 0x7E {
                    self.suppr(&mut out);
                } else {
                    push_unexpected(&mut out, b as char);
                }
            },
        }
        assert(out@ == old(self)@.feed_out(b));
        (action, out)
    }

    /// Completes the line with the candidate `words`, which must all start
    /// with the argument being typed: appends what follows that argument in
    /// their longest common prefix. Returns what to write to the terminal.
    pub fn autocomplete(&mut self, words: &Vec<String>) -> (out: String)
        requires
            old(self)@.wf(),
            forall|i: int|
                0 <= i < words@.len() ==> starts_with(#[trigger] words@[i]@, old(self)@.last_arg()),
        ensures
            final(self)@ == old(self)@.complete(views(words@)),
            final(self)@.wf(),
            out@ == old(self)@.complete_out(views(words@)),
    {
        let mut out = String::new();
        let ghost ws = views(words@);
        if words.len() == 0 {
            return out;
        }
        let common = str_to_chars(common_prefix(words).as_str());
        let args = tokenize(&self.cmd);
        proof {
            crate::tokenize::lemma_tokens_nonempty(self@.text);
            assert(views(args@).len() == args@.len());
            let p = old(self)@.last_arg();
            assert(views(args@)[args@.len() - 1] == args@[args@.len() - 1]@);
            assert forall|i: int| 0 <= i < ws.len() implies p.len() <= #[trigger] ws[i].len()
                && ws[i].take(p.len() as int) == p by {
                assert(ws[i] == words@[i]@);
            }
            lemma_prefix_of_all(ws, p, ws.len());
        }
        let last_len = args[args.len() - 1].as_str().unicode_len();
        let mut complete: Vec<char> = Vec::new();
        let mut i: usize = last_len;
        while i < common.len()
            invariant
                last_len <= i <= common@.len(),
                complete@ == common@.subrange(last_len as int, i as int),
            decreases common@.len() - i,
        {
            complete.push(common[i]);
            i += 1;
            assert(complete@ == common@.subrange(last_len as int, i as int));
        }
        assert(complete@ == old(self)@.completion(ws));
        if words.len() == 1 {
            push_chars(&mut out, &complete);
        } else {
            push_char(&mut out, '\n');
            let mut j: usize = 0;
            while j < words.len()
                invariant
                    ws == views(words@),
                    j <= words@.len(),
                    out@ == seq!['\n'] + spaced(ws.take(j as int)),
                decreases words@.len() - j,
            {
                push_str(&mut out, words[j].as_str());
                push_char(&mut out, ' ');
                j += 1;
                assert(ws.take(j as int).drop_last() == ws.take(j - 1));
                assert(out@ == seq!['\n'] + spaced(ws.take(j as int)));
            }
            assert(ws.take(words@.len() as int) == ws);
        }
        let mut j: usize = 0;
        while j < complete.len()
            invariant
                j <= complete@.len(),
                self@ == old(self)@.with_line(
                    old(self)@.text + complete@.take(j as int),
                    old(self)@.cursor,
                ),
            decreases complete@.len() - j,
        {
            self.cmd.push(complete[j]);
            j += 1;
            assert(old(self)@.text + complete@.take(j as int) == (old(self)@.text
                + complete@.take(j - 1)).push(complete@[j - 1]));
        }
        assert(complete@.take(complete@.len() as int) == complete@);
        let len = self.cmd.len();
        assert(self.cursor + complete@.len() <= len);
        self.cursor = self.cursor + complete.len();
        if words.len() > 1 {
            push_char(&mut out, '\n');
            push_chars(&mut out, &self.prompt);
            push_chars(&mut out, &self.cmd);
        }
        out
    }

    /// Sets the prompt.
    pub fn setprompt(&mut self, prompt: &str) -> (r: &mut Self)
        ensures
            r@ == (CliView { prompt: prompt@, ..old(self)@ }),
            *final(self) == *final(r),
    {
        self.prompt = str_to_chars(prompt);
        self
    }

    /// The line being edited.
    pub fn line(&self) -> (r: String)
        ensures
            r@ == self@.text,
    {
        crate::text::chars_to_string(&self.cmd)
    }

    /// The cursor position, in characters from the start of the line.
    pub fn cursor(&self) -> (r: usize)
        ensures
            r == self@.cursor,
    {
        self.cursor
    }

    /// The submitted lines, oldest first.
    pub fn history(&self) -> (r: Vec<String>)
        ensures
            views(r@) == self@.entries,
    {
        let mut r: Vec<String> = Vec::new();
        let mut i: usize = 0;
        while i < self.history.len()
            invariant
                i <= self.history@.len(),
                views(r@) == self@.entries.take(i as int),
            decreases self.history@.len() - i,
        {
            let ghost before = r@;
            r.push(crate::text::chars_to_string(&self.history[i]));
            i += 1;
            assert(views(r@) == views(before).push(self.history@[i - 1]@));
            assert(self@.entries.take(i as int) == self@.entries.take(i - 1).push(
                self@.entries[i - 1],
            ));
        }
        assert(self@.entries.take(self.history@.len() as int) == self@.entries);
        r
    }

    /// The history entry being recalled, if any.
    pub fn history_position(&self) -> (r: Option<usize>)
        ensures
            r matches Some(i) ==> self@.position == Some(i as nat),
            r is None ==> self@.position is None,
    {
        self.history_idx
    }

    /// Ends the line: returns its arguments and records it in the history
    /// when its first argument is not empty.
    pub fn eol(&mut self, out: &mut String) -> (r: Vec<String>)
        requires
            old(self)@.wf(),
        ensures
            final(self)@ == old(self)@.submit(),
            final(out)@ == old(out)@ + seq!['\n'],
            views(r@) == tokens_of(old(self)@.text),
            old(self)@.text.len() == 0 ==> final(self)@.entries == old(self)@.entries,
            r@[0]@.len() > 0 ==> final(self)@.entries == old(self)@.entries.push(old(self)@.text),
            r@[0]@.len() == 0 ==> final(self)@.entries == old(self)@.entries,
    {
        assert(old(self)@.text.len() == 0 ==> tokens_of(old(self)@.text) == seq![
            Seq::<char>::empty(),
        ]);
        push_char(out, '\n');
        let args = tokenize(&self.cmd);
        assert(views(args@).len() == args@.len());
        proof {
            crate::tokenize::lemma_tokens_nonempty(old(self)@.text);
        }
        assert(views(args@)[0] == args@[0]@);
        if !args[0].as_str().is_empty() {
            let line = copy_line(&self.cmd);
            self.history.push(line);
            assert(lines(self.history@) == lines(old(self).history@).push(old(self)@.text));
        }
        self.do_reset = true;
        args
    }
}

} // verus!
