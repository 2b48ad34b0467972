//! The data that the library keeps: projects, their terminals and the output
//! that the terminals have produced, and the values handed to the user
//! interface.

use crate::text::{chars_of, first_in, lemma_first_in, pieces, rows, split_by, string_of, CharClass};
use vstd::prelude::*;
use vstd::string::*;

verus! {

/// What a remote command gave when it ran to its end.
#[derive(Debug, Clone, PartialEq, Eq)]
pub struct CommandOutput {
    pub stdout: String,
    pub stderr: String,
    pub exit_status: u32,
}

/// The lines, each followed by a line feed, one after the other.
pub open spec fn unlines(lines: Seq<Seq<char>>) -> Seq<char>
    decreases lines.len(),
{
    if lines.len() == 0 {
        Seq::empty()
    } else {
        unlines(lines.drop_last()) + lines.last().push('\n')
    }
}

/// `unlines` of two runs of lines is `unlines` of the first, then of the
/// second.
pub proof fn lemma_unlines_add(a: Seq<Seq<char>>, b: Seq<Seq<char>>)
    ensures
        unlines(a + b) == unlines(a) + unlines(b),
    decreases b.len(),
{
    if b.len() == 0 {
        assert(a + b =~= a);
        assert(unlines(a) + unlines(b) =~= unlines(a));
    } else {
        assert((a + b).drop_last() =~= a + b.drop_last());
        assert((a + b).last() == b.last());
        lemma_unlines_add(a, b.drop_last());
        assert(unlines(a + b) =~= unlines(a) + unlines(b));
    }
}

/// Splitting at line feeds loses nothing: all parts but the last, each with its
/// line feed, and then the last part, are the text that was split.
pub proof fn lemma_pieces_unlines(s: Seq<char>)
    ensures
        pieces(s, CharClass::Is('\n')).len() >= 1,
        unlines(pieces(s, CharClass::Is('\n')).drop_last()) + pieces(
            s,
            CharClass::Is('\n'),
        ).last() == s,
    decreases s.len(),
{
    let class = CharClass::Is('\n');
    let n = first_in(s, class);
    lemma_first_in(s, class);
    if 0 <= n < s.len() {
        let rest = s.skip(n + 1);
        lemma_pieces_unlines(rest);
        let tail = pieces(rest, class);
        let all = pieces(s, class);
        assert(all == seq![s.take(n)] + tail);
        assert(all.drop_last() =~= seq![s.take(n)] + tail.drop_last());
        assert(all.last() == tail.last());
        lemma_unlines_add(seq![s.take(n)], tail.drop_last());
        assert(seq![s.take(n)].drop_last() =~= Seq::<Seq<char>>::empty());
        assert(unlines(Seq::<Seq<char>>::empty()) =~= Seq::<char>::empty());
        assert(unlines(seq![s.take(n)]) =~= s.take(n).push('\n'));
        assert(s[n] == '\n');
        assert(s.take(n).push('\n') + rest =~= s);
        assert(unlines(all.drop_last()) + all.last() =~= s.take(n).push('\n') + (unlines(
            tail.drop_last(),
        ) + tail.last()));
    } else {
        assert(pieces(s, class) == seq![s]);
        assert(seq![s].drop_last() =~= Seq::<Seq<char>>::empty());
        assert(unlines(Seq::<Seq<char>>::empty()) =~= Seq::<char>::empty());
        assert(unlines(seq![s].drop_last()) + s =~= s);
    }
}

/// What complete lines and the text after them become when `text` is printed:
/// every line feed completes a line, and what follows the last one waits for
/// more.
pub open spec fn appended(lines: Seq<Seq<char>>, partial: Seq<char>, text: Seq<char>) -> (
    Seq<Seq<char>>,
    Seq<char>,
) {
    let parts = pieces(partial + text, CharClass::Is('\n'));
    (lines + parts.drop_last(), parts.last())
}

/// Splitting a text that continues with more text: the parts of the first text
/// but the last stay as they are, and the last part goes on into the second
/// text.
pub proof fn lemma_pieces_add(x: Seq<char>, y: Seq<char>, class: CharClass)
    ensures
        pieces(x, class).len() >= 1,
        pieces(x + y, class) == pieces(x, class).drop_last() + pieces(
            pieces(x, class).last() + y,
            class,
        ),
    decreases x.len(),
{
    let n = first_in(x, class);
    lemma_first_in(x, class);
    if 0 <= n < x.len() {
        let rest = x.skip(n + 1);
        assert forall|j: int| 0 <= j < n implies !class.holds(#[trigger] (x + y)[j]) by {
            assert((x + y)[j] == x[j]);
        }
        assert((x + y)[n] == x[n]);
        crate::text::lemma_first_in_is(x + y, class, n);
        assert((x + y).take(n) =~= x.take(n));
        assert((x + y).skip(n + 1) =~= rest + y);
        lemma_pieces_add(rest, y, class);
        let tail = pieces(rest, class);
        assert(pieces(x, class) == seq![x.take(n)] + tail);
        assert(pieces(x, class).drop_last() =~= seq![x.take(n)] + tail.drop_last());
        assert(pieces(x, class).last() == tail.last());
        assert(pieces(x + y, class) =~= pieces(x, class).drop_last() + pieces(
            pieces(x, class).last() + y,
            class,
        ));
    } else {
        assert(pieces(x, class) == seq![x]);
        assert(seq![x].drop_last() =~= Seq::<Seq<char>>::empty());
        assert(pieces(x + y, class) =~= seq![x].drop_last() + pieces(x + y, class));
    }
}

/// Output printed in two parts gives the lines, and the text after them, that
/// it gives when printed in one: where the output is cut does not matter.
pub proof fn lemma_appended_in_parts(
    lines: Seq<Seq<char>>,
    partial: Seq<char>,
    first: Seq<char>,
    second: Seq<char>,
)
    ensures
        appended(
            appended(lines, partial, first).0,
            appended(lines, partial, first).1,
            second,
        ) == appended(lines, partial, first + second),
{
    let class = CharClass::Is('\n');
    lemma_pieces_add(partial + first, second, class);
    assert((partial + first) + second =~= partial + (first + second));
    let one = pieces(partial + first, class);
    let two = pieces(one.last() + second, class);
    lemma_pieces_add(one.last(), second, class);
    let all = pieces(partial + (first + second), class);
    assert(all == one.drop_last() + two);
    assert(all.drop_last() =~= one.drop_last() + two.drop_last());
    assert(all.last() == two.last());
    assert((lines + one.drop_last()) + two.drop_last() =~= lines + all.drop_last());
}

/// The output of a terminal: the lines that are complete, and the text after
/// the last line feed, which the next output continues.
#[derive(Debug, Clone, PartialEq, Eq)]
pub struct OutputBuffer {
    pub lines: Vec<String>,
    pub partial: String,
}

impl OutputBuffer {
    /// All the output as one text.
    pub open spec fn text(&self) -> Seq<char> {
        unlines(self.lines.deep_view()) + self.partial@
    }

    /// What a reader sees: the complete lines, and after them the text that no
    /// line feed has ended yet, if there is any.
    pub open spec fn visible(&self) -> Seq<Seq<char>> {
        if self.partial@.len() > 0 {
            self.lines.deep_view().push(self.partial@)
        } else {
            self.lines.deep_view()
        }
    }

    /// A buffer that holds no output.
    pub fn new() -> (b: OutputBuffer)
        ensures
            b.lines@.len() == 0,
            b.partial@.len() == 0,
            b.text() == Seq::<char>::empty(),
            b.visible() == Seq::<Seq<char>>::empty(),
    {
        let b = OutputBuffer { lines: Vec::new(), partial: String::new() };
        assert(b.lines.deep_view() =~= Seq::<Seq<char>>::empty());
        assert(b.text() =~= Seq::<char>::empty());
        b
    }

    /// Takes in more output. Every line feed in it completes a line; what
    /// follows the last one waits for more.
    pub fn append(&mut self, text: &str)
        ensures
            (final(self).lines.deep_view(), final(self).partial@) == appended(
                old(self).lines.deep_view(),
                old(self).partial@,
                text@,
            ),
            final(self).text() == old(self).text() + text@,
    {
        let mut all = chars_of(self.partial.as_str());
        let more = chars_of(text);
        let mut k: usize = 0;
        while k < more.len()
            invariant
                k <= more.len(),
                all@ == old(self).partial@ + more@.take(k as int),
            decreases more.len() - k,
        {
            all.push(more[k]);
            assert(more@.take(k + 1) == more@.take(k as int).push(more@[k as int]));
            k = k + 1;
        }
        assert(more@.take(more.len() as int) == more@);
        let parts = split_by(&all, CharClass::Is('\n'));
        let ghost split = pieces(all@, CharClass::Is('\n'));
        proof {
            lemma_pieces_unlines(all@);
        }
        let last: usize = parts.len() - 1;
        let mut i: usize = 0;
        while i < last
            invariant
                i <= last,
                last + 1 == parts.len(),
                rows(parts@) == split,
                self.lines.deep_view() == old(self).lines.deep_view() + split.take(i as int),
            decreases last - i,
        {
            let ghost before = self.lines.deep_view();
            let line = string_of(&parts[i]);
            assert(line@ == split[i as int]);
            self.lines.push(line);
            assert(self.lines.deep_view() =~= before.push(split[i as int]));
            assert(split.take(i + 1) == split.take(i as int).push(split[i as int]));
            i = i + 1;
        }
        self.partial = string_of(&parts[last]);
        proof {
            assert(split.take(last as int) == split.drop_last());
            assert(self.partial@ == split.last());
            lemma_unlines_add(old(self).lines.deep_view(), split.drop_last());
            let held = unlines(old(self).lines.deep_view());
            let fresh = unlines(split.drop_last());
            assert(fresh + split.last() == all@);
            assert(self.text() == (held + fresh) + split.last());
            assert((held + fresh) + split.last() =~= held + (fresh + split.last()));
            assert(held + (old(self).partial@ + text@) =~= (held + old(self).partial@) + text@);
        }
    }

    /// Ends the output: text that no line feed has ended becomes the last line.
    pub fn finish(&mut self)
        ensures
            final(self).lines.deep_view() == old(self).visible(),
            final(self).partial@.len() == 0,
            final(self).visible() == old(self).visible(),
    {
        if self.partial.as_str().unicode_len() > 0 {
            let ghost before = self.lines.deep_view();
            let mut rest = String::new();
            std::mem::swap(&mut rest, &mut self.partial);
            self.lines.push(rest);
            assert(self.lines.deep_view() =~= before.push(rest@));
        }
    }

    /// Adds a complete line after what is there: text that no line feed has
    /// ended becomes a line first.
    pub fn push_line(&mut self, line: String)
        ensures
            final(self).lines.deep_view() == old(self).visible().push(line@),
            final(self).partial@.len() == 0,
    {
        self.finish();
        let ghost before = self.lines.deep_view();
        self.lines.push(line);
        assert(self.lines.deep_view() =~= before.push(line@));
    }

    /// Forgets all output.
    pub fn clear(&mut self)
        ensures
            final(self).lines@.len() == 0,
            final(self).partial@.len() == 0,
            final(self).visible() == Seq::<Seq<char>>::empty(),
            final(self).text() == Seq::<char>::empty(),
    {
        self.lines.clear();
        self.partial = String::new();
        assert(self.lines.deep_view() =~= Seq::<Seq<char>>::empty());
        assert(self.text() =~= Seq::<char>::empty());
    }

    /// What a reader sees, as strings of their own.
    pub fn snapshot(&self) -> (r: Vec<String>)
        ensures
            r.deep_view() == self.visible(),
    {
        let mut out: Vec<String> = Vec::new();
        let mut i: usize = 0;
        assert(out.deep_view() =~= self.lines.deep_view().take(0));
        while i < self.lines.len()
            invariant
                i <= self.lines.len(),
                out.deep_view() == self.lines.deep_view().take(i as int),
            decreases self.lines.len() - i,
        {
            let ghost before = out.deep_view();
            let line = self.lines[i].clone();
            out.push(line);
            assert(out.deep_view() =~= before.push(line@));
            assert(self.lines.deep_view().take(i + 1) =~= self.lines.deep_view().take(
                i as int,
            ).push(self.lines@[i as int]@));
            i = i + 1;
        }
        assert(self.lines.deep_view().take(self.lines.len() as int) =~= self.lines.deep_view());
        if self.partial.as_str().unicode_len() > 0 {
            let ghost before = out.deep_view();
            let rest = self.partial.clone();
            out.push(rest);
            assert(out.deep_view() =~= before.push(self.partial@));
        }
        out
    }
}

/// A running task that feeds input to a terminal: the sink to send input to,
/// and the command that takes it.
#[derive(Debug, Clone, PartialEq, Eq)]
pub struct TerminalExecution<I> {
    pub stdin_tx: I,
    pub command: String,
}

/// Where a terminal stands in its life.
#[derive(Debug, Clone, Copy, PartialEq, Eq)]
pub enum TerminalState {
    /// Made, its shell not attached yet.
    Starting,
    /// Its shell is attached and takes input.
    Running,
    /// Its shell has ended or never started.
    Closed,
}

impl TerminalState {
    /// Whether a terminal in this state may come to be in the state `next`: a
    /// terminal starts, then runs, then is closed, and may be closed without
    /// having run; it never goes back.
    pub open spec fn may_become(self, next: TerminalState) -> bool {
        ||| self == next
        ||| self is Starting
        ||| self is Running && next is Closed
    }
}

/// An interactive shell of a project.
#[derive(Debug, Clone, PartialEq, Eq)]
pub struct TerminalConnection<I> {
    pub id: String,
    pub content_lines: OutputBuffer,
    pub current_executions: Vec<TerminalExecution<I>>,
    /// The directory that the shell was opened in; it does not follow the
    /// shell's own changes of directory.
    pub path: String,
    pub state: TerminalState,
}

/// One remote host that the user works on: the session for single commands,
/// the inputs it was authenticated with, and its terminals.
#[derive(Debug, Clone, PartialEq, Eq)]
pub struct Project<S, I> {
    pub key: String,
    pub name: String,
    pub user: String,
    pub host: String,
    pub password: Option<String>,
    pub key_file: Option<String>,
    pub public_key_file: Option<String>,
    pub auth_method: String,
    pub main_connection: S,
    pub terminal_connections: Vec<TerminalConnection<I>>,
}

/// What the user interface is told of a project.
#[derive(Debug, Clone, PartialEq, Eq)]
pub struct ProjectInfo {
    pub key: String,
    pub name: String,
    pub user: String,
    pub host: String,
    pub auth_method: String,
}

/// One entry of a remote directory.
#[derive(Debug, Clone, PartialEq, Eq)]
pub struct DirEntry {
    pub name: String,
    pub is_dir: bool,
    pub is_linked: bool,
    pub size: String,
    pub permissions: String,
    pub modified: String,
}

/// What a `DirEntry` holds.
pub struct DirEntryView {
    pub name: Seq<char>,
    pub is_dir: bool,
    pub is_linked: bool,
    pub size: Seq<char>,
    pub permissions: Seq<char>,
    pub modified: Seq<char>,
}

impl View for DirEntry {
    type V = DirEntryView;

    open spec fn view(&self) -> DirEntryView {
        DirEntryView {
            name: self.name@,
            is_dir: self.is_dir,
            is_linked: self.is_linked,
            size: self.size@,
            permissions: self.permissions@,
            modified: self.modified@,
        }
    }
}

} // verus!
