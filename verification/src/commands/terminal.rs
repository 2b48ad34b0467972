//! The interactive shells of a project: opening and closing them, sending
//! input, and keeping what they print.

use crate::commands::{check, checked, ExecEvent, Request};
use crate::error::{CommandError, Error, LookupError};
use crate::models::{
    appended, OutputBuffer, Project, TerminalConnection, TerminalExecution, TerminalState,
};
use crate::seqs::{
    lemma_filter_first, lemma_filter_out, lemma_position, lemma_position_is, position,
};
use crate::state::{
    contains_key, get_project_by_key, project_index, project_of, unique_keys, with_key, Registry,
};
use crate::text::{opt_chars, str_eq};
use vstd::prelude::*;
use vstd::string::*;
use vstd::utf8::*;

verus! {

/// The terminals with the id.
pub open spec fn with_id<I>(id: Seq<char>) -> spec_fn(TerminalConnection<I>) -> bool {
    |t: TerminalConnection<I>| t.id@ == id
}

/// The terminals with another id.
pub open spec fn other_id<I>(id: Seq<char>) -> spec_fn(TerminalConnection<I>) -> bool {
    |t: TerminalConnection<I>| t.id@ != id
}

/// Whether a terminal of `terminals` has the id.
pub open spec fn has_terminal<I>(terminals: Seq<TerminalConnection<I>>, id: Seq<char>) -> bool {
    position(terminals, with_id(id)) < terminals.len()
}

/// The first terminal of `terminals` with the id.
pub open spec fn terminal_of<I>(
    terminals: Seq<TerminalConnection<I>>,
    id: Seq<char>,
) -> TerminalConnection<I> {
    terminals[position(terminals, with_id(id))]
}

/// The terminals of the first project with the key.
pub open spec fn terminals_of<S, I>(projects: Seq<Project<S, I>>, key: Seq<char>) -> Seq<
    TerminalConnection<I>,
> {
    project_of(projects, key).terminal_connections@
}

/// Why nothing can be done with a terminal: no project has the key, or the
/// project has no terminal with the id.
pub open spec fn lookup_error<S, I>(
    projects: Seq<Project<S, I>>,
    key: Seq<char>,
    id: Seq<char>,
) -> Option<LookupError> {
    if !contains_key(projects, key) {
        Some(LookupError::ProjectNotFound)
    } else if !has_terminal(terminals_of(projects, key), id) {
        Some(LookupError::TerminalNotFound)
    } else {
        None
    }
}

/// The index of the first terminal with the id.
pub fn terminal_index<I>(terminals: &Vec<TerminalConnection<I>>, id: &str) -> (r: Option<usize>)
    ensures
        match r {
            Some(i) => i < terminals@.len() && i == position(terminals@, with_id(id@)),
            None => position(terminals@, with_id(id@)) == terminals@.len(),
        },
        r is Some <==> has_terminal(terminals@, id@),
{
    let mut i: usize = 0;
    while i < terminals.len()
        invariant
            i <= terminals.len(),
            forall|j: int| 0 <= j < i ==> !with_id::<I>(id@)(#[trigger] terminals@[j]),
        decreases terminals.len() - i,
    {
        if str_eq(terminals[i].id.as_str(), id) {
            proof {
                lemma_position_is(terminals@, with_id(id@), i as int);
            }
            return Some(i);
        }
        i = i + 1;
    }
    proof {
        lemma_position_is(terminals@, with_id(id@), i as int);
    }
    None
}

/// Where the first terminal with the id stands in the first project with the
/// key: the index of the project and that of the terminal.
pub fn locate<S, I>(registry: &Registry<S, I>, key: &str, terminal_id: &str) -> (r: Result<
    (usize, usize),
    LookupError,
>)
    ensures
        match r {
            Ok((p, t)) => {
                &&& lookup_error(registry@, key@, terminal_id@) is None
                &&& p == position(registry@, with_key(key@))
                &&& p < registry@.len()
                &&& t == position(terminals_of(registry@, key@), with_id(terminal_id@))
                &&& t < terminals_of(registry@, key@).len()
                &&& registry@[p as int] == project_of(registry@, key@)
                &&& registry@[p as int].terminal_connections@[t as int] == terminal_of(
                    terminals_of(registry@, key@),
                    terminal_id@,
                )
            },
            Err(e) => lookup_error(registry@, key@, terminal_id@) == Some(e),
        },
{
    match project_index(registry, key) {
        Some(p) => match terminal_index(&registry.projects[p].terminal_connections, terminal_id) {
            Some(t) => Ok((p, t)),
            None => Err(LookupError::TerminalNotFound),
        },
        None => Err(LookupError::ProjectNotFound),
    }
}

/// Bytes to send to the shell of a terminal.
#[derive(Debug, Clone, PartialEq, Eq)]
pub struct Input<'a, I> {
    pub sink: &'a I,
    pub data: Vec<u8>,
}

/// Why no input can be sent to a terminal: it cannot be found, or no shell of
/// it is running.
pub open spec fn input_error<S, I>(
    projects: Seq<Project<S, I>>,
    key: Seq<char>,
    id: Seq<char>,
) -> Option<Error> {
    match lookup_error(projects, key, id) {
        Some(e) => Some(Error::Lookup(e)),
        None => if terminal_of(terminals_of(projects, key), id).current_executions@.len() == 0 {
            Some(Error::Command(CommandError::NoActiveShell))
        } else {
            None
        },
    }
}

/// Whether `r` hands `data` to the running shell of the terminal, or says why
/// it cannot.
pub open spec fn sends<S, I>(
    r: Result<Input<'_, I>, Error>,
    projects: Seq<Project<S, I>>,
    key: Seq<char>,
    id: Seq<char>,
    data: Seq<u8>,
) -> bool {
    match r {
        Ok(input) => {
            &&& input_error(projects, key, id) is None
            &&& *input.sink == terminal_of(
                terminals_of(projects, key),
                id,
            ).current_executions@.last().stdin_tx
            &&& input.data@ == data
        },
        Err(e) => input_error(projects, key, id) == Some(e),
    }
}

/// Hands `data` to the shell that runs in the terminal.
fn input_for<'a, S, I>(
    registry: &'a Registry<S, I>,
    key: &str,
    terminal_id: &str,
    data: Vec<u8>,
) -> (r: Result<Input<'a, I>, Error>)
    ensures
        sends(r, registry@, key@, terminal_id@, data@),
{
    match locate(registry, key, terminal_id) {
        Ok((p, t)) => {
            let executions = &registry.projects[p].terminal_connections[t].current_executions;
            if executions.len() == 0 {
                Err(Error::Command(CommandError::NoActiveShell))
            } else {
                Ok(Input { sink: &executions[executions.len() - 1].stdin_tx, data })
            }
        },
        Err(e) => Err(Error::Lookup(e)),
    }
}

/// The bytes of a command line: the command, then one line feed.
pub open spec fn command_line(command: Seq<char>) -> Seq<u8> {
    encode_utf8(command).push(10u8)
}

/// Sends a command to the shell of a terminal, with one line feed after it.
pub fn execute_terminal_command<'a, S, I>(
    registry: &'a Registry<S, I>,
    key: &str,
    terminal_id: &str,
    command: &str,
) -> (r: Result<Input<'a, I>, Error>)
    ensures
        sends(r, registry@, key@, terminal_id@, command_line(command@)),
{
    let mut data = command.as_bytes_vec();
    data.push(10u8);
    input_for(registry, key, terminal_id, data)
}

/// Sends input to the shell of a terminal as it is, with nothing added.
pub fn send_terminal_input<'a, S, I>(
    registry: &'a Registry<S, I>,
    key: &str,
    terminal_id: &str,
    input: &str,
) -> (r: Result<Input<'a, I>, Error>)
    ensures
        sends(r, registry@, key@, terminal_id@, encode_utf8(input@)),
{
    let data = input.as_bytes_vec();
    input_for(registry, key, terminal_id, data)
}

/// Asks the shell of a terminal for its working directory. The answer comes
/// with the terminal's output, like that of any other command.
pub fn get_terminal_pwd<'a, S, I>(registry: &'a Registry<S, I>, key: &str, terminal_id: &str) -> (r:
    Result<Input<'a, I>, Error>)
    ensures
        sends(r, registry@, key@, terminal_id@, command_line("pwd"@)),
{
    execute_terminal_command(registry, key, terminal_id, "pwd")
}

/// The ids of the terminals of a project and the directories they were opened
/// in, in the order in which the terminals were opened.
pub fn list_terminals<S, I>(registry: &Registry<S, I>, key: &str) -> (r: Result<
    Vec<(String, String)>,
    LookupError,
>)
    ensures
        match r {
            Ok(list) => {
                &&& contains_key(registry@, key@)
                &&& list@.len() == terminals_of(registry@, key@).len()
                &&& forall|i: int|
                    0 <= i < list@.len() ==> (#[trigger] list@[i]).0 == terminals_of(
                        registry@,
                        key@,
                    )[i].id && list@[i].1 == terminals_of(registry@, key@)[i].path
            },
            Err(e) => e == LookupError::ProjectNotFound && !contains_key(registry@, key@),
        },
{
    match project_index(registry, key) {
        Some(p) => {
            let terminals = &registry.projects[p].terminal_connections;
            let mut list: Vec<(String, String)> = Vec::new();
            let mut i: usize = 0;
            while i < terminals.len()
                invariant
                    i <= terminals.len(),
                    list@.len() == i,
                    forall|j: int|
                        0 <= j < i ==> (#[trigger] list@[j]).0 == terminals@[j].id && list@[j].1
                            == terminals@[j].path,
                decreases terminals.len() - i,
            {
                list.push((terminals[i].id.clone(), terminals[i].path.clone()));
                i = i + 1;
            }
            Ok(list)
        },
        None => Err(LookupError::ProjectNotFound),
    }
}

/// What a terminal has printed, as a reader sees it: its complete lines, then
/// the text that no line feed has ended yet.
pub fn get_terminal_content<S, I>(registry: &Registry<S, I>, key: &str, terminal_id: &str) -> (r:
    Result<Vec<String>, LookupError>)
    ensures
        match r {
            Ok(lines) => lookup_error(registry@, key@, terminal_id@) is None && lines.deep_view()
                == terminal_of(terminals_of(registry@, key@), terminal_id@).content_lines.visible(),
            Err(e) => lookup_error(registry@, key@, terminal_id@) == Some(e),
        },
{
    let (p, t) = locate(registry, key, terminal_id)?;
    Ok(registry.projects[p].terminal_connections[t].content_lines.snapshot())
}

/// Whether `after` is `before` with at most its terminals changed.
pub open spec fn same_but_terminals<S, I>(before: Project<S, I>, after: Project<S, I>) -> bool {
    &&& after.key == before.key
    &&& after.name == before.name
    &&& after.user == before.user
    &&& after.host == before.host
    &&& after.password == before.password
    &&& after.key_file == before.key_file
    &&& after.public_key_file == before.public_key_file
    &&& after.auth_method == before.auth_method
    &&& after.main_connection == before.main_connection
}

/// Whether `after` is `before` with at most the terminals of the project at
/// index `p` changed.
pub open spec fn one_project_changed<S, I>(
    before: Seq<Project<S, I>>,
    after: Seq<Project<S, I>>,
    p: int,
) -> bool {
    &&& after.len() == before.len()
    &&& forall|j: int| 0 <= j < before.len() && j != p ==> after[j] == before[j]
    &&& same_but_terminals(before[p], after[p])
}

/// Whether `after` is `before` with at most one terminal changed, the one at
/// index `t` of the project at index `p`, and that one with the id and the
/// path it had.
pub open spec fn one_terminal_changed<S, I>(
    before: Seq<Project<S, I>>,
    after: Seq<Project<S, I>>,
    p: int,
    t: int,
) -> bool {
    &&& one_project_changed(before, after, p)
    &&& after[p].terminal_connections@.len() == before[p].terminal_connections@.len()
    &&& forall|k: int|
        0 <= k < before[p].terminal_connections@.len() && k != t
            ==> after[p].terminal_connections@[k] == before[p].terminal_connections@[k]
    &&& after[p].terminal_connections@[t].id == before[p].terminal_connections@[t].id
    &&& after[p].terminal_connections@[t].path == before[p].terminal_connections@[t].path
}

/// Whether `after` is `before` with `text` printed after it: every line feed
/// completes a line, what follows the last one waits for more, and the output
/// as one text has grown by `text`, no more and no less.
pub open spec fn printed(before: OutputBuffer, after: OutputBuffer, text: Seq<char>) -> bool {
    &&& (after.lines.deep_view(), after.partial@) == appended(
        before.lines.deep_view(),
        before.partial@,
        text,
    )
    &&& after.text() == before.text() + text
}

/// A change of a terminal leaves the keys of the projects as they are, and so
/// leaves them unique where they were.
pub proof fn lemma_keys_kept<S, I>(before: Seq<Project<S, I>>, after: Seq<Project<S, I>>, p: int)
    requires
        0 <= p < before.len(),
        one_project_changed(before, after, p),
    ensures
        forall|key: Seq<char>| #[trigger] contains_key(after, key) == contains_key(before, key),
        unique_keys(before) ==> unique_keys(after),
{
    assert forall|key: Seq<char>| #[trigger] contains_key(after, key) == contains_key(
        before,
        key,
    ) by {
        lemma_same_keys(before, after, key);
    }
    if unique_keys(before) {
        assert forall|i: int, j: int| 0 <= i < j < after.len() implies (#[trigger] after[i]).key@
            != (#[trigger] after[j]).key@ by {
            assert(after[i].key == before[i].key);
            assert(after[j].key == before[j].key);
        }
    }
}

/// Keeps text that the shell of a terminal has printed.
pub fn record_text<S, I>(
    registry: &mut Registry<S, I>,
    key: &str,
    terminal_id: &str,
    text: &str,
) -> (r: Result<(), LookupError>)
    ensures
        match lookup_error(old(registry)@, key@, terminal_id@) {
            Some(e) => r == Err::<(), LookupError>(e) && final(registry)@ == old(registry)@,
            None => {
                let p = position(old(registry)@, with_key(key@));
                let t = position(terminals_of(old(registry)@, key@), with_id(terminal_id@));
                let before = old(registry)@[p].terminal_connections@[t];
                let after = final(registry)@[p].terminal_connections@[t];
                &&& r is Ok
                &&& one_terminal_changed(old(registry)@, final(registry)@, p, t)
                &&& after.state == before.state
                &&& after.current_executions == before.current_executions
                &&& printed(before.content_lines, after.content_lines, text@)
            },
        },
{
    match locate(registry, key, terminal_id) {
        Ok((p, t)) => {
            registry.projects[p].terminal_connections[t].content_lines.append(text);
            Ok(())
        },
        Err(e) => Err(e),
    }
}

/// The text that `String::from_utf8_lossy` of std reads from bytes.
pub uninterp spec fn utf8_lossy(bytes: Seq<u8>) -> Seq<char>;

/// `String::from_utf8_lossy` of std: the bytes read as UTF-8, with the
/// replacement character in place of what is not valid. Taken on trust: the
/// text is `utf8_lossy` of the bytes, and so depends on the bytes alone.
#[verifier::external_body]
fn decode_lossy(data: &[u8]) -> (text: String)
    ensures
        text@ == utf8_lossy(data@),
{
    String::from_utf8_lossy(data).into_owned()
}

/// Keeps bytes that the shell of a terminal has printed, read as text.
pub fn record_output<S, I>(
    registry: &mut Registry<S, I>,
    key: &str,
    terminal_id: &str,
    data: &[u8],
) -> (r: Result<(), LookupError>)
    ensures
        match lookup_error(old(registry)@, key@, terminal_id@) {
            Some(e) => r == Err::<(), LookupError>(e) && final(registry)@ == old(registry)@,
            None => {
                let p = position(old(registry)@, with_key(key@));
                let t = position(terminals_of(old(registry)@, key@), with_id(terminal_id@));
                let before = old(registry)@[p].terminal_connections@[t];
                let after = final(registry)@[p].terminal_connections@[t];
                &&& r is Ok
                &&& one_terminal_changed(old(registry)@, final(registry)@, p, t)
                &&& after.state == before.state
                &&& after.current_executions == before.current_executions
                &&& printed(before.content_lines, after.content_lines, utf8_lossy(data@))
            },
        },
{
    let text = decode_lossy(data);
    record_text(registry, key, terminal_id, text.as_str())
}

/// Forgets what a terminal has printed.
pub fn clear_terminal_content<S, I>(
    registry: &mut Registry<S, I>,
    key: &str,
    terminal_id: &str,
) -> (r: Result<(), LookupError>)
    ensures
        match lookup_error(old(registry)@, key@, terminal_id@) {
            Some(e) => r == Err::<(), LookupError>(e) && final(registry)@ == old(registry)@,
            None => {
                let p = position(old(registry)@, with_key(key@));
                let t = position(terminals_of(old(registry)@, key@), with_id(terminal_id@));
                let before = old(registry)@[p].terminal_connections@[t];
                let after = final(registry)@[p].terminal_connections@[t];
                &&& r is Ok
                &&& one_terminal_changed(old(registry)@, final(registry)@, p, t)
                &&& after.state == before.state
                &&& after.current_executions == before.current_executions
                &&& after.content_lines.visible() == Seq::<Seq<char>>::empty()
                &&& after.content_lines.text() == Seq::<char>::empty()
            },
        },
{
    match locate(registry, key, terminal_id) {
        Ok((p, t)) => {
            registry.projects[p].terminal_connections[t].content_lines.clear();
            Ok(())
        },
        Err(e) => Err(e),
    }
}

/// The line that tells of a shell that ended with an error.
pub open spec fn exit_notice(cause: Seq<char>) -> Seq<char> {
    "Shell exited with error: "@ + cause
}

/// What a terminal shows once its shell has ended: what it showed before, and
/// after that the notice of the error, if the shell ended with one.
pub open spec fn shown_after_exit(before: OutputBuffer, error: Option<Seq<char>>) -> Seq<
    Seq<char>,
> {
    match error {
        Some(cause) => before.visible().push(exit_notice(cause)),
        None => before.visible(),
    }
}

/// Whether `after` is `before` with the shell of the terminal ended, with the
/// error given if there is one.
pub open spec fn exited<S, I>(
    before: Seq<Project<S, I>>,
    after: Seq<Project<S, I>>,
    key: Seq<char>,
    terminal_id: Seq<char>,
    error: Option<Seq<char>>,
) -> bool {
    let p = position(before, with_key(key));
    let t = position(terminals_of(before, key), with_id(terminal_id));
    let was = before[p].terminal_connections@[t];
    let is = after[p].terminal_connections@[t];
    &&& one_terminal_changed(before, after, p, t)
    &&& is.state == TerminalState::Closed
    &&& was.state.may_become(is.state)
    &&& is.current_executions@.len() == 0
    &&& is.content_lines.lines.deep_view() == shown_after_exit(was.content_lines, error)
    &&& is.content_lines.partial@.len() == 0
}

/// Marks the end of the shell of a terminal. The terminal is closed and takes
/// no more input; text that no line feed had ended becomes its last line; an
/// error that the shell ended with is told in a line after that.
pub fn shell_exited<S, I>(
    registry: &mut Registry<S, I>,
    key: &str,
    terminal_id: &str,
    error: Option<&str>,
) -> (r: Result<(), LookupError>)
    ensures
        match lookup_error(old(registry)@, key@, terminal_id@) {
            Some(e) => r == Err::<(), LookupError>(e) && final(registry)@ == old(registry)@,
            None => r is Ok && exited(
                old(registry)@,
                final(registry)@,
                key@,
                terminal_id@,
                opt_chars(error),
            ),
        },
{
    match locate(registry, key, terminal_id) {
        Ok((p, t)) => {
            registry.projects[p].terminal_connections[t].current_executions.clear();
            registry.projects[p].terminal_connections[t].state = TerminalState::Closed;
            match error {
                Some(cause) => {
                    let mut notice = "Shell exited with error: ".to_string();
                    notice.append(cause);
                    registry.projects[p].terminal_connections[t].content_lines.push_line(notice);
                },
                None => {
                    registry.projects[p].terminal_connections[t].content_lines.finish();
                },
            }
            Ok(())
        },
        Err(e) => Err(e),
    }
}

/// Positions by key are the same in two sequences of projects that hold the
/// same keys in the same order.
pub proof fn lemma_same_keys<S, I>(
    before: Seq<Project<S, I>>,
    after: Seq<Project<S, I>>,
    key: Seq<char>,
)
    requires
        after.len() == before.len(),
        forall|j: int| 0 <= j < before.len() ==> (#[trigger] after[j]).key == before[j].key,
    ensures
        position(after, with_key(key)) == position(before, with_key(key)),
        contains_key(after, key) == contains_key(before, key),
{
    let p = with_key::<S, I>(key);
    lemma_position(before, p);
    let n = position(before, p);
    assert forall|j: int| 0 <= j < n implies !p(#[trigger] after[j]) by {
        assert(!p(before[j]));
    }
    lemma_position_is(after, p, n);
}

/// Removes the terminals with the id and hands them out.
pub fn take_terminals<I>(terminals: &mut Vec<TerminalConnection<I>>, id: &str) -> (r: Vec<
    TerminalConnection<I>,
>)
    ensures
        final(terminals)@ == old(terminals)@.filter(other_id(id@)),
        r@ == old(terminals)@.filter(with_id(id@)),
{
    let mut taken: Vec<TerminalConnection<I>> = Vec::new();
    let mut i: usize = 0;
    let ghost mut k: int = 0;
    let ghost all = terminals@;
    let ghost keep = other_id::<I>(id@);
    let ghost pick = with_id::<I>(id@);
    proof {
        reveal(Seq::filter);
        assert(all.take(0).filter(keep) =~= Seq::<TerminalConnection<I>>::empty());
        assert(all.take(0).filter(pick) =~= Seq::<TerminalConnection<I>>::empty());
        assert(terminals@.take(0) =~= Seq::<TerminalConnection<I>>::empty());
        assert(terminals@.skip(0) =~= all.skip(0));
    }
    while i < terminals.len()
        invariant
            0 <= k <= all.len(),
            i <= terminals.len(),
            terminals.len() - i == all.len() - k,
            terminals@.take(i as int) == all.take(k).filter(keep),
            terminals@.skip(i as int) == all.skip(k),
            taken@ == all.take(k).filter(pick),
            keep == other_id::<I>(id@),
            pick == with_id::<I>(id@),
        decreases terminals.len() - i,
    {
        let ghost before = terminals@;
        proof {
            assert(all.take(k + 1) =~= all.take(k).push(all[k]));
            all.take(k).lemma_filter_push(all[k], keep);
            all.take(k).lemma_filter_push(all[k], pick);
            assert(before[i as int] == before.skip(i as int)[0]);
            assert(all[k] == all.skip(k)[0]);
        }
        if str_eq(terminals[i].id.as_str(), id) {
            let terminal = terminals.remove(i);
            taken.push(terminal);
            proof {
                assert(terminals@.take(i as int) =~= before.take(i as int));
                assert(terminals@.skip(i as int) =~= before.skip(i as int).skip(1));
                assert(all.skip(k).skip(1) =~= all.skip(k + 1));
                k = k + 1;
            }
        } else {
            proof {
                assert(terminals@.take(i + 1) =~= before.take(i as int).push(before[i as int]));
                assert(terminals@.skip(i + 1) =~= before.skip(i as int).skip(1));
                assert(all.skip(k).skip(1) =~= all.skip(k + 1));
                k = k + 1;
            }
            i = i + 1;
        }
    }
    proof {
        assert(terminals@.take(i as int) =~= terminals@);
        assert(all.take(k) =~= all);
    }
    taken
}

/// The bytes that ask a shell to end.
pub fn exit_directive() -> (data: Vec<u8>)
    ensures
        data@ == command_line("exit"@),
{
    let mut data = "exit".as_bytes_vec();
    data.push(10u8);
    data
}

/// The sink of the shell that runs in a terminal, if one does.
pub open spec fn shell_sink<I>(terminal: TerminalConnection<I>) -> Option<I> {
    if terminal.current_executions@.len() > 0 {
        Some(terminal.current_executions@.last().stdin_tx)
    } else {
        None
    }
}

/// After the terminals with an id were removed, no terminal has that id, and
/// removing them again changes nothing; where no terminal had the id, nothing
/// was removed.
pub proof fn lemma_terminals_removed<I>(terminals: Seq<TerminalConnection<I>>, id: Seq<char>)
    ensures
        !has_terminal(terminals.filter(other_id(id)), id),
        terminals.filter(other_id(id)).filter(other_id(id)) == terminals.filter(other_id(id)),
        !has_terminal(terminals, id) ==> terminals.filter(other_id(id)) == terminals,
{
    lemma_filter_out(terminals, other_id::<I>(id), with_id::<I>(id));
}

/// Closes a terminal: removes it from its project, and hands out the sink of
/// its shell, if one runs, for `exit_directive` to be sent to. A second call
/// finds no terminal with the id.
pub fn close_terminal<S, I>(registry: &mut Registry<S, I>, key: &str, terminal_id: &str) -> (r:
    Result<Option<I>, LookupError>)
    ensures
        match lookup_error(old(registry)@, key@, terminal_id@) {
            Some(e) => r == Err::<Option<I>, LookupError>(e) && final(registry)@ == old(registry)@,
            None => {
                let p = position(old(registry)@, with_key(key@));
                &&& r == Ok::<Option<I>, LookupError>(
                    shell_sink(terminal_of(terminals_of(old(registry)@, key@), terminal_id@)),
                )
                &&& one_project_changed(old(registry)@, final(registry)@, p)
                &&& final(registry)@[p].terminal_connections@ == old(
                    registry,
                )@[p].terminal_connections@.filter(other_id(terminal_id@))
                &&& lookup_error(final(registry)@, key@, terminal_id@) == Some(
                    LookupError::TerminalNotFound,
                )
            },
        },
{
    match locate(registry, key, terminal_id) {
        Ok((p, _)) => {
            let ghost terminals = registry@[p as int].terminal_connections@;
            let mut taken = take_terminals(
                &mut registry.projects[p].terminal_connections,
                terminal_id,
            );
            proof {
                lemma_filter_first(terminals, with_id::<I>(terminal_id@));
                lemma_terminals_removed(terminals, terminal_id@);
                lemma_same_keys(old(registry)@, registry@, key@);
            }
            let mut first = taken.remove(0);
            let sink = match first.current_executions.pop() {
                Some(execution) => Some(execution.stdin_tx),
                None => None,
            };
            Ok(sink)
        },
        Err(e) => Err(e),
    }
}

/// The sinks of the shells that run in the terminals, in the order of the
/// terminals.
pub open spec fn shell_sinks<I>(terminals: Seq<TerminalConnection<I>>) -> Seq<I> {
    terminals.filter_map(|t: TerminalConnection<I>| shell_sink(t))
}

/// The command that tells whether `path` is a directory of the remote host.
pub open spec fn path_check_text(path: Seq<char>) -> Seq<char> {
    "cd "@ + path + " && pwd"@
}

/// The command that starts the interactive shell in the directory `path`.
pub open spec fn shell_text(path: Seq<char>) -> Seq<char> {
    "cd "@ + path + " && exec bash -i"@
}

/// The progress of opening a terminal.
#[derive(Debug, Clone, PartialEq, Eq)]
pub enum TerminalSetup {
    /// The command that checks the directory runs.
    CheckingPath { key: String, path: String, terminal_id: String },
    /// The terminal is in its project; its shell is being attached.
    Attaching { key: String, terminal_id: String },
    /// Nothing is left to do.
    Done,
}

/// What happened on the remote side while a terminal was opened.
#[derive(Debug, Clone, PartialEq, Eq)]
pub enum TerminalEvent<I> {
    /// The command that checks the directory has ended.
    Checked(ExecEvent),
    /// The shell is attached; input for it goes to this sink.
    Attached(I),
    /// The shell could not be attached.
    AttachFailed(String),
}

/// What to do next to open a terminal.
#[derive(Debug, Clone, PartialEq, Eq)]
pub enum TerminalAction {
    /// Attach an interactive channel that runs this command, and collect its
    /// output for the terminal with this id.
    Attach { terminal_id: String, command: String, request_pty: bool },
    /// The terminal with this id is open.
    Created(String),
    /// The terminal could not be opened.
    Fail(Error),
}

/// Whether `after` is `before` with one more terminal in the project with the
/// key: a terminal that is starting, with the id and the path, without output
/// and without a shell.
pub open spec fn opened<S, I>(
    before: Seq<Project<S, I>>,
    after: Seq<Project<S, I>>,
    key: Seq<char>,
    terminal_id: String,
    path: String,
) -> bool {
    let p = position(before, with_key(key));
    let terminals = after[p].terminal_connections@;
    &&& one_project_changed(before, after, p)
    &&& terminals.len() == before[p].terminal_connections@.len() + 1
    &&& terminals.drop_last() == before[p].terminal_connections@
    &&& terminals.last().id == terminal_id
    &&& terminals.last().path == path
    &&& terminals.last().state == TerminalState::Starting
    &&& terminals.last().current_executions@.len() == 0
    &&& terminals.last().content_lines.visible() == Seq::<Seq<char>>::empty()
    &&& terminals.last().content_lines.text() == Seq::<char>::empty()
}

/// Whether `after` is `before` with the shell of the terminal attached: the
/// terminal runs, and its input goes to `sink`.
pub open spec fn attached<S, I>(
    before: Seq<Project<S, I>>,
    after: Seq<Project<S, I>>,
    key: Seq<char>,
    terminal_id: Seq<char>,
    sink: I,
) -> bool {
    let p = position(before, with_key(key));
    let t = position(terminals_of(before, key), with_id(terminal_id));
    let was = before[p].terminal_connections@[t];
    let is = after[p].terminal_connections@[t];
    &&& one_terminal_changed(before, after, p, t)
    &&& is.state == TerminalState::Running
    &&& was.state.may_become(is.state)
    &&& is.content_lines == was.content_lines
    &&& is.current_executions@.len() == was.current_executions@.len() + 1
    &&& is.current_executions@.drop_last() == was.current_executions@
    &&& is.current_executions@.last().stdin_tx == sink
    &&& is.current_executions@.last().command@ == "shell"@
}

/// Puts a new terminal into the project with the key.
pub fn open_terminal<S, I>(
    registry: &mut Registry<S, I>,
    key: &str,
    terminal_id: String,
    path: String,
) -> (r: Result<(), LookupError>)
    ensures
        contains_key(old(registry)@, key@) ==> r is Ok && opened(
            old(registry)@,
            final(registry)@,
            key@,
            terminal_id,
            path,
        ),
        !contains_key(old(registry)@, key@) ==> r == Err::<(), LookupError>(
            LookupError::ProjectNotFound,
        ) && final(registry)@ == old(registry)@,
{
    match project_index(registry, key) {
        Some(p) => {
            let terminal = TerminalConnection {
                id: terminal_id,
                content_lines: OutputBuffer::new(),
                current_executions: Vec::new(),
                path,
                state: TerminalState::Starting,
            };
            let ghost terminals = registry@[p as int].terminal_connections@;
            registry.projects[p].terminal_connections.push(terminal);
            assert(registry@[p as int].terminal_connections@.drop_last() =~= terminals);
            Ok(())
        },
        None => Err(LookupError::ProjectNotFound),
    }
}

/// Why no shell can be attached to a terminal: it cannot be found, or it is
/// closed.
pub open spec fn attach_error<S, I>(
    projects: Seq<Project<S, I>>,
    key: Seq<char>,
    id: Seq<char>,
) -> Option<Error> {
    match lookup_error(projects, key, id) {
        Some(e) => Some(Error::Lookup(e)),
        None => if terminal_of(terminals_of(projects, key), id).state is Closed {
            Some(Error::Command(CommandError::NoActiveShell))
        } else {
            None
        },
    }
}

/// Takes note that the shell of a terminal is attached: the terminal runs, and
/// its input goes to `sink`. A terminal that is closed stays closed.
pub fn shell_attached<S, I>(
    registry: &mut Registry<S, I>,
    key: &str,
    terminal_id: &str,
    sink: I,
) -> (r: Result<(), Error>)
    ensures
        match attach_error(old(registry)@, key@, terminal_id@) {
            Some(e) => r == Err::<(), Error>(e) && final(registry)@ == old(registry)@,
            None => r is Ok && attached(
                old(registry)@,
                final(registry)@,
                key@,
                terminal_id@,
                sink,
            ),
        },
{
    match locate(registry, key, terminal_id) {
        Ok((p, t)) => {
            match registry.projects[p].terminal_connections[t].state {
                TerminalState::Closed => {
                    return Err(Error::Command(CommandError::NoActiveShell));
                },
                _ => {},
            }
            let ghost terminal = registry@[p as int].terminal_connections@[t as int];
            let execution = TerminalExecution { stdin_tx: sink, command: "shell".to_string() };
            registry.projects[p].terminal_connections[t].current_executions.push(execution);
            registry.projects[p].terminal_connections[t].state = TerminalState::Running;
            assert(registry@[p as int].terminal_connections@[t
                as int].current_executions@.drop_last() =~= terminal.current_executions@);
            Ok(())
        },
        Err(e) => Err(Error::Lookup(e)),
    }
}

/// Whether `r` and `after` are what one step of opening a terminal makes of
/// `state`, `event` and `before`.
pub open spec fn terminal_step<S, I>(
    state: TerminalSetup,
    event: TerminalEvent<I>,
    before: Seq<Project<S, I>>,
    r: (TerminalSetup, TerminalAction),
    after: Seq<Project<S, I>>,
) -> bool {
    match (state, event) {
        (
            TerminalSetup::CheckingPath { key, path, terminal_id },
            TerminalEvent::Checked(outcome),
        ) => match checked(outcome) {
            Ok(_) => if contains_key(before, key@) {
                &&& opened(before, after, key@, terminal_id, path)
                &&& r.0 == (TerminalSetup::Attaching { key, terminal_id })
                &&& r.1 matches TerminalAction::Attach { terminal_id: id, command, request_pty }
                &&& id == terminal_id
                &&& command@ == shell_text(path@)
                &&& request_pty
            } else {
                &&& after == before
                &&& r.0 is Done
                &&& r.1 == TerminalAction::Fail(Error::Lookup(LookupError::ProjectNotFound))
            },
            Err(e) => after == before && r.0 is Done && r.1 == TerminalAction::Fail(e),
        },
        (
            TerminalSetup::Attaching { key, terminal_id },
            TerminalEvent::Attached(sink),
        ) => match attach_error(before, key@, terminal_id@) {
            Some(e) => after == before && r.0 is Done && r.1 == TerminalAction::Fail(e),
            None => attached(before, after, key@, terminal_id@, sink) && r.0 is Done && r.1
                == TerminalAction::Created(terminal_id),
        },
        (
            TerminalSetup::Attaching { key, terminal_id },
            TerminalEvent::AttachFailed(cause),
        ) => match lookup_error(before, key@, terminal_id@) {
            Some(e) => after == before && r.0 is Done && r.1 == TerminalAction::Fail(
                Error::Lookup(e),
            ),
            None => exited(before, after, key@, terminal_id@, Some(cause@)) && r.0 is Done
                && r.1 == TerminalAction::Fail(Error::Command(CommandError::Transport { cause })),
        },
        _ => after == before && r.0 is Done && r.1 == TerminalAction::Fail(Error::UnexpectedEvent),
    }
}

/// Takes the opening of a terminal one step on with what happened on the
/// remote side. The terminal enters its project once the directory is known to
/// be there, and counts as created only when its shell is attached; a shell
/// that could not be attached leaves the terminal closed, with the cause as
/// its output.
pub fn advance_terminal<S, I>(
    state: TerminalSetup,
    event: TerminalEvent<I>,
    registry: &mut Registry<S, I>,
) -> (r: (TerminalSetup, TerminalAction))
    ensures
        terminal_step(state, event, old(registry)@, r, final(registry)@),
{
    match (state, event) {
        (
            TerminalSetup::CheckingPath { key, path, terminal_id },
            TerminalEvent::Checked(outcome),
        ) => match check(outcome) {
            Ok(_) => {
                let mut command = "cd ".to_string();
                command.append(path.as_str());
                command.append(" && exec bash -i");
                match open_terminal(registry, key.as_str(), terminal_id.clone(), path) {
                    Ok(()) => (
                        TerminalSetup::Attaching { key, terminal_id: terminal_id.clone() },
                        TerminalAction::Attach { terminal_id, command, request_pty: true },
                    ),
                    Err(e) => (TerminalSetup::Done, TerminalAction::Fail(Error::Lookup(e))),
                }
            },
            Err(e) => (TerminalSetup::Done, TerminalAction::Fail(e)),
        },
        (TerminalSetup::Attaching { key, terminal_id }, TerminalEvent::Attached(sink)) => {
            match shell_attached(registry, key.as_str(), terminal_id.as_str(), sink) {
                Ok(()) => (TerminalSetup::Done, TerminalAction::Created(terminal_id)),
                Err(e) => (TerminalSetup::Done, TerminalAction::Fail(e)),
            }
        },
        (TerminalSetup::Attaching { key, terminal_id }, TerminalEvent::AttachFailed(cause)) => {
            match shell_exited(registry, key.as_str(), terminal_id.as_str(), Some(cause.as_str())) {
                Ok(()) => (
                    TerminalSetup::Done,
                    TerminalAction::Fail(Error::Command(CommandError::Transport { cause })),
                ),
                Err(e) => (TerminalSetup::Done, TerminalAction::Fail(Error::Lookup(e))),
            }
        },
        _ => (TerminalSetup::Done, TerminalAction::Fail(Error::UnexpectedEvent)),
    }
}

/// `Uuid::new_v4` of the uuid crate, written as `Uuid`'s `Display` writes it:
/// a random identifier in the hyphenated form. Taken on trust: it has 36
/// characters.
#[verifier::external_body]
fn fresh_terminal_id() -> (id: String)
    ensures
        id@.len() == 36,
{
    uuid::Uuid::new_v4().to_string()
}

/// Starts opening a terminal with the given id in the directory `path` for the
/// project with the key: the state to go on from, and the command to run on
/// the project's session that tells whether the directory is there.
pub fn begin_terminal<'a, S, I>(
    registry: &'a Registry<S, I>,
    key: &str,
    path: &str,
    terminal_id: String,
) -> (r: Result<(TerminalSetup, Request<'a, S>), LookupError>)
    ensures
        match r {
            Ok((state, request)) => {
                &&& contains_key(registry@, key@)
                &&& state matches TerminalSetup::CheckingPath { key: k, path: p, terminal_id: id }
                &&& k@ == key@
                &&& p@ == path@
                &&& id == terminal_id
                &&& request.command@ == path_check_text(path@)
                &&& *request.connection == project_of(registry@, key@).main_connection
            },
            Err(e) => e == LookupError::ProjectNotFound && !contains_key(registry@, key@),
        },
{
    let project = get_project_by_key(registry, key)?;
    let mut command = "cd ".to_string();
    command.append(path);
    command.append(" && pwd");
    Ok(
        (
            TerminalSetup::CheckingPath {
                key: key.to_string(),
                path: path.to_string(),
                terminal_id,
            },
            Request { connection: &project.main_connection, command },
        ),
    )
}

/// Starts opening a terminal in the directory `path` for the project with the
/// key, under a new random id.
pub fn create_terminal<'a, S, I>(registry: &'a Registry<S, I>, key: &str, path: &str) -> (r: Result<
    (TerminalSetup, Request<'a, S>),
    LookupError,
>)
    ensures
        match r {
            Ok((state, request)) => {
                &&& contains_key(registry@, key@)
                &&& state matches TerminalSetup::CheckingPath { key: k, path: p, terminal_id: id }
                &&& k@ == key@
                &&& p@ == path@
                &&& id@.len() == 36
                &&& request.command@ == path_check_text(path@)
                &&& *request.connection == project_of(registry@, key@).main_connection
            },
            Err(e) => e == LookupError::ProjectNotFound && !contains_key(registry@, key@),
        },
{
    let terminal_id = fresh_terminal_id();
    begin_terminal(registry, key, path, terminal_id)
}

} // verus!
