use remote_explorer::commands::terminal::{
    advance_terminal, begin_terminal, clear_terminal_content, close_terminal, create_terminal,
    execute_terminal_command, exit_directive, get_terminal_content, get_terminal_pwd,
    list_terminals, locate, open_terminal, record_output, record_text, send_terminal_input,
    shell_attached, shell_exited, take_terminals, terminal_index, TerminalAction, TerminalEvent,
    TerminalSetup,
};
use remote_explorer::commands::ExecEvent;
use remote_explorer::error::{CommandError, Error, LookupError};
use remote_explorer::models::{CommandOutput, Project, TerminalState};
use remote_explorer::state::{add_project, Registry};

type Sink = u32;

fn project(key: &str, connection: u32) -> Project<u32, Sink> {
    Project {
        key: key.to_string(),
        name: "Demo".to_string(),
        user: "alice".to_string(),
        host: "example.org".to_string(),
        password: None,
        key_file: None,
        public_key_file: None,
        auth_method: "agent".to_string(),
        main_connection: connection,
        terminal_connections: Vec::new(),
    }
}

fn registry() -> Registry<u32, Sink> {
    let mut registry: Registry<u32, Sink> = Registry::new();
    add_project(&mut registry, project("p1", 1)).unwrap();
    add_project(&mut registry, project("p2", 2)).unwrap();
    registry
}

fn running(registry: &mut Registry<u32, Sink>, key: &str, id: &str, sink: Sink) {
    open_terminal(registry, key, id.to_string(), "/srv".to_string()).unwrap();
    shell_attached(registry, key, id, sink).unwrap();
}

fn ok(stdout: &str) -> ExecEvent {
    ExecEvent::Executed(CommandOutput { stdout: stdout.to_string(), stderr: String::new(), exit_status: 0 })
}

fn lines(items: &[&str]) -> Vec<String> {
    items.iter().map(|s| s.to_string()).collect()
}

#[test]
fn create_terminal_checks_the_directory_first() {
    let registry = registry();
    let (state, request) = create_terminal(&registry, "p2", "/srv/app").unwrap();
    assert_eq!(request.command, "cd /srv/app && pwd");
    assert_eq!(*request.connection, 2);
    match state {
        TerminalSetup::CheckingPath { key, path, terminal_id } => {
            assert_eq!(key, "p2");
            assert_eq!(path, "/srv/app");
            assert_eq!(terminal_id.chars().count(), 36);
            assert_eq!(terminal_id.matches('-').count(), 4);
        },
        other => panic!("unexpected state {:?}", other),
    }
    assert_eq!(create_terminal(&registry, "zz", "/srv").err(), Some(LookupError::ProjectNotFound));
}

#[test]
fn terminal_ids_are_fresh() {
    let registry = registry();
    let id_of = |state: TerminalSetup| match state {
        TerminalSetup::CheckingPath { terminal_id, .. } => terminal_id,
        other => panic!("unexpected state {:?}", other),
    };
    let first = id_of(create_terminal(&registry, "p1", "/").unwrap().0);
    let second = id_of(create_terminal(&registry, "p1", "/").unwrap().0);
    assert_ne!(first, second);
}

#[test]
fn a_terminal_is_created_when_its_shell_is_attached() {
    let mut registry = registry();
    let (state, _) = begin_terminal(&registry, "p1", "/srv/app", "t-1".to_string()).unwrap();
    assert_eq!(
        state,
        TerminalSetup::CheckingPath {
            key: "p1".to_string(),
            path: "/srv/app".to_string(),
            terminal_id: "t-1".to_string(),
        }
    );

    let (state, action) = advance_terminal(state, TerminalEvent::Checked(ok("/srv/app\n")), &mut registry);
    assert_eq!(state, TerminalSetup::Attaching { key: "p1".to_string(), terminal_id: "t-1".to_string() });
    assert_eq!(
        action,
        TerminalAction::Attach {
            terminal_id: "t-1".to_string(),
            command: "cd /srv/app && exec bash -i".to_string(),
            request_pty: true,
        }
    );
    let terminal = &registry.projects[0].terminal_connections[0];
    assert_eq!(terminal.id, "t-1");
    assert_eq!(terminal.path, "/srv/app");
    assert_eq!(terminal.state, TerminalState::Starting);
    assert!(terminal.current_executions.is_empty());
    assert_eq!(
        execute_terminal_command(&registry, "p1", "t-1", "ls").err(),
        Some(Error::Command(CommandError::NoActiveShell))
    );

    let (state, action) = advance_terminal(state, TerminalEvent::Attached(77), &mut registry);
    assert_eq!(state, TerminalSetup::Done);
    assert_eq!(action, TerminalAction::Created("t-1".to_string()));
    let terminal = &registry.projects[0].terminal_connections[0];
    assert_eq!(terminal.state, TerminalState::Running);
    assert_eq!(terminal.current_executions.len(), 1);
    assert_eq!(terminal.current_executions[0].stdin_tx, 77);
    assert_eq!(terminal.current_executions[0].command, "shell");
    assert!(registry.projects[1].terminal_connections.is_empty());
}

#[test]
fn a_directory_that_is_not_there_opens_no_terminal() {
    let mut registry = registry();
    let (state, _) = begin_terminal(&registry, "p1", "/nope", "t-1".to_string()).unwrap();
    let gone = ExecEvent::Executed(CommandOutput {
        stdout: String::new(),
        stderr: "bash: line 1: cd: /nope: No such file or directory".to_string(),
        exit_status: 1,
    });
    let (state, action) = advance_terminal(state, TerminalEvent::Checked(gone), &mut registry);
    assert_eq!(state, TerminalSetup::Done);
    assert_eq!(
        action,
        TerminalAction::Fail(Error::Command(CommandError::Failed {
            exit_status: 1,
            stderr: "bash: line 1: cd: /nope: No such file or directory".to_string(),
        }))
    );
    assert!(registry.projects[0].terminal_connections.is_empty());

    let (state, _) = begin_terminal(&registry, "p1", "/srv", "t-2".to_string()).unwrap();
    let (_, action) = advance_terminal(
        state,
        TerminalEvent::Checked(ExecEvent::Failed("channel closed".to_string())),
        &mut registry,
    );
    assert_eq!(
        action,
        TerminalAction::Fail(Error::Command(CommandError::Transport { cause: "channel closed".to_string() }))
    );
    assert!(registry.projects[0].terminal_connections.is_empty());
}

#[test]
fn a_shell_that_cannot_attach_leaves_its_error_to_read() {
    let mut registry = registry();
    let (state, _) = begin_terminal(&registry, "p1", "/srv", "t-1".to_string()).unwrap();
    let (state, _) = advance_terminal(state, TerminalEvent::Checked(ok("/srv\n")), &mut registry);
    let (state, action) =
        advance_terminal(state, TerminalEvent::AttachFailed("no pty".to_string()), &mut registry);
    assert_eq!(state, TerminalSetup::Done);
    assert_eq!(
        action,
        TerminalAction::Fail(Error::Command(CommandError::Transport { cause: "no pty".to_string() }))
    );
    let terminal = &registry.projects[0].terminal_connections[0];
    assert_eq!(terminal.state, TerminalState::Closed);
    assert!(terminal.current_executions.is_empty());
    assert_eq!(
        get_terminal_content(&registry, "p1", "t-1"),
        Ok(lines(&["Shell exited with error: no pty"]))
    );
}

#[test]
fn a_project_closed_meanwhile_fails_the_terminal() {
    let mut registry = registry();
    let (state, _) = begin_terminal(&registry, "p1", "/srv", "t-1".to_string()).unwrap();
    registry.projects.remove(0);
    let (state, action) = advance_terminal(state, TerminalEvent::Checked(ok("/srv\n")), &mut registry);
    assert_eq!(state, TerminalSetup::Done);
    assert_eq!(action, TerminalAction::Fail(Error::Lookup(LookupError::ProjectNotFound)));

    let attaching = TerminalSetup::Attaching { key: "p2".to_string(), terminal_id: "t-9".to_string() };
    let (_, action) = advance_terminal(attaching.clone(), TerminalEvent::Attached(5), &mut registry);
    assert_eq!(action, TerminalAction::Fail(Error::Lookup(LookupError::TerminalNotFound)));
    let (_, action) =
        advance_terminal(attaching, TerminalEvent::AttachFailed("x".to_string()), &mut registry);
    assert_eq!(action, TerminalAction::Fail(Error::Lookup(LookupError::TerminalNotFound)));
}

#[test]
fn events_out_of_turn_are_refused() {
    let mut registry = registry();
    let before = registry.projects.clone();
    let checking = TerminalSetup::CheckingPath {
        key: "p1".to_string(),
        path: "/srv".to_string(),
        terminal_id: "t-1".to_string(),
    };
    let (state, action) = advance_terminal(checking, TerminalEvent::Attached(5), &mut registry);
    assert_eq!((state, action), (TerminalSetup::Done, TerminalAction::Fail(Error::UnexpectedEvent)));
    let attaching = TerminalSetup::Attaching { key: "p1".to_string(), terminal_id: "t-1".to_string() };
    let (state, action) = advance_terminal(attaching, TerminalEvent::Checked(ok("")), &mut registry);
    assert_eq!((state, action), (TerminalSetup::Done, TerminalAction::Fail(Error::UnexpectedEvent)));
    let (state, action) = advance_terminal(TerminalSetup::Done, TerminalEvent::Attached(5), &mut registry);
    assert_eq!((state, action), (TerminalSetup::Done, TerminalAction::Fail(Error::UnexpectedEvent)));
    assert_eq!(registry.projects, before);
}

#[test]
fn a_command_is_sent_with_one_line_feed() {
    let mut registry = registry();
    running(&mut registry, "p1", "t-1", 11);
    let input = execute_terminal_command(&registry, "p1", "t-1", "ls -la").unwrap();
    assert_eq!(*input.sink, 11);
    assert_eq!(input.data, b"ls -la\n".to_vec());
    let empty = execute_terminal_command(&registry, "p1", "t-1", "").unwrap();
    assert_eq!(empty.data, b"\n".to_vec());
    let umlaut = execute_terminal_command(&registry, "p1", "t-1", "echo ä").unwrap();
    assert_eq!(umlaut.data, "echo ä\n".as_bytes().to_vec());
    let twice = execute_terminal_command(&registry, "p1", "t-1", "x\n").unwrap();
    assert_eq!(twice.data, b"x\n\n".to_vec());
}

#[test]
fn raw_input_is_sent_as_it_is() {
    let mut registry = registry();
    running(&mut registry, "p1", "t-1", 11);
    let interrupt = send_terminal_input(&registry, "p1", "t-1", "\u{3}").unwrap();
    assert_eq!(*interrupt.sink, 11);
    assert_eq!(interrupt.data, vec![3u8]);
    let nothing = send_terminal_input(&registry, "p1", "t-1", "").unwrap();
    assert_eq!(nothing.data, Vec::<u8>::new());
    let text = send_terminal_input(&registry, "p1", "t-1", "yes").unwrap();
    assert_eq!(text.data, b"yes".to_vec());
}

#[test]
fn pwd_is_asked_as_a_command() {
    let mut registry = registry();
    running(&mut registry, "p1", "t-1", 11);
    let input = get_terminal_pwd(&registry, "p1", "t-1").unwrap();
    assert_eq!(*input.sink, 11);
    assert_eq!(input.data, b"pwd\n".to_vec());
    assert_eq!(exit_directive(), b"exit\n".to_vec());
}

#[test]
fn a_closed_terminal_stays_closed() {
    let mut registry = registry();
    running(&mut registry, "p1", "t-1", 11);
    shell_exited(&mut registry, "p1", "t-1", None).unwrap();
    let before = registry.projects.clone();
    assert_eq!(
        shell_attached(&mut registry, "p1", "t-1", 12),
        Err(Error::Command(CommandError::NoActiveShell))
    );
    assert_eq!(
        shell_attached(&mut registry, "p1", "t-9", 12),
        Err(Error::Lookup(LookupError::TerminalNotFound))
    );
    let attaching = TerminalSetup::Attaching { key: "p1".to_string(), terminal_id: "t-1".to_string() };
    let (state, action) = advance_terminal(attaching, TerminalEvent::Attached(13), &mut registry);
    assert_eq!(state, TerminalSetup::Done);
    assert_eq!(action, TerminalAction::Fail(Error::Command(CommandError::NoActiveShell)));
    assert_eq!(registry.projects, before);
    assert_eq!(shell_exited(&mut registry, "p1", "t-1", None), Ok(()));
    assert_eq!(registry.projects[0].terminal_connections[0].state, TerminalState::Closed);
}

#[test]
fn input_goes_to_the_last_execution() {
    let mut registry = registry();
    running(&mut registry, "p1", "t-1", 11);
    shell_attached(&mut registry, "p1", "t-1", 12).unwrap();
    assert_eq!(*execute_terminal_command(&registry, "p1", "t-1", "ls").unwrap().sink, 12);
}

#[test]
fn input_for_what_is_not_there_is_refused() {
    let mut registry = registry();
    running(&mut registry, "p1", "t-1", 11);
    open_terminal(&mut registry, "p1", "t-2".to_string(), "/".to_string()).unwrap();
    assert_eq!(
        execute_terminal_command(&registry, "zz", "t-1", "ls").err(),
        Some(Error::Lookup(LookupError::ProjectNotFound))
    );
    assert_eq!(
        execute_terminal_command(&registry, "p2", "t-1", "ls").err(),
        Some(Error::Lookup(LookupError::TerminalNotFound))
    );
    assert_eq!(
        send_terminal_input(&registry, "p1", "t-2", "x").err(),
        Some(Error::Command(CommandError::NoActiveShell))
    );
    assert_eq!(
        get_terminal_pwd(&registry, "p1", "t-3").err(),
        Some(Error::Lookup(LookupError::TerminalNotFound))
    );
}

#[test]
fn output_is_kept_line_by_line() {
    let mut registry = registry();
    running(&mut registry, "p1", "t-1", 11);
    assert_eq!(record_output(&mut registry, "p1", "t-1", b"alice@host:~$ l"), Ok(()));
    assert_eq!(get_terminal_content(&registry, "p1", "t-1"), Ok(lines(&["alice@host:~$ l"])));
    assert_eq!(record_output(&mut registry, "p1", "t-1", b"s\na.txt\nb.txt\nalice@host:~$ "), Ok(()));
    assert_eq!(
        get_terminal_content(&registry, "p1", "t-1"),
        Ok(lines(&["alice@host:~$ ls", "a.txt", "b.txt", "alice@host:~$ "]))
    );
    assert_eq!(record_text(&mut registry, "p1", "t-1", "exit\n"), Ok(()));
    assert_eq!(
        get_terminal_content(&registry, "p1", "t-1"),
        Ok(lines(&["alice@host:~$ ls", "a.txt", "b.txt", "alice@host:~$ exit"]))
    );
    assert_eq!(registry.projects[0].terminal_connections[0].state, TerminalState::Running);
    assert_eq!(registry.projects[0].terminal_connections[0].current_executions.len(), 1);
}

#[test]
fn bytes_that_are_no_text_are_replaced() {
    let mut registry = registry();
    running(&mut registry, "p1", "t-1", 11);
    record_output(&mut registry, "p1", "t-1", &[b'a', 0xff, b'b', b'\n', 0xc3, 0xa4]).unwrap();
    assert_eq!(get_terminal_content(&registry, "p1", "t-1"), Ok(lines(&["a\u{fffd}b", "ä"])));
}

#[test]
fn polling_and_sending_leave_the_output_as_it_is() {
    let mut registry = registry();
    running(&mut registry, "p1", "t-1", 11);
    record_output(&mut registry, "p1", "t-1", b"one\ntwo\nthr").unwrap();
    let before = registry.projects.clone();
    let seen = get_terminal_content(&registry, "p1", "t-1").unwrap();
    for round in 0..5 {
        let command = format!("echo {}", round);
        assert!(execute_terminal_command(&registry, "p1", "t-1", &command).is_ok());
        assert_eq!(get_terminal_content(&registry, "p1", "t-1").unwrap(), seen);
        assert!(send_terminal_input(&registry, "p1", "t-1", "x").is_ok());
    }
    assert_eq!(seen, lines(&["one", "two", "thr"]));
    assert_eq!(registry.projects, before);
}

#[test]
fn output_for_what_is_not_there_is_refused() {
    let mut registry = registry();
    running(&mut registry, "p1", "t-1", 11);
    let before = registry.projects.clone();
    assert_eq!(record_output(&mut registry, "zz", "t-1", b"x"), Err(LookupError::ProjectNotFound));
    assert_eq!(record_text(&mut registry, "p2", "t-1", "x"), Err(LookupError::TerminalNotFound));
    assert_eq!(get_terminal_content(&registry, "p1", "t-9"), Err(LookupError::TerminalNotFound));
    assert_eq!(clear_terminal_content(&mut registry, "p1", "t-9"), Err(LookupError::TerminalNotFound));
    assert_eq!(shell_exited(&mut registry, "zz", "t-1", None), Err(LookupError::ProjectNotFound));
    assert_eq!(registry.projects, before);
}

#[test]
fn clearing_forgets_the_output_of_one_terminal() {
    let mut registry = registry();
    running(&mut registry, "p1", "t-1", 11);
    running(&mut registry, "p1", "t-2", 12);
    record_text(&mut registry, "p1", "t-1", "a\nb").unwrap();
    record_text(&mut registry, "p1", "t-2", "c\n").unwrap();
    assert_eq!(clear_terminal_content(&mut registry, "p1", "t-1"), Ok(()));
    assert_eq!(get_terminal_content(&registry, "p1", "t-1"), Ok(Vec::new()));
    assert_eq!(get_terminal_content(&registry, "p1", "t-2"), Ok(lines(&["c"])));
    assert_eq!(*execute_terminal_command(&registry, "p1", "t-1", "ls").unwrap().sink, 11);
}

#[test]
fn a_shell_that_ends_closes_its_terminal() {
    let mut registry = registry();
    running(&mut registry, "p1", "t-1", 11);
    record_text(&mut registry, "p1", "t-1", "bye\nlogo").unwrap();
    assert_eq!(shell_exited(&mut registry, "p1", "t-1", None), Ok(()));
    let terminal = &registry.projects[0].terminal_connections[0];
    assert_eq!(terminal.state, TerminalState::Closed);
    assert!(terminal.current_executions.is_empty());
    assert_eq!(get_terminal_content(&registry, "p1", "t-1"), Ok(lines(&["bye", "logo"])));
    assert_eq!(
        execute_terminal_command(&registry, "p1", "t-1", "ls").err(),
        Some(Error::Command(CommandError::NoActiveShell))
    );

    running(&mut registry, "p1", "t-2", 12);
    record_text(&mut registry, "p1", "t-2", "partial").unwrap();
    assert_eq!(shell_exited(&mut registry, "p1", "t-2", Some("connection reset")), Ok(()));
    assert_eq!(
        get_terminal_content(&registry, "p1", "t-2"),
        Ok(lines(&["partial", "Shell exited with error: connection reset"]))
    );
}

#[test]
fn closing_a_terminal_hands_out_its_sink() {
    let mut registry = registry();
    running(&mut registry, "p1", "t-1", 11);
    running(&mut registry, "p1", "t-2", 12);
    open_terminal(&mut registry, "p1", "t-3".to_string(), "/".to_string()).unwrap();
    assert_eq!(close_terminal(&mut registry, "p1", "t-2"), Ok(Some(12)));
    assert_eq!(
        list_terminals(&registry, "p1"),
        Ok(vec![("t-1".to_string(), "/srv".to_string()), ("t-3".to_string(), "/".to_string())])
    );
    assert_eq!(close_terminal(&mut registry, "p1", "t-3"), Ok(None));
    assert_eq!(list_terminals(&registry, "p1"), Ok(vec![("t-1".to_string(), "/srv".to_string())]));
}

#[test]
fn closing_a_terminal_twice_reports_not_found() {
    let mut registry = registry();
    running(&mut registry, "p1", "t-1", 11);
    running(&mut registry, "p1", "t-2", 12);
    assert_eq!(close_terminal(&mut registry, "p1", "t-1"), Ok(Some(11)));
    let after_first = registry.projects.clone();
    assert_eq!(close_terminal(&mut registry, "p1", "t-1"), Err(LookupError::TerminalNotFound));
    assert_eq!(close_terminal(&mut registry, "p1", "t-1"), Err(LookupError::TerminalNotFound));
    assert_eq!(registry.projects, after_first);
    assert_eq!(close_terminal(&mut registry, "zz", "t-2"), Err(LookupError::ProjectNotFound));
    assert_eq!(close_terminal(&mut registry, "p2", "t-2"), Err(LookupError::TerminalNotFound));
    assert_eq!(registry.projects, after_first);
    assert_eq!(list_terminals(&registry, "p1"), Ok(vec![("t-2".to_string(), "/srv".to_string())]));
}

#[test]
fn terminals_are_listed_in_the_order_they_were_opened() {
    let mut registry = registry();
    assert_eq!(list_terminals(&registry, "p1"), Ok(Vec::new()));
    open_terminal(&mut registry, "p1", "b".to_string(), "/b".to_string()).unwrap();
    open_terminal(&mut registry, "p1", "a".to_string(), "/a".to_string()).unwrap();
    open_terminal(&mut registry, "p2", "c".to_string(), "/c".to_string()).unwrap();
    assert_eq!(
        list_terminals(&registry, "p1"),
        Ok(vec![("b".to_string(), "/b".to_string()), ("a".to_string(), "/a".to_string())])
    );
    assert_eq!(list_terminals(&registry, "p2"), Ok(vec![("c".to_string(), "/c".to_string())]));
    assert_eq!(list_terminals(&registry, "zz"), Err(LookupError::ProjectNotFound));
    assert_eq!(
        open_terminal(&mut registry, "zz", "d".to_string(), "/".to_string()),
        Err(LookupError::ProjectNotFound)
    );
}

#[test]
fn terminals_are_located_by_key_and_id() {
    let mut registry = registry();
    open_terminal(&mut registry, "p2", "a".to_string(), "/a".to_string()).unwrap();
    open_terminal(&mut registry, "p2", "b".to_string(), "/b".to_string()).unwrap();
    assert_eq!(locate(&registry, "p2", "b"), Ok((1, 1)));
    assert_eq!(locate(&registry, "p2", "a"), Ok((1, 0)));
    assert_eq!(locate(&registry, "p1", "a"), Err(LookupError::TerminalNotFound));
    assert_eq!(locate(&registry, "p3", "a"), Err(LookupError::ProjectNotFound));
    assert_eq!(terminal_index(&registry.projects[1].terminal_connections, "b"), Some(1));
    assert_eq!(terminal_index(&registry.projects[1].terminal_connections, "c"), None);
    let taken = take_terminals(&mut registry.projects[1].terminal_connections, "a");
    assert_eq!(taken.len(), 1);
    assert_eq!(taken[0].id, "a");
    assert_eq!(locate(&registry, "p2", "b"), Ok((1, 0)));
}
