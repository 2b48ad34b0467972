use remote_explorer::commands::filesystem::{
    advance_listing, completed, create_file, create_folder, delete_item, get_dir_contents,
    link_entry, list_command, parse_listing, parse_row, parse_stats, stat_command, get_target_stats,
    Listing, ListingAction, ListingRow, TargetStats,
};
use remote_explorer::commands::{check, ExecEvent};
use remote_explorer::error::{CommandError, Error, LookupError};
use remote_explorer::models::{CommandOutput, DirEntry, Project};
use remote_explorer::state::{add_project, Registry};

fn chars(s: &str) -> Vec<char> {
    s.chars().collect()
}

fn ok(stdout: &str) -> ExecEvent {
    ExecEvent::Executed(CommandOutput { stdout: stdout.to_string(), stderr: String::new(), exit_status: 0 })
}

fn failed(status: u32, stderr: &str) -> ExecEvent {
    ExecEvent::Executed(CommandOutput { stdout: String::new(), stderr: stderr.to_string(), exit_status: status })
}

fn entry(name: &str, is_dir: bool, is_linked: bool, size: &str, permissions: &str, modified: &str) -> DirEntry {
    DirEntry {
        name: name.to_string(),
        is_dir,
        is_linked,
        size: size.to_string(),
        permissions: permissions.to_string(),
        modified: modified.to_string(),
    }
}

fn registry_with(key: &str, connection: u32) -> Registry<u32, String> {
    let mut registry: Registry<u32, String> = Registry::new();
    add_project(
        &mut registry,
        Project {
            key: key.to_string(),
            name: "Demo".to_string(),
            user: "alice".to_string(),
            host: "example.org".to_string(),
            password: None,
            key_file: None,
            public_key_file: None,
            auth_method: "agent".to_string(),
            main_connection: connection,
            terminal_connections: Vec::new(),
        },
    )
    .unwrap();
    registry
}

const LISTING: &str = "total 12\n\
drwxr-xr-x 5 alice staff 4096 2024-03-01 10:00 .\n\
drwxr-xr-x 9 alice staff 4096 2024-02-01 09:00 ..\n\
lrwxrwxrwx 1 alice staff   11 2024-03-02 11:30 current -> releases/v2\n\
lrwxrwxrwx 1 alice staff    9 2024-03-03 12:45 stale -> /gone/far\n\
-rw-r--r-- 1 alice staff  321 2024-03-04 13:15 notes.txt\n";

#[test]
fn commands_quote_the_path() {
    assert_eq!(list_command("/srv/my app"), "cd '/srv/my app' && ls -la --time-style=long-iso");
    assert_eq!(stat_command("/srv/a"), "stat -L --format='%F|%s|%y' '/srv/a'");
    assert_eq!(list_command("it's"), "cd 'it's' && ls -la --time-style=long-iso");
    let registry = registry_with("p1", 4);
    assert_eq!(create_file(&registry, "p1", "/tmp/a b").unwrap().command, "touch '/tmp/a b'");
    assert_eq!(create_folder(&registry, "p1", "/tmp/d/e").unwrap().command, "mkdir -p '/tmp/d/e'");
    assert_eq!(delete_item(&registry, "p1", "/tmp/f", false).unwrap().command, "rm '/tmp/f'");
    assert_eq!(delete_item(&registry, "p1", "/tmp/d", true).unwrap().command, "rm -r '/tmp/d'");
}

#[test]
fn commands_run_on_the_session_of_the_project() {
    let mut registry = registry_with("p1", 4);
    add_project(
        &mut registry,
        Project {
            key: "p2".to_string(),
            name: "Other".to_string(),
            user: "bob".to_string(),
            host: "other.org".to_string(),
            password: None,
            key_file: None,
            public_key_file: None,
            auth_method: "agent".to_string(),
            main_connection: 8,
            terminal_connections: Vec::new(),
        },
    )
    .unwrap();
    assert_eq!(*create_file(&registry, "p2", "/a").unwrap().connection, 8);
    assert_eq!(*create_folder(&registry, "p1", "/a").unwrap().connection, 4);
    assert_eq!(*delete_item(&registry, "p2", "/a", true).unwrap().connection, 8);
    let (_, request) = get_dir_contents(&registry, "p1", "/srv").unwrap();
    assert_eq!(*request.connection, 4);
    assert_eq!(request.command, "cd '/srv' && ls -la --time-style=long-iso");
}

#[test]
fn commands_for_an_unknown_project_are_refused() {
    let registry = registry_with("p1", 4);
    assert_eq!(create_file(&registry, "zz", "/a").err(), Some(LookupError::ProjectNotFound));
    assert_eq!(create_folder(&registry, "zz", "/a").err(), Some(LookupError::ProjectNotFound));
    assert_eq!(delete_item(&registry, "zz", "/a", false).err(), Some(LookupError::ProjectNotFound));
    assert_eq!(get_dir_contents(&registry, "zz", "/a").err(), Some(LookupError::ProjectNotFound));
}

#[test]
fn completed_wants_exit_status_zero() {
    assert_eq!(completed(ok("")), Ok(()));
    assert_eq!(
        completed(failed(1, "touch: cannot touch '/x': Permission denied")),
        Err(Error::Command(CommandError::Failed {
            exit_status: 1,
            stderr: "touch: cannot touch '/x': Permission denied".to_string(),
        }))
    );
    assert_eq!(
        completed(ExecEvent::Failed("channel closed".to_string())),
        Err(Error::Command(CommandError::Transport { cause: "channel closed".to_string() }))
    );
    assert_eq!(
        check(ok("out")),
        Ok(CommandOutput { stdout: "out".to_string(), stderr: String::new(), exit_status: 0 })
    );
}

#[test]
fn a_plain_row_gives_an_entry() {
    let row = parse_row(&chars("-rw-r--r-- 1 alice staff  321 2024-03-04 13:15 notes.txt"), &chars("/srv"));
    assert_eq!(
        row,
        Some(ListingRow::Entry(entry("notes.txt", false, false, "321", "-rw-r--r--", "2024-03-04 13:15")))
    );
    let dir = parse_row(&chars("drwxr-xr-x 2 alice staff 4096 2024-03-04 13:15 src"), &chars("/srv"));
    assert_eq!(
        dir,
        Some(ListingRow::Entry(entry("src", true, false, "4096", "drwxr-xr-x", "2024-03-04 13:15")))
    );
}

#[test]
fn a_name_with_spaces_is_joined_again() {
    let row = parse_row(
        &chars("-rw-r--r-- 1 alice staff 5 2024-03-04 13:15 my   holiday  photo.jpg"),
        &chars("/srv"),
    );
    assert_eq!(
        row,
        Some(ListingRow::Entry(entry("my holiday photo.jpg", false, false, "5", "-rw-r--r--", "2024-03-04 13:15")))
    );
}

#[test]
fn short_rows_and_dot_entries_are_left_out() {
    let base = chars("/srv");
    assert_eq!(parse_row(&chars("total 12"), &base), None);
    assert_eq!(parse_row(&chars(""), &base), None);
    assert_eq!(parse_row(&chars("-rw-r--r-- 1 alice staff 5 2024-03-04 13:15"), &base), None);
    assert_eq!(parse_row(&chars("drwxr-xr-x 5 alice staff 4096 2024-03-01 10:00 ."), &base), None);
    assert_eq!(parse_row(&chars("drwxr-xr-x 9 alice staff 4096 2024-02-01 09:00 .."), &base), None);
    assert!(parse_row(&chars("drwxr-xr-x 9 alice staff 4096 2024-02-01 09:00 ..."), &base).is_some());
    assert!(parse_row(&chars("drwxr-xr-x 9 alice staff 4096 2024-02-01 09:00 . ."), &base).is_some());
}

#[test]
fn a_link_row_names_its_target() {
    let base = chars("/srv/app");
    assert_eq!(
        parse_row(&chars("lrwxrwxrwx 1 a s 11 2024-03-02 11:30 current -> releases/v2"), &base),
        Some(ListingRow::Link {
            name: "current".to_string(),
            permissions: "lrwxrwxrwx".to_string(),
            target: "/srv/app/releases/v2".to_string(),
        })
    );
    assert_eq!(
        parse_row(&chars("lrwxrwxrwx 1 a s 9 2024-03-03 12:45 stale -> /gone/far"), &base),
        Some(ListingRow::Link {
            name: "stale".to_string(),
            permissions: "lrwxrwxrwx".to_string(),
            target: "/gone/far".to_string(),
        })
    );
    assert_eq!(
        parse_row(&chars("lrwxrwxrwx 1 a s 9 2024-03-03 12:45 my link -> to -> there"), &base),
        Some(ListingRow::Link {
            name: "my link".to_string(),
            permissions: "lrwxrwxrwx".to_string(),
            target: "/srv/app/to -> there".to_string(),
        })
    );
    assert_eq!(parse_row(&chars("lrwxrwxrwx 1 a s 9 2024-03-03 12:45 no-arrow"), &base), None);
    assert_eq!(parse_row(&chars("lrwxrwxrwx 1 a s 9 2024-03-03 12:45 half ->"), &base), None);
}

#[test]
fn a_listing_is_read_without_its_first_line() {
    let rows = parse_listing(LISTING, "/srv/app");
    assert_eq!(rows.len(), 3);
    assert_eq!(
        rows[2],
        ListingRow::Entry(entry("notes.txt", false, false, "321", "-rw-r--r--", "2024-03-04 13:15"))
    );
    assert_eq!(parse_listing("", "/srv"), Vec::new());
    assert_eq!(parse_listing("total 0\n", "/srv"), Vec::new());
    let first_is_skipped = parse_listing("-rw-r--r-- 1 a s 1 2024-03-04 13:15 first\n", "/srv");
    assert_eq!(first_is_skipped, Vec::new());
    let crlf = parse_listing("total 4\r\n-rw-r--r-- 1 a s 1 2024-03-04 13:15 f\r\n", "/srv");
    assert_eq!(crlf, vec![ListingRow::Entry(entry("f", false, false, "1", "-rw-r--r--", "2024-03-04 13:15"))]);
}

#[test]
fn stat_output_is_read_by_its_bars() {
    assert_eq!(
        parse_stats("directory|4096|2024-03-02 11:30:00.123456789 +0000\n"),
        Some(TargetStats { is_dir: true, size: "4096".to_string(), modified: "2024-03-02 11:30:00".to_string() })
    );
    assert_eq!(
        parse_stats("regular file|12|2024-03-02 11:30:00 +0000"),
        Some(TargetStats { is_dir: false, size: "12".to_string(), modified: "2024-03-02 11:30:00 +0000".to_string() })
    );
    assert_eq!(
        parse_stats("  a directory here|1|x.y.z|more  "),
        Some(TargetStats { is_dir: true, size: "1".to_string(), modified: "x".to_string() })
    );
    assert_eq!(parse_stats("directory|4096"), None);
    assert_eq!(parse_stats(""), None);
    assert_eq!(
        parse_stats("||"),
        Some(TargetStats { is_dir: false, size: String::new(), modified: String::new() })
    );
}

#[test]
fn target_stats_need_a_command_that_succeeded() {
    assert_eq!(
        get_target_stats(ok("directory|4096|2024-03-02 11:30:00.5 +0000\n")),
        Ok(TargetStats { is_dir: true, size: "4096".to_string(), modified: "2024-03-02 11:30:00".to_string() })
    );
    assert_eq!(get_target_stats(ok("garbage")), Err(Error::Command(CommandError::InvalidOutput)));
    assert_eq!(
        get_target_stats(failed(1, "stat: cannot stat '/gone/far': No such file or directory")),
        Err(Error::Command(CommandError::Failed {
            exit_status: 1,
            stderr: "stat: cannot stat '/gone/far': No such file or directory".to_string(),
        }))
    );
    assert_eq!(
        get_target_stats(ExecEvent::Failed("closed".to_string())),
        Err(Error::Command(CommandError::Transport { cause: "closed".to_string() }))
    );
}

#[test]
fn a_broken_link_reads_unknown() {
    assert_eq!(
        link_entry("stale".to_string(), "lrwxrwxrwx".to_string(), None),
        entry("stale", false, true, "?", "lrwxrwxrwx", "?")
    );
    let stats = TargetStats { is_dir: true, size: "4096".to_string(), modified: "2024-03-02 11:30:00".to_string() };
    assert_eq!(
        link_entry("current".to_string(), "lrwxrwxrwx".to_string(), Some(stats)),
        entry("current", true, true, "4096", "lrwxrwxrwx", "2024-03-02 11:30:00")
    );
}

#[test]
fn listing_with_links_asks_for_each_target() {
    let registry = registry_with("p1", 4);
    let (state, request) = get_dir_contents(&registry, "p1", "/srv/app").unwrap();
    assert_eq!(state, Listing::Reading { path: "/srv/app".to_string() });
    assert_eq!(request.command, "cd '/srv/app' && ls -la --time-style=long-iso");

    let (state, action) = advance_listing(state, ok(LISTING));
    assert_eq!(
        action,
        ListingAction::Execute("stat -L --format='%F|%s|%y' '/srv/app/releases/v2'".to_string())
    );

    let (state, action) =
        advance_listing(state, ok("directory|4096|2024-02-20 08:00:00.000000000 +0000\n"));
    assert_eq!(action, ListingAction::Execute("stat -L --format='%F|%s|%y' '/gone/far'".to_string()));

    let (state, action) =
        advance_listing(state, failed(1, "stat: cannot stat '/gone/far': No such file or directory"));
    assert_eq!(state, Listing::Done);
    assert_eq!(
        action,
        ListingAction::Finished(vec![
            entry("current", true, true, "4096", "lrwxrwxrwx", "2024-02-20 08:00:00"),
            entry("stale", false, true, "?", "lrwxrwxrwx", "?"),
            entry("notes.txt", false, false, "321", "-rw-r--r--", "2024-03-04 13:15"),
        ])
    );
}

#[test]
fn listing_without_links_is_finished_at_once() {
    let output = "total 8\n\
-rw-r--r-- 1 alice staff 1 2024-03-04 13:15 a\n\
drwxr-xr-x 2 alice staff 4096 2024-03-05 14:00 b\n";
    let (state, action) = advance_listing(Listing::Reading { path: "/srv".to_string() }, ok(output));
    assert_eq!(state, Listing::Done);
    assert_eq!(
        action,
        ListingAction::Finished(vec![
            entry("a", false, false, "1", "-rw-r--r--", "2024-03-04 13:15"),
            entry("b", true, false, "4096", "drwxr-xr-x", "2024-03-05 14:00"),
        ])
    );
}

#[test]
fn failed_listing_command_fails_the_listing() {
    let (state, action) = advance_listing(
        Listing::Reading { path: "/nope".to_string() },
        failed(1, "bash: line 1: cd: /nope: No such file or directory"),
    );
    assert_eq!(state, Listing::Done);
    assert_eq!(
        action,
        ListingAction::Fail(Error::Command(CommandError::Failed {
            exit_status: 1,
            stderr: "bash: line 1: cd: /nope: No such file or directory".to_string(),
        }))
    );
    let (state, action) =
        advance_listing(Listing::Reading { path: "/srv".to_string() }, ExecEvent::Failed("closed".to_string()));
    assert_eq!(state, Listing::Done);
    assert_eq!(
        action,
        ListingAction::Fail(Error::Command(CommandError::Transport { cause: "closed".to_string() }))
    );
}

#[test]
fn a_stat_that_cannot_run_leaves_the_link_unknown() {
    let output = "total 0\nlrwxrwxrwx 1 a s 3 2024-03-03 12:45 l -> t\n";
    let (state, action) = advance_listing(Listing::Reading { path: "/srv".to_string() }, ok(output));
    assert_eq!(action, ListingAction::Execute("stat -L --format='%F|%s|%y' '/srv/t'".to_string()));
    let (state, action) = advance_listing(state, ExecEvent::Failed("channel closed".to_string()));
    assert_eq!(state, Listing::Done);
    assert_eq!(action, ListingAction::Finished(vec![entry("l", false, true, "?", "lrwxrwxrwx", "?")]));
}

#[test]
fn a_finished_listing_takes_no_more_events() {
    let (state, action) = advance_listing(Listing::Done, ok("total 0\n"));
    assert_eq!(state, Listing::Done);
    assert_eq!(action, ListingAction::Fail(Error::UnexpectedEvent));
    let odd = Listing::Resolving { rows: Vec::new(), next: 0, entries: Vec::new() };
    let (state, action) = advance_listing(odd, ok(""));
    assert_eq!(state, Listing::Done);
    assert_eq!(action, ListingAction::Fail(Error::UnexpectedEvent));
}

fn row_by_std(line: &str, path: &str) -> Option<ListingRow> {
    let parts: Vec<&str> = line.split_whitespace().collect();
    if parts.len() < 8 {
        return None;
    }
    let permissions = parts[0].to_string();
    let name_and_target = parts[7..].join(" ");
    if name_and_target == "." || name_and_target == ".." {
        return None;
    }
    if permissions.starts_with('l') {
        let arrow_pos = name_and_target.find(" -> ")?;
        let name = name_and_target[..arrow_pos].trim().to_string();
        let target = name_and_target[arrow_pos + 4..].trim().to_string();
        let resolved = if target.starts_with('/') { target } else { format!("{}/{}", path, target) };
        Some(ListingRow::Link { name, permissions, target: resolved })
    } else {
        Some(ListingRow::Entry(DirEntry {
            name: name_and_target,
            is_dir: permissions.starts_with('d'),
            is_linked: false,
            size: parts[4].to_string(),
            modified: format!("{} {}", parts[5], parts[6]),
            permissions,
        }))
    }
}

#[test]
fn rows_agree_with_a_reading_by_std() {
    let lines = [
        "",
        "total 44",
        "-rw-r--r--  1 alice staff   12 2024-01-02 03:04 notes.txt",
        "-rw-r--r--\t1\talice\tstaff\t12\t2024-01-02\t03:04\ttabbed name.txt",
        "drwxr-xr-x 12 root root 4096 2023-12-31 23:59 etc",
        "drwx------ 2 root root 16384 2023-01-01 00:00 lost+found",
        "lrwxrwxrwx 1 root root 7 2023-01-01 00:00 bin -> usr/bin",
        "lrwxrwxrwx 1 root root 7 2023-01-01 00:00 abs -> /usr/bin",
        "lrwxrwxrwx 1 root root 7 2023-01-01 00:00 odd name -> to  somewhere -> else",
        "lrwxrwxrwx 1 root root 7 2023-01-01 00:00 -> target",
        "lrwxrwxrwx 1 root root 7 2023-01-01 00:00 name ->",
        "lrwxrwxrwx 1 root root 7 2023-01-01 00:00 name->target",
        "crw-rw-rw- 1 root root 1, 3 2023-01-01 00:00 null",
        "-rw-r--r-- 1 alice staff 0 2024-01-02 03:04 ünïcödé 名前.txt",
        "-rw-r--r--\u{a0}1 alice staff 0 2024-01-02 03:04 nbsp\u{a0}name",
        "-rw-r--r-- 1 alice staff 0 2024-01-02 03:04 .",
        "-rw-r--r-- 1 alice staff 0 2024-01-02 03:04 ..",
        "-rw-r--r-- 1 alice staff 0 2024-01-02 03:04 .hidden",
        "-rw-r--r-- 1 alice staff 0 2024-01-02 03:04 trailing   ",
        "   -rw-r--r-- 1 alice staff 0 2024-01-02 03:04 leading",
        "-rw-r--r-- 1 alice staff 0 2024-01-02 name",
        "l 2 3 4 5 6 7 a  ->  b",
        "d 2 3 4 5 6 7 8 9 10 11",
    ];
    for path in ["/srv/app", "", "/"] {
        for line in lines {
            assert_eq!(parse_row(&chars(line), &chars(path)), row_by_std(line, path), "line {:?}", line);
        }
        let all = lines.join("\n");
        let by_std: Vec<ListingRow> =
            all.lines().skip(1).filter_map(|line| row_by_std(line, path)).collect();
        assert_eq!(parse_listing(&all, path), by_std);
        let crlf = lines.join("\r\n");
        let by_std: Vec<ListingRow> =
            crlf.lines().skip(1).filter_map(|line| row_by_std(line, path)).collect();
        assert_eq!(parse_listing(&crlf, path), by_std);
    }
}

fn stats_by_std(stdout: &str) -> Option<TargetStats> {
    let output = stdout.trim();
    let parts: Vec<&str> = output.split('|').collect();
    if parts.len() < 3 {
        return None;
    }
    Some(TargetStats {
        is_dir: parts[0].contains("directory"),
        size: parts[1].to_string(),
        modified: parts[2].split('.').next().unwrap_or("").to_string(),
    })
}

#[test]
fn stats_agree_with_a_reading_by_std() {
    let outputs = [
        "",
        "\n",
        "directory|4096|2024-03-02 11:30:00.123456789 +0000\n",
        "regular file|12|2024-03-02 11:30:00.000000000 +0100\n",
        "regular empty file|0|2024-03-02 11:30:00\n",
        "symbolic link|7|.5\n",
        "directory|4096\n",
        "a|b|c|d|e",
        "||",
        "|||",
        " directory | 1 | 2.3 ",
        "Directory|1|2",
        "subdirectory|1|2.",
    ];
    for output in outputs {
        assert_eq!(parse_stats(output), stats_by_std(output), "output {:?}", output);
    }
}
