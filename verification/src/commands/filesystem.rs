//! Listing, creating and deleting on the remote file system.

use crate::commands::{check, checked, ExecEvent, Request};
use crate::error::{CommandError, Error, LookupError};
use crate::models::{DirEntry, DirEntryView};
use crate::state::{contains_key, get_project_by_key, project_of, Registry};
use crate::text::{
    chars_eq, chars_in_range, chars_of, find, find_chars, find_first, first_in, join_from, joined,
    pieces, push_chars, rows, split_by, split_words, starts_with, string_of, string_of_range, trim,
    trimmed, words, CharClass,
};
use vstd::prelude::*;
use vstd::string::*;

verus! {

/// `path` between single quotes, as it stands: a quote inside it is not
/// escaped.
pub open spec fn quoted(path: Seq<char>) -> Seq<char> {
    seq!['\''] + path + seq!['\'']
}

/// The command that lists `path` in long format.
pub open spec fn list_command_text(path: Seq<char>) -> Seq<char> {
    "cd "@ + quoted(path) + " && ls -la --time-style=long-iso"@
}

/// The command that tells kind, size and time of change of what `target`
/// leads to.
pub open spec fn stat_command_text(target: Seq<char>) -> Seq<char> {
    "stat -L --format='%F|%s|%y' "@ + quoted(target)
}

/// The command that creates the file `path`.
pub open spec fn create_file_text(path: Seq<char>) -> Seq<char> {
    "touch "@ + quoted(path)
}

/// The command that creates the directory `path` and those above it.
pub open spec fn create_folder_text(path: Seq<char>) -> Seq<char> {
    "mkdir -p "@ + quoted(path)
}

/// The command that deletes `path`: a directory with all that is in it.
pub open spec fn delete_text(path: Seq<char>, is_dir: bool) -> Seq<char> {
    if is_dir {
        "rm -r "@ + quoted(path)
    } else {
        "rm "@ + quoted(path)
    }
}

/// `head`, then `path` between single quotes, then `tail`.
fn command_with_path(head: &str, path: &str, tail: &str) -> (r: String)
    ensures
        r@ == head@ + quoted(path@) + tail@,
{
    let mut r = head.to_string();
    r.push('\'');
    r.append(path);
    r.push('\'');
    r.append(tail);
    assert(r@ =~= head@ + quoted(path@) + tail@);
    r
}

/// The command that lists `path` in long format.
pub fn list_command(path: &str) -> (r: String)
    ensures
        r@ == list_command_text(path@),
{
    command_with_path("cd ", path, " && ls -la --time-style=long-iso")
}

/// The command that tells kind, size and time of change of what `target`
/// leads to.
pub fn stat_command(target: &str) -> (r: String)
    ensures
        r@ == stat_command_text(target@),
{
    let r = command_with_path("stat -L --format='%F|%s|%y' ", target, "");
    proof {
        reveal_strlit("");
        assert(r@ =~= stat_command_text(target@));
    }
    r
}

/// A row of a listing that names an entry: either all of the entry, or a link,
/// of which only the target can tell kind, size and time of change.
#[derive(Debug, Clone, PartialEq, Eq)]
pub enum ListingRow {
    Entry(DirEntry),
    Link { name: String, permissions: String, target: String },
}

/// What a `ListingRow` holds.
pub enum RowView {
    Entry(DirEntryView),
    Link { name: Seq<char>, permissions: Seq<char>, target: Seq<char> },
}

impl View for ListingRow {
    type V = RowView;

    open spec fn view(&self) -> RowView {
        match *self {
            ListingRow::Entry(entry) => RowView::Entry(entry@),
            ListingRow::Link { name, permissions, target } => RowView::Link {
                name: name@,
                permissions: permissions@,
                target: target@,
            },
        }
    }
}

/// What the rows of `rows` hold, in order.
pub open spec fn row_views(rows: Seq<ListingRow>) -> Seq<RowView> {
    Seq::new(rows.len(), |i: int| rows[i]@)
}

/// What the entries of `entries` hold, in order.
pub open spec fn entry_views(entries: Seq<DirEntry>) -> Seq<DirEntryView> {
    Seq::new(entries.len(), |i: int| entries[i]@)
}

/// The path that a link's target stands for: the target itself where it starts
/// at the root, else the target below the directory that was listed.
pub open spec fn resolved_target(base: Seq<char>, target: Seq<char>) -> Seq<char> {
    if target.len() > 0 && target[0] == '/' {
        target
    } else {
        base.push('/') + target
    }
}

/// What one line of a long-format listing of the directory `base` says. The
/// line is split at white space. With fewer than eight fields it says
/// nothing. The first field holds the permissions, the fifth the size, the
/// sixth and seventh the time of change; the fields from the eighth on,
/// joined by single spaces, hold the name. The names `.` and `..` are left out.
/// Where the permissions start with `l` the name holds ` -> ` and the link's
/// target after it, and a line without ` -> ` says nothing.
pub open spec fn row_of(line: Seq<char>, base: Seq<char>) -> Option<RowView> {
    let fields = words(line);
    if fields.len() < 8 {
        None
    } else {
        let permissions = fields[0];
        let name = joined(fields.skip(7), ' ');
        if name == "."@ || name == ".."@ {
            None
        } else if permissions.len() > 0 && permissions[0] == 'l' {
            match find(name, " -> "@) {
                Some(at) => Some(
                    RowView::Link {
                        name: trimmed(name.subrange(0, at)),
                        permissions,
                        target: resolved_target(
                            base,
                            trimmed(name.subrange(at + " -> "@.len(), name.len() as int)),
                        ),
                    },
                ),
                None => None,
            }
        } else {
            Some(
                RowView::Entry(
                    DirEntryView {
                        name,
                        is_dir: permissions.len() > 0 && permissions[0] == 'd',
                        is_linked: false,
                        size: fields[4],
                        permissions,
                        modified: fields[5].push(' ') + fields[6],
                    },
                ),
            )
        }
    }
}

/// `row_of` for the lines of a listing of `base`.
pub open spec fn row_in(base: Seq<char>) -> spec_fn(Seq<char>) -> Option<RowView> {
    |line: Seq<char>| row_of(line, base)
}

/// The rows of a long-format listing of the directory `base`: what each of its
/// lines says, without the first line, which holds the total.
pub open spec fn listing_rows(stdout: Seq<char>, base: Seq<char>) -> Seq<RowView> {
    pieces(stdout, CharClass::Is('\n')).skip(1).filter_map(row_in(base))
}

/// What `r` holds, if it holds a row.
pub open spec fn row_view(r: Option<ListingRow>) -> Option<RowView> {
    match r {
        Some(row) => Some(row@),
        None => None,
    }
}

/// Reads one line of a long-format listing of the directory `base`.
pub fn parse_row(line: &Vec<char>, base: &Vec<char>) -> (r: Option<ListingRow>)
    ensures
        row_view(r) == row_of(line@, base@),
{
    let fields = split_words(line);
    if fields.len() < 8 {
        return None;
    }
    let ghost f = rows(fields@);
    let name = join_from(&fields, 7, ' ');
    let dot = chars_of(".");
    let dots = chars_of("..");
    if chars_eq(&name, &dot) || chars_eq(&name, &dots) {
        return None;
    }
    assert(f[0] == fields@[0]@ && f[4] == fields@[4]@ && f[5] == fields@[5]@ && f[6]
        == fields@[6]@);
    let permissions = string_of(&fields[0]);
    if starts_with(&fields[0], 'l') {
        let arrow = chars_of(" -> ");
        match find_chars(&name, &arrow) {
            Some(at) => {
                let link = trim(&chars_in_range(&name, 0, at));
                let target = trim(&chars_in_range(&name, at + arrow.len(), name.len()));
                let resolved = if starts_with(&target, '/') {
                    string_of(&target)
                } else {
                    let mut path: Vec<char> = Vec::new();
                    push_chars(&mut path, base);
                    path.push('/');
                    push_chars(&mut path, &target);
                    assert(path@ =~= base@.push('/') + target@);
                    string_of(&path)
                };
                Some(ListingRow::Link { name: string_of(&link), permissions, target: resolved })
            },
            None => None,
        }
    } else {
        let mut modified: Vec<char> = Vec::new();
        push_chars(&mut modified, &fields[5]);
        modified.push(' ');
        push_chars(&mut modified, &fields[6]);
        assert(modified@ =~= f[5].push(' ') + f[6]);
        Some(
            ListingRow::Entry(
                DirEntry {
                    name: string_of(&name),
                    is_dir: starts_with(&fields[0], 'd'),
                    is_linked: false,
                    size: string_of(&fields[4]),
                    permissions,
                    modified: string_of(&modified),
                },
            ),
        )
    }
}

/// Reads the output of a long-format listing of the directory `path`.
pub fn parse_listing(stdout: &str, path: &str) -> (r: Vec<ListingRow>)
    ensures
        row_views(r@) == listing_rows(stdout@, path@),
{
    let text = chars_of(stdout);
    let base = chars_of(path);
    let lines = split_by(&text, CharClass::Is('\n'));
    let ghost all = rows(lines@);
    let ghost body = all.skip(1);
    let mut out: Vec<ListingRow> = Vec::new();
    if lines.len() == 0 {
        assert(body =~= Seq::<Seq<char>>::empty());
        assert(row_views(out@) =~= body.filter_map(row_in(base@)));
        return out;
    }
    let mut i: usize = 1;
    assert(body.take(0) =~= Seq::<Seq<char>>::empty());
    assert(row_views(out@) =~= body.take(0).filter_map(row_in(base@)));
    while i < lines.len()
        invariant
            1 <= i <= lines.len(),
            all == rows(lines@),
            body == all.skip(1),
            base@ == path@,
            row_views(out@) == body.take(i - 1).filter_map(row_in(base@)),
        decreases lines.len() - i,
    {
        let ghost before = row_views(out@);
        proof {
            body.lemma_filter_map_take_succ(row_in(base@), i - 1);
            assert(body[i - 1] == lines@[i as int]@);
        }
        match parse_row(&lines[i], &base) {
            Some(row) => {
                out.push(row);
                assert(row_views(out@) =~= before + seq![row@]);
            },
            None => {},
        }
        i = i + 1;
    }
    assert(body.take(lines.len() - 1) =~= body);
    out
}

/// Kind, size and time of change of what a link leads to.
#[derive(Debug, Clone, PartialEq, Eq)]
pub struct TargetStats {
    pub is_dir: bool,
    pub size: String,
    pub modified: String,
}

/// What a `TargetStats` holds.
pub struct StatsView {
    pub is_dir: bool,
    pub size: Seq<char>,
    pub modified: Seq<char>,
}

impl View for TargetStats {
    type V = StatsView;

    open spec fn view(&self) -> StatsView {
        StatsView { is_dir: self.is_dir, size: self.size@, modified: self.modified@ }
    }
}

/// What `r` holds, if it holds stats.
pub open spec fn stats_view(r: Option<TargetStats>) -> Option<StatsView> {
    match r {
        Some(stats) => Some(stats@),
        None => None,
    }
}

/// What the output of the stat command says. Without the white space around
/// it, it is split at `|`, and says nothing with fewer than three parts. The
/// target is a directory where the first part holds the word `directory`; the
/// second part is the size; the third, up to its first full stop, is the time
/// of change.
pub open spec fn stats_of(stdout: Seq<char>) -> Option<StatsView> {
    let parts = pieces(trimmed(stdout), CharClass::Is('|'));
    if parts.len() < 3 {
        None
    } else {
        Some(
            StatsView {
                is_dir: find(parts[0], "directory"@) is Some,
                size: parts[1],
                modified: parts[2].take(first_in(parts[2], CharClass::Is('.'))),
            },
        )
    }
}

/// Reads the output of the stat command.
pub fn parse_stats(stdout: &str) -> (r: Option<TargetStats>)
    ensures
        stats_view(r) == stats_of(stdout@),
{
    let text = trim(&chars_of(stdout));
    let parts = split_by(&text, CharClass::Is('|'));
    if parts.len() < 3 {
        return None;
    }
    let ghost p = rows(parts@);
    assert(p[0] == parts@[0]@ && p[1] == parts@[1]@ && p[2] == parts@[2]@);
    let word = chars_of("directory");
    let is_dir = find_chars(&parts[0], &word).is_some();
    let stop = find_first(&parts[2], 0, CharClass::Is('.'));
    assert(parts@[2]@.skip(0) == parts@[2]@);
    Some(
        TargetStats {
            is_dir,
            size: string_of(&parts[1]),
            modified: string_of_range(&parts[2], 0, stop),
        },
    )
}

/// What the outcome of the stat command says of a link's target: nothing where
/// the command could not run, ended with a status other than zero, or wrote
/// what `stats_of` cannot read.
pub open spec fn stats_outcome(event: ExecEvent) -> Option<StatsView> {
    match checked(event) {
        Ok(output) => stats_of(output.stdout@),
        Err(_) => None,
    }
}

/// Kind, size and time of change of a link's target, from the outcome of the
/// stat command.
pub fn get_target_stats(event: ExecEvent) -> (r: Result<TargetStats, Error>)
    ensures
        match r {
            Ok(stats) => stats_outcome(event) == Some(stats@),
            Err(e) => stats_outcome(event) is None && match checked(event) {
                Ok(_) => e == Error::Command(CommandError::InvalidOutput),
                Err(cause) => e == cause,
            },
        },
{
    match check(event) {
        Ok(output) => match parse_stats(output.stdout.as_str()) {
            Some(stats) => Ok(stats),
            None => Err(Error::Command(CommandError::InvalidOutput)),
        },
        Err(e) => Err(e),
    }
}

/// The entry for a link. With the stats of its target it has the target's
/// kind, size and time of change. Without them, for a link that leads
/// nowhere, it is no directory, and size and time of change read `?`.
pub open spec fn link_entry_view(
    name: Seq<char>,
    permissions: Seq<char>,
    stats: Option<StatsView>,
) -> DirEntryView {
    match stats {
        Some(stats) => DirEntryView {
            name,
            is_dir: stats.is_dir,
            is_linked: true,
            size: stats.size,
            permissions,
            modified: stats.modified,
        },
        None => DirEntryView {
            name,
            is_dir: false,
            is_linked: true,
            size: "?"@,
            permissions,
            modified: "?"@,
        },
    }
}

/// The entry for a link, from the stats of its target if there are any.
pub fn link_entry(name: String, permissions: String, stats: Option<TargetStats>) -> (r: DirEntry)
    ensures
        r@ == link_entry_view(name@, permissions@, stats_view(stats)),
{
    match stats {
        Some(stats) => DirEntry {
            name,
            is_dir: stats.is_dir,
            is_linked: true,
            size: stats.size,
            permissions,
            modified: stats.modified,
        },
        None => DirEntry {
            name,
            is_dir: false,
            is_linked: true,
            size: "?".to_string(),
            permissions,
            modified: "?".to_string(),
        },
    }
}

/// The index, at or after `from`, of the first row that is a link; the number
/// of rows when there is none.
pub open spec fn next_link(rows: Seq<RowView>, from: int) -> int
    decreases rows.len() - from,
{
    if from < 0 || from >= rows.len() {
        rows.len() as int
    } else if rows[from] is Link {
        from
    } else {
        next_link(rows, from + 1)
    }
}

/// The entries of the rows from `from` up to `to`.
pub open spec fn entries_between(rows: Seq<RowView>, from: int, to: int) -> Seq<DirEntryView> {
    Seq::new((to - from) as nat, |i: int| rows[from + i]->Entry_0)
}

/// The progress of listing a directory.
#[derive(Debug, Clone, PartialEq, Eq)]
pub enum Listing {
    /// The listing command runs.
    Reading { path: String },
    /// The stat command runs for the link at `rows[next]`; `entries` holds the
    /// entries of the rows before it.
    Resolving { rows: Vec<ListingRow>, next: usize, entries: Vec<DirEntry> },
    /// Nothing is left to do.
    Done,
}

/// What to do next for a listing.
#[derive(Debug, Clone, PartialEq, Eq)]
pub enum ListingAction {
    /// Run this command on the project's session.
    Execute(String),
    /// The listing is complete.
    Finished(Vec<DirEntry>),
    /// The listing has failed.
    Fail(Error),
}

/// Whether `r` is where a listing stands once the rows from `from` on have been
/// looked at, with `entries` collected before: at the next link, with the stat
/// command for its target to run, or at its end.
pub open spec fn settled(
    r: (Listing, ListingAction),
    rows: Seq<RowView>,
    from: int,
    entries: Seq<DirEntryView>,
) -> bool {
    let stop = next_link(rows, from);
    let collected = entries + entries_between(rows, from, stop);
    if stop < rows.len() {
        &&& r.0 matches Listing::Resolving { rows: kept, next, entries: held }
        &&& row_views(kept@) == rows
        &&& next == stop
        &&& entry_views(held@) == collected
        &&& r.1 matches ListingAction::Execute(command)
        &&& command@ == stat_command_text(rows[stop]->target)
    } else {
        &&& r.0 is Done
        &&& r.1 matches ListingAction::Finished(held)
        &&& entry_views(held@) == collected
    }
}

/// Whether `entry` is the entry of `row`: the row's own entry, or for a link an
/// entry marked as one, with the link's name and permissions.
pub open spec fn entry_of(row: RowView, entry: DirEntryView) -> bool {
    match row {
        RowView::Entry(own) => entry == own,
        RowView::Link { name, permissions, target } => entry.is_linked && entry.name == name
            && entry.permissions == permissions,
    }
}

/// Whether `entries` holds the entries of the first rows of `rows`, one for
/// each row and in the order of the rows.
pub open spec fn in_order(rows: Seq<RowView>, entries: Seq<DirEntryView>) -> bool {
    &&& entries.len() <= rows.len()
    &&& forall|i: int| 0 <= i < entries.len() ==> entry_of(rows[i], #[trigger] entries[i])
}

/// Whether a listing that is under way holds what it should: it waits for the
/// stats of a link, and has collected the entries of the rows before it.
pub open spec fn on_course(state: Listing) -> bool {
    match state {
        Listing::Resolving { rows, next, entries } => {
            &&& next < rows@.len()
            &&& rows@[next as int] is Link
            &&& entries@.len() == next
            &&& in_order(row_views(rows@), entry_views(entries@))
        },
        _ => true,
    }
}

/// `next_link` lies between `from` and the number of rows; the rows from `from`
/// up to it are no links; and it is a link unless it is the number of rows.
pub proof fn lemma_next_link(rows: Seq<RowView>, from: int)
    requires
        0 <= from <= rows.len(),
    ensures
        from <= next_link(rows, from) <= rows.len(),
        forall|i: int| from <= i < next_link(rows, from) ==> (#[trigger] rows[i]) is Entry,
        next_link(rows, from) < rows.len() ==> rows[next_link(rows, from)] is Link,
    decreases rows.len() - from,
{
    if from < rows.len() && !(rows[from] is Link) {
        lemma_next_link(rows, from + 1);
    }
}

/// A listing gives one entry for each row, in the order of the rows. Where
/// entries were collected for the rows before `from`, what `settled` describes
/// is on course again, and a listing that it finishes holds an entry for every
/// row.
pub proof fn lemma_settled_in_order(
    r: (Listing, ListingAction),
    rows: Seq<RowView>,
    from: int,
    entries: Seq<DirEntryView>,
)
    requires
        0 <= from <= rows.len(),
        entries.len() == from,
        in_order(rows, entries),
        settled(r, rows, from, entries),
    ensures
        on_course(r.0),
        r.0 matches Listing::Resolving { rows: kept, next, entries: held } ==> row_views(kept@)
            == rows,
        r.1 matches ListingAction::Finished(held) ==> held@.len() == rows.len() && in_order(
            rows,
            entry_views(held@),
        ),
        !(r.1 is Fail),
{
    lemma_next_link(rows, from);
    let stop = next_link(rows, from);
    let collected = entries + entries_between(rows, from, stop);
    assert forall|i: int| 0 <= i < collected.len() implies entry_of(
        rows[i],
        #[trigger] collected[i],
    ) by {
        if i < from {
            assert(collected[i] == entries[i]);
        } else {
            assert(collected[i] == rows[i]->Entry_0);
            assert(rows[i] is Entry);
        }
    }
    if stop < rows.len() {
        match r.0 {
            Listing::Resolving { rows: kept, next, entries: held } => {
                assert(row_views(kept@)[next as int] == kept@[next as int]@);
            },
            _ => {},
        }
    }
}

/// A listing that is on course stays so with every step, gives one entry for
/// each row when it is finished, and fails only where the listing command
/// itself has failed.
pub proof fn lemma_listing_in_order(state: Listing, event: ExecEvent, r: (Listing, ListingAction))
    requires
        on_course(state),
        !(state is Done),
        match state {
            Listing::Reading { path } => match checked(event) {
                Ok(output) => settled(
                    r,
                    listing_rows(output.stdout@, path@),
                    0,
                    Seq::<DirEntryView>::empty(),
                ),
                Err(e) => r.0 is Done && r.1 == ListingAction::Fail(e),
            },
            Listing::Resolving { rows, next, entries } => settled(
                r,
                row_views(rows@),
                next + 1,
                entry_views(entries@).push(
                    link_entry_view(
                        rows@[next as int]->name@,
                        rows@[next as int]->permissions@,
                        stats_outcome(event),
                    ),
                ),
            ),
            Listing::Done => true,
        },
    ensures
        on_course(r.0),
        match state {
            Listing::Reading { path } => match checked(event) {
                Ok(output) => r.1 matches ListingAction::Finished(held) ==> held@.len()
                    == listing_rows(output.stdout@, path@).len() && in_order(
                    listing_rows(output.stdout@, path@),
                    entry_views(held@),
                ),
                Err(e) => r.1 == ListingAction::Fail(e),
            },
            Listing::Resolving { rows, next, entries } => {
                &&& !(r.1 is Fail)
                &&& r.0 matches Listing::Resolving { rows: kept, next: n, entries: held }
                    ==> row_views(kept@) == row_views(rows@)
                &&& r.1 matches ListingAction::Finished(held) ==> held@.len() == rows@.len()
                    && in_order(row_views(rows@), entry_views(held@))
            },
            Listing::Done => true,
        },
{
    match state {
        Listing::Reading { path } => match checked(event) {
            Ok(output) => {
                lemma_settled_in_order(
                    r,
                    listing_rows(output.stdout@, path@),
                    0,
                    Seq::<DirEntryView>::empty(),
                );
            },
            Err(e) => {},
        },
        Listing::Resolving { rows, next, entries } => {
            let views = row_views(rows@);
            let entry = link_entry_view(
                rows@[next as int]->name@,
                rows@[next as int]->permissions@,
                stats_outcome(event),
            );
            let found = entry_views(entries@).push(entry);
            assert(views[next as int] == rows@[next as int]@);
            assert forall|i: int| 0 <= i < found.len() implies entry_of(
                views[i],
                #[trigger] found[i],
            ) by {
                if i < next {
                    assert(found[i] == entry_views(entries@)[i]);
                }
            }
            lemma_settled_in_order(r, views, next + 1, found);
        },
        Listing::Done => {},
    }
}

/// A copy of an entry.
fn copy_entry(entry: &DirEntry) -> (r: DirEntry)
    ensures
        r == *entry,
{
    DirEntry {
        name: entry.name.clone(),
        is_dir: entry.is_dir,
        is_linked: entry.is_linked,
        size: entry.size.clone(),
        permissions: entry.permissions.clone(),
        modified: entry.modified.clone(),
    }
}

/// Collects the entries of the rows from `from` on, up to the next link.
fn settle(rows: Vec<ListingRow>, from: usize, found: Vec<DirEntry>) -> (r: (
    Listing,
    ListingAction,
))
    requires
        from <= rows.len(),
    ensures
        settled(r, row_views(rows@), from as int, entry_views(found@)),
{
    let ghost views = row_views(rows@);
    let ghost start = entry_views(found@);
    let mut entries = found;
    let mut i: usize = from;
    assert(entry_views(entries@) =~= start + entries_between(views, from as int, i as int));
    while i < rows.len()
        invariant
            from <= i <= rows.len(),
            views == row_views(rows@),
            start == entry_views(found@),
            next_link(views, from as int) == next_link(views, i as int),
            entry_views(entries@) == start + entries_between(views, from as int, i as int),
        decreases rows.len() - i,
    {
        assert(views[i as int] == rows@[i as int]@);
        match &rows[i] {
            ListingRow::Entry(entry) => {
                let ghost before = entry_views(entries@);
                entries.push(copy_entry(entry));
                assert(entry_views(entries@) =~= before.push(entry@));
                assert(entries_between(views, from as int, i + 1) =~= entries_between(
                    views,
                    from as int,
                    i as int,
                ).push(entry@));
            },
            ListingRow::Link { name: _, permissions: _, target } => {
                let command = stat_command(target.as_str());
                assert(views[i as int] is Link);
                assert(views[i as int]->target == target@);
                assert(next_link(views, i as int) == i);
                return (
                    Listing::Resolving { rows, next: i, entries },
                    ListingAction::Execute(command),
                );
            },
        }
        i = i + 1;
    }
    (Listing::Done, ListingAction::Finished(entries))
}

/// Takes a listing one step on with the outcome of the command that ran for
/// it.
pub fn advance_listing(state: Listing, event: ExecEvent) -> (r: (Listing, ListingAction))
    ensures
        match state {
            Listing::Reading { path } => match checked(event) {
                Ok(output) => settled(
                    r,
                    listing_rows(output.stdout@, path@),
                    0,
                    Seq::<DirEntryView>::empty(),
                ),
                Err(e) => r.0 is Done && r.1 == ListingAction::Fail(e),
            },
            Listing::Resolving { rows, next, entries } => if next < rows@.len()
                && rows@[next as int] is Link {
                settled(
                    r,
                    row_views(rows@),
                    next + 1,
                    entry_views(entries@).push(
                        link_entry_view(
                            rows@[next as int]->name@,
                            rows@[next as int]->permissions@,
                            stats_outcome(event),
                        ),
                    ),
                )
            } else {
                r.0 is Done && r.1 == ListingAction::Fail(Error::UnexpectedEvent)
            },
            Listing::Done => r.0 is Done && r.1 == ListingAction::Fail(Error::UnexpectedEvent),
        },
{
    match state {
        Listing::Reading { path } => match check(event) {
            Ok(output) => {
                let rows = parse_listing(output.stdout.as_str(), path.as_str());
                let entries: Vec<DirEntry> = Vec::new();
                assert(entry_views(entries@) =~= Seq::<DirEntryView>::empty());
                settle(rows, 0, entries)
            },
            Err(e) => (Listing::Done, ListingAction::Fail(e)),
        },
        Listing::Resolving { rows, next, entries } => {
            if next >= rows.len() {
                return (Listing::Done, ListingAction::Fail(Error::UnexpectedEvent));
            }
            let entry = match &rows[next] {
                ListingRow::Link { name, permissions, target: _ } => {
                    let stats = match get_target_stats(event) {
                        Ok(stats) => Some(stats),
                        Err(_) => None,
                    };
                    link_entry(name.clone(), permissions.clone(), stats)
                },
                ListingRow::Entry(_) => {
                    return (Listing::Done, ListingAction::Fail(Error::UnexpectedEvent));
                },
            };
            let ghost before = entry_views(entries@);
            let mut entries = entries;
            entries.push(entry);
            assert(entry_views(entries@) =~= before.push(entry@));
            settle(rows, next + 1, entries)
        },
        Listing::Done => (Listing::Done, ListingAction::Fail(Error::UnexpectedEvent)),
    }
}

/// Starts listing the directory `path` of the project with the key: the state
/// to go on from, and the listing command to run on the project's session.
pub fn get_dir_contents<'a, S, I>(registry: &'a Registry<S, I>, key: &str, path: &str) -> (r:
    Result<(Listing, Request<'a, S>), LookupError>)
    ensures
        match r {
            Ok((state, request)) => {
                &&& contains_key(registry@, key@)
                &&& state matches Listing::Reading { path: held }
                &&& held@ == path@
                &&& request.command@ == list_command_text(path@)
                &&& *request.connection == project_of(registry@, key@).main_connection
            },
            Err(e) => e == LookupError::ProjectNotFound && !contains_key(registry@, key@),
        },
{
    let project = get_project_by_key(registry, key)?;
    Ok(
        (
            Listing::Reading { path: path.to_string() },
            Request { connection: &project.main_connection, command: list_command(path) },
        ),
    )
}

/// What to run on the session of the project with the key.
fn request_for<'a, S, I>(registry: &'a Registry<S, I>, key: &str, command: String) -> (r: Result<
    Request<'a, S>,
    LookupError,
>)
    ensures
        match r {
            Ok(request) => {
                &&& contains_key(registry@, key@)
                &&& request.command == command
                &&& *request.connection == project_of(registry@, key@).main_connection
            },
            Err(e) => e == LookupError::ProjectNotFound && !contains_key(registry@, key@),
        },
{
    let project = get_project_by_key(registry, key)?;
    Ok(Request { connection: &project.main_connection, command })
}

/// The command that creates the file `path`, to run on the session of the
/// project with the key.
pub fn create_file<'a, S, I>(registry: &'a Registry<S, I>, key: &str, path: &str) -> (r: Result<
    Request<'a, S>,
    LookupError,
>)
    ensures
        match r {
            Ok(request) => {
                &&& contains_key(registry@, key@)
                &&& request.command@ == create_file_text(path@)
                &&& *request.connection == project_of(registry@, key@).main_connection
            },
            Err(e) => e == LookupError::ProjectNotFound && !contains_key(registry@, key@),
        },
{
    let command = command_with_path("touch ", path, "");
    proof {
        reveal_strlit("");
        assert(command@ =~= create_file_text(path@));
    }
    request_for(registry, key, command)
}

/// The command that creates the directory `path`, to run on the session of the
/// project with the key.
pub fn create_folder<'a, S, I>(registry: &'a Registry<S, I>, key: &str, path: &str) -> (r: Result<
    Request<'a, S>,
    LookupError,
>)
    ensures
        match r {
            Ok(request) => {
                &&& contains_key(registry@, key@)
                &&& request.command@ == create_folder_text(path@)
                &&& *request.connection == project_of(registry@, key@).main_connection
            },
            Err(e) => e == LookupError::ProjectNotFound && !contains_key(registry@, key@),
        },
{
    let command = command_with_path("mkdir -p ", path, "");
    proof {
        reveal_strlit("");
        assert(command@ =~= create_folder_text(path@));
    }
    request_for(registry, key, command)
}

/// The command that deletes `path`, to run on the session of the project with
/// the key.
pub fn delete_item<'a, S, I>(
    registry: &'a Registry<S, I>,
    key: &str,
    path: &str,
    is_dir: bool,
) -> (r: Result<Request<'a, S>, LookupError>)
    ensures
        match r {
            Ok(request) => {
                &&& contains_key(registry@, key@)
                &&& request.command@ == delete_text(path@, is_dir)
                &&& *request.connection == project_of(registry@, key@).main_connection
            },
            Err(e) => e == LookupError::ProjectNotFound && !contains_key(registry@, key@),
        },
{
    let command = if is_dir {
        command_with_path("rm -r ", path, "")
    } else {
        command_with_path("rm ", path, "")
    };
    proof {
        reveal_strlit("");
        assert(command@ =~= delete_text(path@, is_dir));
    }
    request_for(registry, key, command)
}

/// Whether a command that creates or deletes has done so: it has when it ended
/// with status zero.
pub fn completed(event: ExecEvent) -> (r: Result<(), Error>)
    ensures
        match checked(event) {
            Ok(_) => r is Ok,
            Err(e) => r == Err::<(), Error>(e),
        },
{
    match check(event) {
        Ok(_) => Ok(()),
        Err(e) => Err(e),
    }
}

} // verus!
