//! The store against a file system that does what it is asked.
//!
//! Nothing here runs. A [`Disk`] is the part of a file system that the
//! store can see, and a turn is what a host without faults does for the
//! pending call of a protocol: it changes the disk as asked and reports
//! truthfully. The laws below say what saving and loading amount to on such
//! a host; they are proved from the same transition functions that the
//! executable protocol is proved to follow.

use vstd::prelude::*;

use crate::decimal::{
    decimal_text, is_numeral, lemma_parse_of_decimal_text, lemma_parse_rejects_non_numeral,
    parse_text,
};
use crate::location::Location;
use crate::store::{
    load_next, load_start, save_next, save_start, LoadReportView, LoadStateView, SaveStateView,
    DEFAULT_MOOD, SAVED_MESSAGE,
};

verus! {

/// What the host says of a directory or file that is not there.
pub open spec fn not_found() -> Seq<char> {
    "No such file or directory"@
}

/// The directories and files that exist, each under its path components,
/// and what each file holds.
pub struct Disk {
    pub dirs: Set<Seq<Seq<char>>>,
    pub files: Map<Seq<Seq<char>>, Seq<char>>,
}

/// Whether `dir` is `target` or one of the directories above it.
pub open spec fn leads_to(dir: Seq<Seq<char>>, target: Seq<Seq<char>>) -> bool {
    0 < dir.len() <= target.len() && dir == target.take(dir.len() as int)
}

/// The directories that exist once `target` has been created with every
/// missing ancestor.
pub open spec fn with_dir_all(dirs: Set<Seq<Seq<char>>>, target: Seq<Seq<char>>) -> Set<
    Seq<Seq<char>>,
> {
    Set::new(|dir: Seq<Seq<char>>| dirs.contains(dir) || leads_to(dir, target))
}

/// A save after the host has made the pending call, and the disk as the
/// call leaves it.
///
/// Creating the directory always succeeds, and creates the directories
/// above it that are missing. Writing succeeds where the directory exists,
/// and then the file holds the new contents and nothing of the old;
/// elsewhere it fails and the disk stays as it was.
pub open spec fn save_turn(state: SaveStateView, disk: Disk) -> (SaveStateView, Disk) {
    match state {
        SaveStateView::CreateDir { path, content } => (
            save_next(state, Ok(())),
            Disk { dirs: with_dir_all(disk.dirs, path.directory()), files: disk.files },
        ),
        SaveStateView::WriteFile { path, content } => if disk.dirs.contains(path.directory()) {
            (
                save_next(state, Ok(())),
                Disk { dirs: disk.dirs, files: disk.files.insert(path.file(), content) },
            )
        } else {
            (save_next(state, Err(not_found())), disk)
        },
        SaveStateView::Done { reply } => (state, disk),
    }
}

/// A load after the host has made the pending call. No call of a load
/// changes the disk.
pub open spec fn load_turn(state: LoadStateView, disk: Disk) -> LoadStateView {
    match state {
        LoadStateView::Probe { path } => load_next(
            state,
            LoadReportView::Exists(disk.files.contains_key(path.file())),
        ),
        LoadStateView::Read { path } => if disk.files.contains_key(path.file()) {
            load_next(state, LoadReportView::Contents(Ok(disk.files[path.file()])))
        } else {
            load_next(state, LoadReportView::Contents(Err(not_found())))
        },
        LoadStateView::Done { reply } => state,
    }
}

/// A whole save of `mood` at `path`: where it ends, and the disk it leaves.
pub open spec fn run_save(disk: Disk, path: Location, mood: i32) -> (SaveStateView, Disk) {
    let first = save_turn(save_start(path, mood), disk);
    save_turn(first.0, first.1)
}

/// A whole load from `path`: where it ends.
pub open spec fn run_load(disk: Disk, path: Location) -> LoadStateView {
    load_turn(load_turn(load_start(path), disk), disk)
}

/// A whole save succeeds on every disk. It leaves the directory in
/// existence, with every directory above it, and the numeral of the mood as
/// the whole contents of the file; nothing else on the disk changes.
pub proof fn lemma_run_save(disk: Disk, path: Location, mood: i32)
    ensures
        run_save(disk, path, mood).0 == (SaveStateView::Done { reply: Ok(SAVED_MESSAGE@) }),
        run_save(disk, path, mood).1 == (Disk {
            dirs: with_dir_all(disk.dirs, path.directory()),
            files: disk.files.insert(path.file(), decimal_text(mood as int)),
        }),
        run_save(disk, path, mood).1.dirs.contains(path.directory()),
{
    let dir = path.directory();
    assert(dir.take(dir.len() as int) =~= dir);
}

/// A save succeeds whatever the disk held before, and a load that follows
/// it answers with the mood that was saved.
pub proof fn save_then_load_round_trips(disk: Disk, path: Location, mood: i32)
    ensures
        run_save(disk, path, mood).0 == (SaveStateView::Done { reply: Ok(SAVED_MESSAGE@) }),
        run_load(run_save(disk, path, mood).1, path) == (LoadStateView::Done { reply: Ok(mood) }),
{
    lemma_run_save(disk, path, mood);
    lemma_parse_of_decimal_text(mood);
}

/// After two saves a load answers with the mood that was saved last.
pub proof fn last_save_wins(disk: Disk, path: Location, first: i32, second: i32)
    ensures
        run_load(run_save(run_save(disk, path, first).1, path, second).1, path) == (
        LoadStateView::Done { reply: Ok(second) }),
{
    save_then_load_round_trips(run_save(disk, path, first).1, path, second);
}

/// While no file exists a load answers with the default mood, and not with
/// an error.
pub proof fn load_without_file_gives_default(disk: Disk, path: Location)
    requires
        !disk.files.contains_key(path.file()),
    ensures
        run_load(disk, path) == (LoadStateView::Done { reply: Ok(DEFAULT_MOOD) }),
{
}

/// A file that holds anything but a numeral makes a load fail with the
/// reason why the text could not be read; the load does not fall back on the
/// default mood.
pub proof fn load_rejects_corrupt_file(disk: Disk, path: Location)
    requires
        disk.files.contains_key(path.file()),
        !is_numeral(disk.files[path.file()]),
    ensures
        parse_text(disk.files[path.file()]) is Err,
        run_load(disk, path) == (LoadStateView::Done {
            reply: Err(parse_text(disk.files[path.file()])->Err_0.message_text()),
        }),
{
    lemma_parse_rejects_non_numeral(disk.files[path.file()]);
}

/// A save where the directory does not exist yet succeeds all the same.
/// Afterwards the directory exists with every directory above it, nothing
/// that existed before is gone, and the file holds the numeral of the mood.
pub proof fn save_makes_its_directory(disk: Disk, path: Location, mood: i32)
    requires
        !disk.dirs.contains(path.directory()),
    ensures
        run_save(disk, path, mood).0 == (SaveStateView::Done { reply: Ok(SAVED_MESSAGE@) }),
        forall|dir: Seq<Seq<char>>| #[trigger]
            leads_to(dir, path.directory()) ==> run_save(disk, path, mood).1.dirs.contains(dir),
        run_save(disk, path, mood).1.dirs.contains(path.directory()),
        disk.dirs.subset_of(run_save(disk, path, mood).1.dirs),
        run_save(disk, path, mood).1.files.contains_key(path.file()),
        run_save(disk, path, mood).1.files[path.file()] == decimal_text(mood as int),
{
    lemma_run_save(disk, path, mood);
}

} // verus!
