//! Saving and loading a mood, one file-system call at a time.
//!
//! The store never touches the file system. A save or a load is a small
//! protocol: its state names the one call that the host has to make next,
//! the host makes it and reports what happened, and the state that follows
//! names the next call or holds the answer for the caller. Every failure
//! that the host reports ends the protocol at once, with the host's words as
//! the error.

use vstd::prelude::*;

use crate::decimal::{decimal_text, format_mood, parse_mood, parse_text};
use crate::location::{Location, MoodFilePath};

verus! {

/// The mood that a load answers with while no file exists: neutral.
pub const DEFAULT_MOOD: i32 = 3;

/// What a save answers with when the file is written.
pub const SAVED_MESSAGE: &'static str = "Mood saved successfully!";

/// A save in progress.
#[derive(Debug)]
pub enum SaveState {
    /// The host has to create the directory `path.directory()` with every
    /// missing ancestor.
    CreateDir { path: MoodFilePath, content: String },
    /// The host has to replace the whole contents of the file `path.file()`
    /// with `content`, creating the file if there is none.
    WriteFile { path: MoodFilePath, content: String },
    /// The save is over and `reply` goes to the caller.
    Done { reply: Result<String, String> },
}

/// A save in progress as the contracts see it: each text by its
/// characters.
pub enum SaveStateView {
    /// The directory is to be created.
    CreateDir { path: Location, content: Seq<char> },
    /// The file is to be written.
    WriteFile { path: Location, content: Seq<char> },
    /// The save is over.
    Done { reply: Result<Seq<char>, Seq<char>> },
}

impl View for SaveState {
    type V = SaveStateView;

    open spec fn view(&self) -> SaveStateView {
        match self {
            SaveState::CreateDir { path, content } => SaveStateView::CreateDir {
                path: path@,
                content: content@,
            },
            SaveState::WriteFile { path, content } => SaveStateView::WriteFile {
                path: path@,
                content: content@,
            },
            SaveState::Done { reply } => SaveStateView::Done {
                reply: match reply {
                    Ok(message) => Ok(message@),
                    Err(error) => Err(error@),
                },
            },
        }
    }
}

/// A load in progress.
#[derive(Debug)]
pub enum LoadState {
    /// The host has to say whether the file `path.file()` exists.
    Probe { path: MoodFilePath },
    /// The host has to read the whole contents of the file `path.file()` as
    /// text.
    Read { path: MoodFilePath },
    /// The load is over and `reply` goes to the caller.
    Done { reply: Result<i32, String> },
}

/// A load in progress as the contracts see it: each text by its
/// characters.
pub enum LoadStateView {
    /// The file's existence is to be found out.
    Probe { path: Location },
    /// The file is to be read.
    Read { path: Location },
    /// The load is over.
    Done { reply: Result<i32, Seq<char>> },
}

impl View for LoadState {
    type V = LoadStateView;

    open spec fn view(&self) -> LoadStateView {
        match self {
            LoadState::Probe { path } => LoadStateView::Probe { path: path@ },
            LoadState::Read { path } => LoadStateView::Read { path: path@ },
            LoadState::Done { reply } => LoadStateView::Done {
                reply: match reply {
                    Ok(mood) => Ok(*mood),
                    Err(error) => Err(error@),
                },
            },
        }
    }
}

/// What the host reports to a load.
#[derive(Debug)]
pub enum LoadReport {
    /// Whether the file exists.
    Exists(bool),
    /// The whole contents of the file, or the text of the error that kept
    /// the host from reading them.
    Contents(Result<String, String>),
}

/// What the host reports to a load as the contracts see it: each text by
/// its characters.
pub enum LoadReportView {
    /// Whether the file exists.
    Exists(bool),
    /// The contents of the file, or the text of the error.
    Contents(Result<Seq<char>, Seq<char>>),
}

impl View for LoadReport {
    type V = LoadReportView;

    open spec fn view(&self) -> LoadReportView {
        match self {
            LoadReport::Exists(exists) => LoadReportView::Exists(*exists),
            LoadReport::Contents(outcome) => LoadReportView::Contents(
                match outcome {
                    Ok(content) => Ok(content@),
                    Err(error) => Err(error@),
                },
            ),
        }
    }
}

/// How a save begins: the directory comes first, and what will be written
/// is the numeral of the mood.
pub open spec fn save_start(path: Location, mood: i32) -> SaveStateView {
    SaveStateView::CreateDir { path, content: decimal_text(mood as int) }
}

/// The state of a save after the host has reported on the pending call.
///
/// A failure ends the save with the host's words. Success moves on from the
/// directory to the file, and from the file to the end. A save that is over
/// stays as it is.
pub open spec fn save_next(state: SaveStateView, outcome: Result<(), Seq<char>>) -> SaveStateView {
    match state {
        SaveStateView::CreateDir { path, content } => match outcome {
            Ok(_) => SaveStateView::WriteFile { path, content },
            Err(error) => SaveStateView::Done { reply: Err(error) },
        },
        SaveStateView::WriteFile { path, content } => match outcome {
            Ok(_) => SaveStateView::Done { reply: Ok(SAVED_MESSAGE@) },
            Err(error) => SaveStateView::Done { reply: Err(error) },
        },
        SaveStateView::Done { reply } => state,
    }
}

/// How a load begins: by asking whether the file exists.
pub open spec fn load_start(path: Location) -> LoadStateView {
    LoadStateView::Probe { path }
}

/// What a load answers with when the file holds `content`: the mood that
/// the text denotes, or the sentence that says why it denotes none.
pub open spec fn load_reply(content: Seq<char>) -> Result<i32, Seq<char>> {
    match parse_text(content) {
        Ok(mood) => Ok(mood),
        Err(error) => Err(error.message_text()),
    }
}

/// The state of a load after the host has reported on the pending call.
///
/// Where the load asked whether the file exists: an existing file is read
/// next, and without a file the load ends with the default mood. Where it
/// asked for the contents: a failure ends the load with the host's words,
/// and contents end it with the mood they denote or with the reason why they
/// denote none. A report that the load did not ask for changes nothing, and
/// a load that is over stays as it is.
pub open spec fn load_next(state: LoadStateView, report: LoadReportView) -> LoadStateView {
    match (state, report) {
        (LoadStateView::Probe { path }, LoadReportView::Exists(exists)) => if exists {
            LoadStateView::Read { path }
        } else {
            LoadStateView::Done { reply: Ok(DEFAULT_MOOD) }
        },
        (LoadStateView::Read { path }, LoadReportView::Contents(outcome)) => match outcome {
            Ok(content) => LoadStateView::Done { reply: load_reply(content) },
            Err(error) => LoadStateView::Done { reply: Err(error) },
        },
        _ => state,
    }
}

/// Begins to save `mood` in the file at `path`.
pub fn save_mood(path: MoodFilePath, mood: i32) -> (state: SaveState)
    ensures
        state@ == save_start(path@, mood),
{
    SaveState::CreateDir { path, content: format_mood(mood) }
}

impl SaveState {
    /// Takes the host's report on the pending call: `Ok` when the call
    /// succeeded, else the text of the error.
    pub fn advance(self, outcome: Result<(), String>) -> (next: SaveState)
        ensures
            next@ == save_next(
                self@,
                match outcome {
                    Ok(_) => Ok(()),
                    Err(error) => Err(error@),
                },
            ),
    {
        match self {
            SaveState::CreateDir { path, content } => match outcome {
                Ok(_) => SaveState::WriteFile { path, content },
                Err(error) => SaveState::Done { reply: Err(error) },
            },
            SaveState::WriteFile { path, content } => match outcome {
                Ok(_) => SaveState::Done { reply: Ok(String::from_str(SAVED_MESSAGE)) },
                Err(error) => SaveState::Done { reply: Err(error) },
            },
            SaveState::Done { reply } => SaveState::Done { reply },
        }
    }
}

/// Begins to load the mood from the file at `path`.
pub fn load_mood(path: MoodFilePath) -> (state: LoadState)
    ensures
        state@ == load_start(path@),
{
    LoadState::Probe { path }
}

impl LoadState {
    /// Takes the host's report on the pending call.
    pub fn advance(self, report: LoadReport) -> (next: LoadState)
        ensures
            next@ == load_next(self@, report@),
    {
        match (self, report) {
            (LoadState::Probe { path }, LoadReport::Exists(exists)) => if exists {
                LoadState::Read { path }
            } else {
                LoadState::Done { reply: Ok(DEFAULT_MOOD) }
            },
            (LoadState::Read { path }, LoadReport::Contents(outcome)) => match outcome {
                Ok(content) => match parse_mood(content.as_str()) {
                    Ok(mood) => LoadState::Done { reply: Ok(mood) },
                    Err(error) => LoadState::Done { reply: Err(error.message()) },
                },
                Err(error) => LoadState::Done { reply: Err(error) },
            },
            (state, _) => state,
        }
    }
}

} // verus!
