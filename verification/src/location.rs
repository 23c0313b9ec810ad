//! Where the mood file lives.
//!
//! The file has a fixed name inside a fixed folder, and the folder hangs
//! under the per-user application-data directory. When the host knows no
//! such directory, the folder hangs under the current directory instead, and
//! the location says so.
//!
//! A location is kept as path components and never joined here: how
//! components make a path is the platform's business.

use vstd::prelude::*;

verus! {

/// The folder that holds the store's file.
pub const APP_FOLDER: &'static str = "MoodTracker";

/// The name of the store's file.
pub const MOOD_FILE: &'static str = "mood_data.txt";

/// The base directory used when no application-data directory is known: the
/// current directory.
pub const FALLBACK_BASE: &'static str = ".";

/// The location of the mood file as the contracts see it.
pub struct Location {
    /// The directory under which the store's folder hangs.
    pub base: Seq<char>,
    /// Whether `base` is the fallback.
    pub fallback: bool,
}

impl Location {
    /// The components of the directory that holds the file.
    pub open spec fn directory(self) -> Seq<Seq<char>> {
        seq![self.base, APP_FOLDER@]
    }

    /// The components of the file's path: those of its directory, then its
    /// name.
    pub open spec fn file(self) -> Seq<Seq<char>> {
        seq![self.base, APP_FOLDER@, MOOD_FILE@]
    }
}

/// The location that follows from the application-data directory, if the
/// host knows one.
pub open spec fn mood_file_location(app_data: Option<Seq<char>>) -> Location {
    match app_data {
        Some(dir) => Location { base: dir, fallback: false },
        None => Location { base: FALLBACK_BASE@, fallback: true },
    }
}

/// The texts of a list of path components.
pub open spec fn component_texts(parts: Seq<String>) -> Seq<Seq<char>> {
    Seq::new(parts.len(), |i: int| parts[i]@)
}

/// The location of the mood file.
#[derive(Clone, Debug)]
pub struct MoodFilePath {
    /// The directory under which the store's folder hangs.
    pub base: String,
    /// Whether `base` is the fallback, chosen for want of an
    /// application-data directory.
    pub fallback: bool,
}

impl View for MoodFilePath {
    type V = Location;

    open spec fn view(&self) -> Location {
        Location { base: self.base@, fallback: self.fallback }
    }
}

impl MoodFilePath {
    /// The components of the directory that holds the file, outermost first.
    pub fn directory(&self) -> (parts: Vec<String>)
        ensures
            component_texts(parts@) == self@.directory(),
    {
        let mut parts: Vec<String> = Vec::new();
        parts.push(self.base.clone());
        parts.push(String::from_str(APP_FOLDER));
        parts
    }

    /// The components of the file's path, outermost first.
    pub fn file(&self) -> (parts: Vec<String>)
        ensures
            component_texts(parts@) == self@.file(),
    {
        let mut parts: Vec<String> = Vec::new();
        parts.push(self.base.clone());
        parts.push(String::from_str(APP_FOLDER));
        parts.push(String::from_str(MOOD_FILE));
        parts
    }
}

/// Decides where the mood file lives.
///
/// `app_data` is the per-user application-data directory as the environment
/// gives it, or `None` when the environment gives none. With a directory the
/// file lives under it; without one it lives under the current directory.
pub fn get_mood_file_path(app_data: Option<String>) -> (path: MoodFilePath)
    ensures
        path@ == mood_file_location(
            match app_data {
                Some(dir) => Some(dir@),
                None => None,
            },
        ),
{
    match app_data {
        Some(dir) => MoodFilePath { base: dir, fallback: false },
        None => MoodFilePath { base: String::from_str(FALLBACK_BASE), fallback: true },
    }
}

} // verus!
