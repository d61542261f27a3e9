//! The decisions of the directory walk and of the workers that take its
//! files. The walk itself and the channels between the threads are the
//! caller's: it reports what it found and is told how to go on.

use relative_path::RelativePathBuf;
use std::path::Path;
use vstd::prelude::*;

verus! {

/// What `Path::strip_prefix` of std gives for the path `path` and the base
/// `directory`: the part of `path` below `directory`, or nothing where
/// `path` does not lie below it.
pub uninterp spec fn path_below(path: Seq<char>, directory: Seq<char>) -> Option<Seq<char>>;

/// What `RelativePathBuf::from_path` gives for `path`: its components with
/// `/` between them, or nothing where the path is not relative.
pub uninterp spec fn relative_path_of(path: Seq<char>) -> Option<Seq<char>>;

/// The text of a string that may be absent.
pub open spec fn text_of(text: Option<String>) -> Option<Seq<char>> {
    match text {
        Some(text) => Some(text@),
        None => None,
    }
}

/// The key of a file of which `below` is the part of its path below the
/// root: the relative form of that part. A file that does not lie below the
/// root has none.
pub open spec fn key_below(below: Option<Seq<char>>) -> Option<Seq<char>> {
    match below {
        Some(below) => relative_path_of(below),
        None => None,
    }
}

/// The key under which the file at `path` is reported in a project rooted
/// at `directory`.
pub open spec fn key_of(directory: Seq<char>, path: Seq<char>) -> Option<Seq<char>> {
    key_below(path_below(path, directory))
}

/// Calls `Path::strip_prefix` of std on two paths given as text. The
/// answer depends on the two texts alone: std splits them into components
/// by the rules of the platform that the library is built for and reads
/// nothing else.
#[verifier::external_body]
fn strip_directory(path: &str, directory: &str) -> (below: Option<String>)
    ensures
        text_of(below) == path_below(path@, directory@),
{
    Path::new(path).strip_prefix(directory).ok().map(|p| p.to_string_lossy().into_owned())
}

/// Calls `RelativePathBuf::from_path` on a path given as text. The answer
/// depends on the text alone: the components of the path, as std splits
/// them, are joined with `/`, and a path with a root or a prefix has none.
#[verifier::external_body]
fn relative_form(path: &str) -> (relative: Option<String>)
    ensures
        text_of(relative) == relative_path_of(path@),
{
    RelativePathBuf::from_path(path).ok().map(|p| p.into_string())
}

/// The key of a file of which `below` is the part of its path below the
/// root, or `None` where the file does not lie below the root: that part in
/// relative form, with `/` between its components.
pub fn relative_key(below: Option<String>) -> (key: Option<String>)
    ensures
        text_of(key) == key_below(text_of(below)),
{
    match below {
        Some(below) => relative_form(below.as_str()),
        None => None,
    }
}

/// The key under which the file at `path` is reported: its path relative to
/// `directory`, with `/` between the components. A file that does not lie
/// below `directory` has no key and is not reported.
pub fn file_key(directory: &str, path: &str) -> (key: Option<String>)
    ensures
        text_of(key) == key_of(directory@, path@),
{
    relative_key(strip_directory(path, directory))
}

/// What the walk hands to the workers.
#[derive(Debug)]
pub enum WorkerResult {
    /// The path of a file to examine.
    Entry(String),
    /// An entry that could not be read.
    Error(ignore::Error),
}

/// What the walk found at one step.
#[derive(Clone, Copy, Debug, PartialEq, Eq, Structural)]
pub enum WalkEvent {
    /// A directory entry.
    Entry {
        /// How far below the root the entry lies; 0 for the root itself.
        depth: usize,
        /// Whether the entry is the root of an installed dependency.
        is_module: bool,
        /// Whether the entry is a regular file.
        is_file: bool,
    },
    /// An entry that could not be read.
    Error,
}

/// What to do with what the walk found.
#[derive(Clone, Copy, Debug, PartialEq, Eq, Structural)]
pub enum Visit {
    /// Go on; there is nothing to hand to the workers.
    Continue,
    /// Do not descend into this entry.
    Skip,
    /// Hand the entry, or the error, to the workers.
    Send,
}

/// How the walk goes on.
#[derive(Clone, Copy, Debug, PartialEq, Eq, Structural)]
pub enum WalkState {
    /// Go on with the next entry.
    Continue,
    /// Do not descend into this entry.
    Skip,
    /// End the walk.
    Quit,
}

/// What a worker does next.
#[derive(Debug)]
pub enum WorkerStep {
    /// Examine the file at this path.
    Extract(String),
    /// Take the next item.
    Next,
    /// End: the walk is over and nothing is left.
    Stop,
}

/// What is done with an event of the walk: the root is passed over, an
/// installed dependency is not entered, a file is handed to the workers and
/// so is an error; anything else is passed over.
pub open spec fn visit_of(event: WalkEvent) -> Visit {
    match event {
        WalkEvent::Error => Visit::Send,
        WalkEvent::Entry { depth, is_module, is_file } => if depth == 0 {
            Visit::Continue
        } else if is_module {
            Visit::Skip
        } else if is_file {
            Visit::Send
        } else {
            Visit::Continue
        },
    }
}

/// Decides what to do with what the walk found.
pub fn visit_entry(event: WalkEvent) -> (visit: Visit)
    ensures
        visit == visit_of(event),
{
    match event {
        WalkEvent::Error => Visit::Send,
        WalkEvent::Entry { depth, is_module, is_file } => {
            if depth == 0 {
                Visit::Continue
            } else if is_module {
                Visit::Skip
            } else if is_file {
                Visit::Send
            } else {
                Visit::Continue
            }
        },
    }
}

/// How the walk goes on after `visit`, where `delivered` says whether the
/// workers took what was sent: it ends when they no longer take anything.
pub fn walk_state(visit: Visit, delivered: bool) -> (state: WalkState)
    ensures
        state == match visit {
            Visit::Continue => WalkState::Continue,
            Visit::Skip => WalkState::Skip,
            Visit::Send => if delivered {
                WalkState::Continue
            } else {
                WalkState::Quit
            },
        },
{
    match visit {
        Visit::Continue => WalkState::Continue,
        Visit::Skip => WalkState::Skip,
        Visit::Send => if delivered {
            WalkState::Continue
        } else {
            WalkState::Quit
        },
    }
}

/// What a worker does with what it received; `None` stands for a closed and
/// drained channel. An error of the walk costs only its entry.
pub fn worker_step(received: Option<WorkerResult>) -> (step: WorkerStep)
    ensures
        match received {
            Some(WorkerResult::Entry(path)) => step == WorkerStep::Extract(path),
            Some(WorkerResult::Error(_)) => step is Next,
            None => step is Stop,
        },
{
    match received {
        Some(WorkerResult::Entry(path)) => WorkerStep::Extract(path),
        Some(WorkerResult::Error(_)) => WorkerStep::Next,
        None => WorkerStep::Stop,
    }
}

} // verus!
