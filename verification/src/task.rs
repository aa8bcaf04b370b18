//! The handling of one directory entry, as a state machine.
//!
//! The machine decides; its driver acts. A task starts from the entry that was
//! found, names the next action, and moves on when it is told how that action
//! ended:
//!
//! ```text
//! discovered --not a candidate--------------------------> Skipped
//! discovered --candidate--> Reading
//!            Reading  --unreadable, no image, or visible--> Done(Kept)
//!            Reading  --fully transparent--> Removing
//!                       Removing --removed-------------> Done(Deleted)
//!                       Removing --removal failed------> Done(DeleteFailed)
//! ```
//!
//! A report that does not answer the pending action leaves the task as it is.

use vstd::prelude::*;
use crate::entry::{candidate, EntryView, FileEntry};
use crate::transparency::{is_fully_transparent, png_alpha, transparent};

verus! {

/// How the handling of a candidate ended.
#[derive(Clone, Copy, PartialEq, Eq, Debug, Structural)]
pub enum Outcome {
    /// The file stays: it could not be read, is no image, or shows a pixel.
    Kept,
    /// The file was fully transparent and has been removed.
    Deleted,
    /// The file was fully transparent, but removing it failed.
    DeleteFailed,
}

/// What the driver has to do next for a task.
#[derive(Clone, Copy, PartialEq, Eq, Debug, Structural)]
pub enum Action {
    /// Nothing: the entry is no candidate and is not counted.
    Skip,
    /// Read the file and report its contents.
    Read,
    /// Remove the file and report whether that worked.
    Remove,
    /// Nothing more: count the outcome.
    Finish(Outcome),
}

/// Where the handling of one entry stands.
#[derive(Clone, Copy, PartialEq, Eq, Debug, Structural)]
pub enum FileTask {
    Skipped,
    Reading,
    Removing,
    Done(Outcome),
}

/// The task for an entry that the walk has just found.
pub open spec fn discovered(entry: EntryView) -> FileTask {
    if candidate(entry) {
        FileTask::Reading
    } else {
        FileTask::Skipped
    }
}

/// The task once the file's contents have been judged transparent or not.
pub open spec fn after_verdict(task: FileTask, is_transparent: bool) -> FileTask {
    if task != FileTask::Reading {
        task
    } else if is_transparent {
        FileTask::Removing
    } else {
        FileTask::Done(Outcome::Kept)
    }
}

/// What the contents of a file amount to: `None` stands for a file that could
/// not be read, which like one that does not decode is not transparent.
pub open spec fn contents_transparent(contents: Option<Seq<u8>>) -> bool {
    contents matches Some(data) && transparent(png_alpha(data))
}

/// The task once reading the file has ended, with its contents or without.
pub open spec fn after_contents(task: FileTask, contents: Option<Seq<u8>>) -> FileTask {
    after_verdict(task, contents_transparent(contents))
}

/// The task once removing the file has ended.
pub open spec fn after_removal(task: FileTask, removed: bool) -> FileTask {
    if task != FileTask::Removing {
        task
    } else if removed {
        FileTask::Done(Outcome::Deleted)
    } else {
        FileTask::Done(Outcome::DeleteFailed)
    }
}

/// The action that a task is waiting for.
pub open spec fn pending(task: FileTask) -> Action {
    match task {
        FileTask::Skipped => Action::Skip,
        FileTask::Reading => Action::Read,
        FileTask::Removing => Action::Remove,
        FileTask::Done(outcome) => Action::Finish(outcome),
    }
}

/// Where the task of an entry ends when the driver does as it is told, for a
/// file with the given contents (`None`: unreadable) that can be removed or not.
pub open spec fn handled(entry: EntryView, contents: Option<Seq<u8>>, removable: bool) -> FileTask {
    after_removal(after_contents(discovered(entry), contents), removable)
}

/// The byte view of contents handed over as an optional slice.
pub open spec fn contents_view(contents: Option<&[u8]>) -> Option<Seq<u8>> {
    match contents {
        Some(data) => Some(data@),
        None => None,
    }
}

impl FileTask {
    /// Starts the task for an entry: a candidate is to be read, any other
    /// entry is skipped.
    pub fn discovered(entry: &FileEntry) -> (task: FileTask)
        ensures
            task == discovered(entry@),
    {
        if entry.is_candidate() {
            FileTask::Reading
        } else {
            FileTask::Skipped
        }
    }

    /// The action that is pending.
    pub fn action(&self) -> (next: Action)
        ensures
            next == pending(*self),
    {
        match self {
            FileTask::Skipped => Action::Skip,
            FileTask::Reading => Action::Read,
            FileTask::Removing => Action::Remove,
            FileTask::Done(outcome) => Action::Finish(*outcome),
        }
    }

    /// Moves a task that is reading on, given the verdict on what was read: a
    /// transparent file is to be removed, any other is kept.
    pub fn judged(self, is_transparent: bool) -> (task: FileTask)
        ensures
            task == after_verdict(self, is_transparent),
    {
        match self {
            FileTask::Reading => if is_transparent {
                FileTask::Removing
            } else {
                FileTask::Done(Outcome::Kept)
            },
            _ => self,
        }
    }

    /// Moves a task that is reading on, given what reading the file gave:
    /// its contents, or `None` where it could not be read.
    pub fn contents_read(self, contents: Option<&[u8]>) -> (task: FileTask)
        ensures
            task == after_contents(self, contents_view(contents)),
    {
        match self {
            FileTask::Reading => {
                let is_transparent = match contents {
                    Some(data) => is_fully_transparent(data),
                    None => false,
                };
                self.judged(is_transparent)
            },
            _ => self,
        }
    }

    /// Moves a task that is removing on, given whether the file is gone.
    pub fn removal_finished(self, removed: bool) -> (task: FileTask)
        ensures
            task == after_removal(self, removed),
    {
        match self {
            FileTask::Removing => if removed {
                FileTask::Done(Outcome::Deleted)
            } else {
                FileTask::Done(Outcome::DeleteFailed)
            },
            _ => self,
        }
    }
}

/// Handling always comes to an end: after the entry, the read and the removal
/// nothing is pending.
pub proof fn law_handling_ends(entry: EntryView, contents: Option<Seq<u8>>, removable: bool)
    ensures
        handled(entry, contents, removable) is Skipped || handled(entry, contents, removable) is Done,
        handled(entry, contents, removable) is Skipped <==> !candidate(entry),
{
}

/// A file is deleted only on a verdict of full transparency: handling ends in
/// `Deleted` exactly for a candidate whose contents are fully transparent and
/// whose removal works, and in `DeleteFailed` exactly where only the removal
/// fails. Every other candidate is kept.
pub proof fn law_deleted_only_if_transparent(
    entry: EntryView,
    contents: Option<Seq<u8>>,
    removable: bool,
)
    ensures
        handled(entry, contents, removable) == FileTask::Done(Outcome::Deleted) <==> candidate(
            entry,
        ) && contents_transparent(contents) && removable,
        handled(entry, contents, removable) == FileTask::Done(Outcome::DeleteFailed)
            <==> candidate(entry) && contents_transparent(contents) && !removable,
        handled(entry, contents, removable) == FileTask::Done(Outcome::Kept) <==> candidate(entry)
            && !contents_transparent(contents),
{
}

/// A candidate whose contents are no PNG image is handled to the end and
/// kept, whether or not it could be removed.
pub proof fn law_undecodable_is_kept(entry: EntryView, data: Seq<u8>, removable: bool)
    requires
        candidate(entry),
        png_alpha(data) is None,
    ensures
        handled(entry, Some(data), removable) == FileTask::Done(Outcome::Kept),
{
}

} // verus!
