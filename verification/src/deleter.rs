//! The deleter: removing one archived capture, and its label directory
//! with it once that is empty.
//!
//! A deletion runs in two steps. [`plan_delete`] says whether the path may
//! be deleted at all, and which directory holds it. The caller removes the
//! file and counts what is left in that directory; [`cascade`] then says
//! whether the directory goes too. The cascade stops there: a directory is
//! never removed for having lost its last subdirectory.

use vstd::prelude::*;
use crate::paths::{parent_chars, parent_of};
use crate::sandbox::{confined, PathSandbox};
use crate::text::{chars_of, string_of};

verus! {

/// A file that is to be removed.
#[derive(Debug, PartialEq, Eq)]
pub struct Deletion {
    /// The file.
    pub file: String,
    /// The directory that holds it, where the path names one.
    pub parent: Option<String>,
}

/// The model of a [`Deletion`].
pub struct DeletionView {
    pub file: Seq<char>,
    pub parent: Option<Seq<char>>,
}

impl View for Deletion {
    type V = DeletionView;

    open spec fn view(&self) -> DeletionView {
        DeletionView {
            file: self.file@,
            parent: match self.parent {
                Some(dir) => Some(dir@),
                None => None,
            },
        }
    }
}

/// What deleting `path` removes first, or `None` where the path lies
/// outside the sandbox rooted at `root` and nothing is done.
pub open spec fn deletion_of(root: Seq<char>, path: Seq<char>) -> Option<DeletionView> {
    if confined(root, path) {
        Some(DeletionView { file: path, parent: parent_of(path) })
    } else {
        None
    }
}

/// The directory that goes with the file, once the file is removed and
/// `entries_left` entries remain beside it: the parent if nothing remains,
/// none otherwise.
pub open spec fn cascaded(deletion: DeletionView, entries_left: nat) -> Option<Seq<char>> {
    if entries_left == 0 {
        deletion.parent
    } else {
        None
    }
}

/// Plans the deletion of `path`. A path outside the sandbox is not
/// deleted.
pub fn plan_delete(sandbox: &PathSandbox, path: &str) -> (plan: Option<Deletion>)
    ensures
        match plan {
            Some(deletion) => deletion_of(sandbox@, path@) == Some(deletion@),
            None => deletion_of(sandbox@, path@) is None,
        },
{
    let chars = chars_of(path);
    if !sandbox.validate_chars(&chars) {
        return None;
    }
    let parent = match parent_chars(&chars) {
        Some(dir) => Some(string_of(&dir)),
        None => None,
    };
    Some(Deletion { file: path.to_owned(), parent })
}

/// Decides, once the file is gone, whether its directory goes too: it
/// does if and only if nothing is left in it.
pub fn cascade(deletion: &Deletion, entries_left: usize) -> (directory: Option<String>)
    ensures
        match directory {
            Some(dir) => cascaded(deletion@, entries_left as nat) == Some(dir@),
            None => cascaded(deletion@, entries_left as nat) is None,
        },
{
    if entries_left == 0 {
        match &deletion.parent {
            Some(dir) => Some(dir.clone()),
            None => None,
        }
    } else {
        None
    }
}

/// Deleting a capture that was archived for an accepted request removes
/// its file, and the directory that is looked at afterwards is the
/// directory of its label: the root of the sandbox is never removed for
/// being empty.
pub proof fn lemma_archived_capture_is_deleted_from_its_label(
    root: Seq<char>,
    raw_label: Seq<char>,
    at: crate::archive::Timestamp,
)
    requires
        crate::sandbox::no_doubled_separator(root),
        raw_label.len() > 0,
    ensures
        ({
            let label = crate::sanitize::sanitized_label(raw_label);
            let file = crate::archive::archive_file(root, label, at);
            let directory = crate::archive::label_directory(root, label);
            &&& deletion_of(root, file) == Some(DeletionView { file, parent: Some(directory) })
            &&& cascaded(deletion_of(root, file)->0, 0) == Some(directory)
            &&& forall|left: nat| left > 0 ==> cascaded(deletion_of(root, file)->0, left) is None
        }),
{
    let label = crate::sanitize::sanitized_label(raw_label);
    let name = crate::archive::capture_name(at);
    let directory = crate::archive::label_directory(root, label);
    crate::sanitize::lemma_label_is_plain_name(raw_label);
    crate::sanitize::lemma_label_is_stable(raw_label);
    crate::archive::lemma_capture_name_is_plain(at);
    crate::archive::lemma_archive_is_confined(root, label, at);
    crate::paths::lemma_last_name_of_child(root, label);
    crate::paths::lemma_child_names(directory, name);
}

} // verus!
