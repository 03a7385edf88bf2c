//! The transfer engine: which archived files are copied to removable media,
//! and where each of them lands.
//!
//! A selective transfer flattens the archive: a file `photo.jpg` in the
//! label directory `label1` lands directly under the target as
//! `label1-photo.jpg`. A full transfer keeps the label directories. The
//! library plans the copies; the caller performs them and hands each
//! failure to a [`crate::report::Report`].

use vstd::prelude::*;
use crate::catalog::CatalogEntry;
use crate::paths::{
    file_name_chars, file_name_of, join_chars, joined, parent_name_chars, parent_name_of,
};
use crate::sandbox::{confined, lemma_extension_stays_confined, PathSandbox};
use crate::text::{append_chars, chars_of, string_of};

verus! {

/// What a client asks of the transfer page: a file to delete, or files to
/// copy to a drive.
#[derive(Debug, PartialEq, Eq)]
pub struct TransferRequest {
    /// The files selected for copying.
    pub source: Option<Vec<String>>,
    /// The directory on removable media to copy to.
    pub drive: Option<String>,
    /// A file to delete instead of copying anything.
    pub delete: Option<String>,
}

/// One copy of a file.
#[derive(Debug, PartialEq, Eq)]
pub struct CopyStep {
    /// The file to copy.
    pub source: String,
    /// The path to copy it to.
    pub target: String,
}

/// What is done with one selected file.
#[derive(Debug, PartialEq, Eq)]
pub enum SourcePlan {
    /// The file is copied.
    Copy(CopyStep),
    /// The path lies outside the sandbox: it is reported and skipped,
    /// whatever else is wrong with it.
    Rejected,
    /// The path lies in the sandbox but names no file.
    NoFileName,
    /// The path lies in the sandbox but names no directory that holds the
    /// file.
    NoLabel,
}

/// The model of a [`SourcePlan`].
pub enum SourcePlanView {
    Copy { source: Seq<char>, target: Seq<char> },
    Rejected,
    NoFileName,
    NoLabel,
}

impl View for SourcePlan {
    type V = SourcePlanView;

    open spec fn view(&self) -> SourcePlanView {
        match self {
            SourcePlan::Copy(step) => SourcePlanView::Copy {
                source: step.source@,
                target: step.target@,
            },
            SourcePlan::Rejected => SourcePlanView::Rejected,
            SourcePlan::NoFileName => SourcePlanView::NoFileName,
            SourcePlan::NoLabel => SourcePlanView::NoLabel,
        }
    }
}

/// What is done with a transfer request.
#[derive(Debug, PartialEq, Eq)]
pub enum TransferDecision {
    /// The named file is deleted; nothing is copied.
    Delete(String),
    /// The request names no drive or no files: nothing is done.
    Nothing,
    /// The drive lies outside removable media: the request is rejected.
    InvalidTarget,
    /// The selected files are dealt with one by one, in order.
    Copies(Vec<SourcePlan>),
}

/// The name under which a file lands in a selective transfer: the name of
/// the label directory that holds it, a hyphen, and its own name.
pub open spec fn flat_name(label: Seq<char>, file: Seq<char>) -> Seq<char> {
    label + seq!['-'] + file
}

/// What a selective transfer to `target` does with `source`, where the
/// archive is confined to `root`. The sandbox is asked first: a path
/// outside it is rejected, and only a path inside it is looked at further.
pub open spec fn planned_source(
    root: Seq<char>,
    target: Seq<char>,
    source: Seq<char>,
) -> SourcePlanView {
    if !confined(root, source) {
        SourcePlanView::Rejected
    } else {
        match (file_name_of(source), parent_name_of(source)) {
            (None, _) => SourcePlanView::NoFileName,
            (Some(file), None) => SourcePlanView::NoLabel,
            (Some(file), Some(label)) => SourcePlanView::Copy {
                source,
                target: joined(target, flat_name(label, file)),
            },
        }
    }
}

/// Whether `plans` deals with each of `sources` as a selective transfer to
/// `target` does, in the same order.
pub open spec fn plans_match(
    plans: Seq<SourcePlan>,
    root: Seq<char>,
    target: Seq<char>,
    sources: Seq<String>,
) -> bool {
    &&& plans.len() == sources.len()
    &&& forall|i: int|
        0 <= i < plans.len() ==> (#[trigger] plans[i])@ == planned_source(root, target, sources[i]@)
}

/// Whether `decision` is what the request asks for: a deletion comes
/// first, a request without drive or files does nothing, a drive outside
/// `media` is rejected, and otherwise each file is planned.
pub open spec fn decision_matches(
    decision: TransferDecision,
    root: Seq<char>,
    media: Seq<char>,
    request: TransferRequest,
) -> bool {
    match (request.delete, request.drive, request.source) {
        (Some(path), _, _) => decision matches TransferDecision::Delete(p) && p@ == path@,
        (None, Some(drive), Some(sources)) => if confined(media, drive@) {
            decision matches TransferDecision::Copies(plans) && plans_match(
                plans@,
                root,
                drive@,
                sources@,
            )
        } else {
            decision is InvalidTarget
        },
        _ => decision is Nothing,
    }
}

/// Plans what a selective transfer to `target` does with `source`.
pub fn plan_source(sandbox: &PathSandbox, target: &str, source: &str) -> (plan: SourcePlan)
    ensures
        plan@ == planned_source(sandbox@, target@, source@),
{
    let chars = chars_of(source);
    if !sandbox.validate_chars(&chars) {
        return SourcePlan::Rejected;
    }
    let file = match file_name_chars(&chars) {
        Some(file) => file,
        None => {
            return SourcePlan::NoFileName;
        },
    };
    let mut name = match parent_name_chars(&chars) {
        Some(label) => label,
        None => {
            return SourcePlan::NoLabel;
        },
    };
    let ghost label = name@;
    name.push('-');
    append_chars(&mut name, &file);
    assert(name@ == flat_name(label, file@));
    let target_path = join_chars(&chars_of(target), &name);
    SourcePlan::Copy(CopyStep { source: source.to_owned(), target: string_of(&target_path) })
}

/// Decides what to do with a transfer request: delete, reject, or copy the
/// selected files from the sandbox to the drive.
pub fn plan_transfer(
    sandbox: &PathSandbox,
    media: &PathSandbox,
    request: &TransferRequest,
) -> (decision: TransferDecision)
    ensures
        decision_matches(decision, sandbox@, media@, *request),
{
    if let Some(path) = &request.delete {
        return TransferDecision::Delete(path.clone());
    }
    let drive = match &request.drive {
        Some(drive) => drive,
        None => {
            return TransferDecision::Nothing;
        },
    };
    let sources = match &request.source {
        Some(sources) => sources,
        None => {
            return TransferDecision::Nothing;
        },
    };
    if !media.validate(drive.as_str()) {
        return TransferDecision::InvalidTarget;
    }
    let mut plans: Vec<SourcePlan> = Vec::new();
    let mut i: usize = 0;
    while i < sources.len()
        invariant
            i <= sources.len(),
            plans_match(plans@, sandbox@, drive@, sources@.take(i as int)),
        decreases sources.len() - i,
    {
        let plan = plan_source(sandbox, drive.as_str(), sources[i].as_str());
        plans.push(plan);
        i = i + 1;
    }
    assert(sources@.take(sources.len() as int) == sources@);
    TransferDecision::Copies(plans)
}

/// The copies of a full transfer for one label directory.
#[derive(Debug, PartialEq, Eq)]
pub struct FolderTransfer {
    /// The directory to create under the target, or to reuse.
    pub directory: String,
    /// The copies into that directory, one for each file of the label.
    pub copies: Vec<CopyStep>,
}

/// Whether `plan` copies each of `files` unchanged into the directory
/// named `label` under `target`.
pub open spec fn folder_matches(
    plan: FolderTransfer,
    target: Seq<char>,
    label: Seq<char>,
    files: Seq<CatalogEntry>,
) -> bool {
    &&& plan.directory@ == joined(target, label)
    &&& plan.copies.len() == files.len()
    &&& forall|i: int|
        0 <= i < files.len() ==> {
            &&& (#[trigger] plan.copies[i]).source@ == files[i].path@
            &&& plan.copies[i].target@ == joined(joined(target, label), files[i].name@)
        }
}

/// Plans the full transfer of one label directory with its `files` to
/// `target`.
pub fn plan_folder_transfer(
    target: &str,
    folder: &CatalogEntry,
    files: &Vec<CatalogEntry>,
) -> (plan: FolderTransfer)
    ensures
        folder_matches(plan, target@, folder.name@, files@),
{
    let directory = join_chars(&chars_of(target), &chars_of(folder.name.as_str()));
    let mut copies: Vec<CopyStep> = Vec::new();
    let mut i: usize = 0;
    while i < files.len()
        invariant
            i <= files.len(),
            directory@ == joined(target@, folder.name@),
            copies.len() == i,
            forall|k: int|
                0 <= k < i ==> {
                    &&& (#[trigger] copies[k]).source@ == files[k].path@
                    &&& copies[k].target@ == joined(directory@, files[k].name@)
                },
        decreases files.len() - i,
    {
        let to = join_chars(&directory, &chars_of(files[i].name.as_str()));
        copies.push(CopyStep { source: files[i].path.clone(), target: string_of(&to) });
        i = i + 1;
    }
    FolderTransfer { directory: string_of(&directory), copies }
}

/// Two files land under the same flat name only if they have the same
/// name and lie in label directories of the same name, provided that no
/// label holds a hyphen.
pub proof fn lemma_flat_names_do_not_collide(
    label1: Seq<char>,
    file1: Seq<char>,
    label2: Seq<char>,
    file2: Seq<char>,
)
    requires
        !label1.contains('-'),
        !label2.contains('-'),
        flat_name(label1, file1) == flat_name(label2, file2),
    ensures
        label1 == label2,
        file1 == file2,
{
    let name = flat_name(label1, file1);
    if label1.len() < label2.len() {
        assert(name[label1.len() as int] == '-');
        assert(flat_name(label2, file2)[label1.len() as int] == label2[label1.len() as int]);
        assert(label2.contains(label2[label1.len() as int]));
    } else if label2.len() < label1.len() {
        assert(flat_name(label2, file2)[label2.len() as int] == '-');
        assert(name[label2.len() as int] == label1[label2.len() as int]);
        assert(label1.contains(label1[label2.len() as int]));
    } else {
        let n = label1.len() as int;
        assert(label1 == name.take(n));
        assert(label2 == flat_name(label2, file2).take(n));
        assert(file1 == name.skip(n + 1));
        assert(file2 == flat_name(label2, file2).skip(n + 1));
    }
}

/// A path outside the sandbox is rejected, whatever it names: no copy is
/// planned for it, and nothing about its names is looked at.
pub proof fn lemma_outside_source_is_rejected(
    root: Seq<char>,
    target: Seq<char>,
    source: Seq<char>,
)
    ensures
        !confined(root, source) <==> planned_source(root, target, source) is Rejected,
{
}

/// A planned copy reads from inside the sandbox, and it writes below the
/// removable media whenever the target does lie there.
pub proof fn lemma_planned_copy_is_confined(
    root: Seq<char>,
    media: Seq<char>,
    target: Seq<char>,
    source: Seq<char>,
)
    requires
        confined(media, target),
    ensures
        (planned_source(root, target, source) matches SourcePlanView::Copy {
            source: from,
            target: to,
        } ==> from == source && confined(root, from) && confined(media, to)),
{
    if let SourcePlanView::Copy { source: from, target: to } = planned_source(
        root,
        target,
        source,
    ) {
        let file = file_name_of(source)->0;
        let label = parent_name_of(source)->0;
        let name = flat_name(label, file);
        crate::paths::lemma_parent_name_is_name(source);
        assert(name[0] == label[0]);
        if target.len() == 0 || target.last() == '/' {
            lemma_extension_stays_confined(media, target, name);
        } else {
            assert(target + seq!['/'] + name == target + (seq!['/'] + name));
            lemma_extension_stays_confined(media, target, seq!['/'] + name);
        }
    }
}

/// A capture that was archived for an accepted request can be selected
/// for transfer: it is copied, and it lands under its label, a hyphen and
/// the name of its file.
pub proof fn lemma_archived_capture_is_transferred(
    root: Seq<char>,
    target: Seq<char>,
    raw_label: Seq<char>,
    at: crate::archive::Timestamp,
)
    requires
        crate::sandbox::no_doubled_separator(root),
        raw_label.len() > 0,
    ensures
        ({
            let label = crate::sanitize::sanitized_label(raw_label);
            let file = crate::archive::archive_file(root, label, at);
            planned_source(root, target, file) == SourcePlanView::Copy {
                source: file,
                target: joined(target, flat_name(label, crate::archive::capture_name(at))),
            }
        }),
{
    let label = crate::sanitize::sanitized_label(raw_label);
    let name = crate::archive::capture_name(at);
    crate::sanitize::lemma_label_is_plain_name(raw_label);
    crate::sanitize::lemma_label_is_stable(raw_label);
    crate::archive::lemma_capture_name_is_plain(at);
    crate::archive::lemma_archive_is_confined(root, label, at);
    crate::paths::lemma_child_names(root, label);
    crate::paths::lemma_child_names(crate::paths::child(root, label), name);
}

} // verus!
