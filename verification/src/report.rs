//! What a client is told of a request that did not go through: the
//! messages of its failures, collected in order.
//!
//! The caller performs each step of a request, on the file system or on
//! the clock, and hands its outcome to a [`Report`]. A step that failed
//! leaves a message there; the report is shown to the client with the next
//! page.

use vstd::prelude::*;
use crate::sandbox::{refusal, refusal_message};
use crate::text::{append_chars, chars_of, string_of};
use crate::transfer::CopyStep;

verus! {

/// A step of a request that the caller performs and that can fail.
#[derive(Debug, Clone, Copy, PartialEq, Eq, Structural)]
pub enum Step {
    /// Reading the snapshot's metadata before the capture loop is woken.
    ReadSnapshot,
    /// Reading the clock for the stamp of a capture.
    ReadClock,
    /// Creating the label directory of a capture.
    CreateDirectory,
    /// Copying the snapshot into the archive.
    SaveCapture,
    /// Removing a file.
    DeleteFile,
    /// Naming the directory that held a removed file.
    FindParent,
    /// Looking into the directory that held a removed file.
    ReadParent,
    /// Removing the emptied directory.
    DeleteParent,
}

/// What is said of a step that failed.
pub open spec fn step_text(step: Step) -> Seq<char> {
    match step {
        Step::ReadSnapshot => "unable to read metadata from file"@,
        Step::ReadClock => "system time before Unix epoch"@,
        Step::CreateDirectory => "unable to create dir"@,
        Step::SaveCapture => "failed to save capture"@,
        Step::DeleteFile => "Unable to delete file"@,
        Step::FindParent => "cant find parent folder!"@,
        Step::ReadParent => "unable to read parent folder"@,
        Step::DeleteParent => "unable to delete parentfolder"@,
    }
}

/// The message for a step that failed; `detail` says why, and is left out
/// where it is empty.
pub open spec fn failure_text(step: Step, detail: Seq<char>) -> Seq<char> {
    if detail.len() == 0 {
        step_text(step)
    } else {
        step_text(step) + ": "@ + detail
    }
}

/// Writes the message for a step that failed.
pub fn failure_message(step: Step, detail: &str) -> (message: String)
    ensures
        message@ == failure_text(step, detail@),
{
    let mut message = match step {
        Step::ReadSnapshot => String::from_str("unable to read metadata from file"),
        Step::ReadClock => String::from_str("system time before Unix epoch"),
        Step::CreateDirectory => String::from_str("unable to create dir"),
        Step::SaveCapture => String::from_str("failed to save capture"),
        Step::DeleteFile => String::from_str("Unable to delete file"),
        Step::FindParent => String::from_str("cant find parent folder!"),
        Step::ReadParent => String::from_str("unable to read parent folder"),
        Step::DeleteParent => String::from_str("unable to delete parentfolder"),
    };
    if detail.unicode_len() > 0 {
        message.append(": ");
        message.append(detail);
    }
    message
}

/// The message for a selected file that could not be copied; `detail` says
/// why.
pub open spec fn copy_failure_message(
    source: Seq<char>,
    target: Seq<char>,
    detail: Seq<char>,
) -> Seq<char> {
    "Could not copy file "@ + source + " to "@ + target + "\n"@ + detail
}

/// The message for a failed copy of a full transfer; `detail` says why.
pub open spec fn bulk_failure_message(detail: Seq<char>) -> Seq<char> {
    "unable to copy one or more files: "@ + detail
}

/// The messages of a list as one text: each on a line of its own, with a
/// line break between one and the next.
pub open spec fn joined_lines(messages: Seq<Seq<char>>) -> Seq<char>
    decreases messages.len(),
{
    if messages.len() == 0 {
        Seq::empty()
    } else if messages.len() == 1 {
        messages[0]
    } else {
        joined_lines(messages.drop_last()) + seq!['\n'] + messages.last()
    }
}

/// The messages that a request leaves for the client, in the order in
/// which they arose. A failure is recorded; whether the request goes on
/// is for the step that failed.
pub struct Report {
    messages: Vec<String>,
}

impl View for Report {
    type V = Seq<Seq<char>>;

    closed spec fn view(&self) -> Seq<Seq<char>> {
        Seq::new(self.messages.len() as nat, |i: int| self.messages[i]@)
    }
}

impl Report {
    /// A report without messages.
    pub fn new() -> (report: Report)
        ensures
            report@ == Seq::<Seq<char>>::empty(),
    {
        Report { messages: Vec::new() }
    }

    fn record(&mut self, message: String)
        ensures
            final(self)@ == old(self)@.push(message@),
    {
        self.messages.push(message);
    }

    /// Records that a target or a selected file was refused.
    pub fn path_refused(&mut self)
        ensures
            final(self)@ == old(self)@.push(refusal()),
    {
        self.record(refusal_message());
    }

    /// Records that the copy of a selected file failed.
    pub fn copy_failed(&mut self, step: &CopyStep, detail: &str)
        ensures
            final(self)@ == old(self)@.push(
                copy_failure_message(step.source@, step.target@, detail@),
            ),
    {
        let mut message = String::from_str("Could not copy file ");
        message.append(step.source.as_str());
        message.append(" to ");
        message.append(step.target.as_str());
        message.append("\n");
        message.append(detail);
        self.record(message);
    }

    /// Records that a copy of a full transfer failed.
    pub fn bulk_copy_failed(&mut self, detail: &str)
        ensures
            final(self)@ == old(self)@.push(bulk_failure_message(detail@)),
    {
        let mut message = String::from_str("unable to copy one or more files: ");
        message.append(detail);
        self.record(message);
    }

    /// Records that a step of a request failed.
    pub fn step_failed(&mut self, step: Step, detail: &str)
        ensures
            final(self)@ == old(self)@.push(failure_text(step, detail@)),
    {
        self.record(failure_message(step, detail));
    }

    /// Records what a step came to: nothing for a step that was done, the
    /// message of its failure otherwise. Says whether the step was done.
    pub fn note(&mut self, step: Step, outcome: &Result<(), String>) -> (done: bool)
        ensures
            done == outcome is Ok,
            final(self)@ == match *outcome {
                Ok(_) => old(self)@,
                Err(detail) => old(self)@.push(failure_text(step, detail@)),
            },
    {
        match outcome {
            Ok(_) => true,
            Err(detail) => {
                self.step_failed(step, detail.as_str());
                false
            },
        }
    }

    /// Records a message as it is.
    pub fn add(&mut self, message: &str)
        ensures
            final(self)@ == old(self)@.push(message@),
    {
        self.record(message.to_owned());
    }

    /// How many messages the report holds.
    pub fn len(&self) -> (n: usize)
        ensures
            n == self@.len(),
    {
        self.messages.len()
    }

    /// All messages as one text for the client, a line each; `None` where
    /// nothing went wrong.
    pub fn summary(&self) -> (text: Option<String>)
        ensures
            match text {
                Some(lines) => self@.len() > 0 && lines@ == joined_lines(self@),
                None => self@.len() == 0,
            },
    {
        if self.messages.len() == 0 {
            return None;
        }
        let mut lines: Vec<char> = chars_of(self.messages[0].as_str());
        let mut i: usize = 1;
        assert(self@.take(1) =~= seq![self@[0]]);
        while i < self.messages.len()
            invariant
                1 <= i <= self.messages.len(),
                lines@ == joined_lines(self@.take(i as int)),
            decreases self.messages.len() - i,
        {
            lines.push('\n');
            append_chars(&mut lines, &chars_of(self.messages[i].as_str()));
            assert(self@.take(i + 1).drop_last() =~= self@.take(i as int));
            i = i + 1;
        }
        assert(self@.take(self.messages.len() as int) =~= self@);
        Some(string_of(&lines))
    }

    /// The messages, in the order in which they were recorded.
    pub fn into_messages(self) -> (messages: Vec<String>)
        ensures
            messages.len() == self@.len(),
            forall|i: int| 0 <= i < messages.len() ==> (#[trigger] messages[i])@ == self@[i],
    {
        self.messages
    }
}

} // verus!
