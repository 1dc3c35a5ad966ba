//! The task that writes the logs.
//!
//! The task receives messages one after the other and does for each what [`writer`] says, until
//! there is none left. On [`LogMsg::Close`] it closes the channel: nothing more can be sent, and
//! what has been sent before is still received.

use vstd::prelude::*;

use crate::level::Level;
use crate::lifecycle::{failure, reason_text};
use crate::logger::{LogMsg, LogMsgView};

verus! {

/// What the writing task does next.
#[derive(Debug, PartialEq, Eq)]
pub enum WriterAction {
    /// Write a line to the standard output and flush it.
    Stdout(String),
    /// Write a line to the log file and flush it.
    File(String),
    /// Hand a message to the system logger.
    Syslog(Level, String),
    /// Close the receiving end of the channel and go on with what it still holds.
    CloseChannel,
    /// Do nothing with the message.
    Skip,
    /// End the task.
    Stop,
}

/// The content of a [`WriterAction`].
pub enum WriterActionView {
    Stdout(Seq<char>),
    File(Seq<char>),
    Syslog(Level, Seq<char>),
    CloseChannel,
    Skip,
    Stop,
}

impl View for WriterAction {
    type V = WriterActionView;

    open spec fn view(&self) -> WriterActionView {
        match self {
            WriterAction::Stdout(line) => WriterActionView::Stdout(line@),
            WriterAction::File(line) => WriterActionView::File(line@),
            WriterAction::Syslog(level, text) => WriterActionView::Syslog(*level, text@),
            WriterAction::CloseChannel => WriterActionView::CloseChannel,
            WriterAction::Skip => WriterActionView::Skip,
            WriterAction::Stop => WriterActionView::Stop,
        }
    }
}

/// What a task, with or without a log file, does with a message.
pub open spec fn handled(has_file: bool, message: LogMsgView) -> WriterActionView {
    match message {
        LogMsgView::Stdout(line) => WriterActionView::Stdout(line),
        LogMsgView::File(line) => if has_file {
            WriterActionView::File(line)
        } else {
            WriterActionView::Skip
        },
        LogMsgView::Syslog(level, text) => WriterActionView::Syslog(level, text),
        LogMsgView::Close => WriterActionView::CloseChannel,
    }
}

/// What a task, with or without a log file, does with what it has received: a message, or the end
/// of the channel.
pub open spec fn next_action(has_file: bool, received: Option<LogMsgView>) -> WriterActionView {
    match received {
        Some(message) => handled(has_file, message),
        None => WriterActionView::Stop,
    }
}

/// What a task, with or without a log file, does with what it has received: a message, or the end
/// of the channel.
pub fn writer(has_file: bool, received: Option<LogMsg>) -> (action: WriterAction)
    ensures
        action@ == next_action(
            has_file,
            match received {
                Some(message) => Some(message@),
                None => None,
            },
        ),
{
    match received {
        Some(LogMsg::Stdout(line)) => WriterAction::Stdout(line),
        Some(LogMsg::File(line)) => if has_file {
            WriterAction::File(line)
        } else {
            WriterAction::Skip
        },
        Some(LogMsg::Syslog(level, text)) => WriterAction::Syslog(level, text),
        Some(LogMsg::Close) => WriterAction::CloseChannel,
        None => WriterAction::Stop,
    }
}

impl WriterActionView {
    /// The action writes something somewhere, which can fail.
    pub open spec fn is_work(self) -> bool {
        self is Stdout || self is File || self is Syslog
    }
}

/// A step of writing a line to the standard output or to the log file.
#[derive(Clone, Copy, Debug, PartialEq, Eq, Structural)]
pub enum WriteStep {
    /// Write the whole line.
    Write,
    /// Flush it.
    Flush,
}

/// What follows a step of writing a line.
#[derive(Debug, PartialEq, Eq)]
pub enum WriteNext {
    /// Another step.
    Step(WriteStep),
    /// Nothing: the line is written.
    Done,
    /// Nothing: the step failed, and the task has to stop with the message.
    Fail(String),
}

/// The content of a [`WriteNext`].
pub enum WriteNextView {
    Step(WriteStep),
    Done,
    Fail(Seq<char>),
}

impl View for WriteNext {
    type V = WriteNextView;

    open spec fn view(&self) -> WriteNextView {
        match self {
            WriteNext::Step(step) => WriteNextView::Step(*step),
            WriteNext::Done => WriteNextView::Done,
            WriteNext::Fail(message) => WriteNextView::Fail(message@),
        }
    }
}

impl WriteStep {
    /// What follows the step, once it has succeeded or failed for a reason.
    pub open spec fn after(self, outcome: Result<(), Seq<char>>) -> WriteNextView {
        match (self, outcome) {
            (WriteStep::Write, Ok(())) => WriteNextView::Step(WriteStep::Flush),
            (WriteStep::Write, Err(reason)) => WriteNextView::Fail(
                "Failed to write log: "@ + reason,
            ),
            (WriteStep::Flush, Ok(())) => WriteNextView::Done,
            (WriteStep::Flush, Err(reason)) => WriteNextView::Fail(
                "Failed to flush log: "@ + reason,
            ),
        }
    }
}

/// The step with which writing a line begins.
pub fn write_log() -> (first: WriteStep)
    ensures
        first == WriteStep::Write,
{
    WriteStep::Write
}

/// Goes on with writing a line: with the next step, or with a failure.
pub fn write_next(step: WriteStep, outcome: Result<(), String>) -> (next: WriteNext)
    ensures
        next@ == step.after(reason_text(outcome)),
{
    match (step, outcome) {
        (WriteStep::Write, Ok(())) => WriteNext::Step(WriteStep::Flush),
        (WriteStep::Write, Err(reason)) => WriteNext::Fail(
            failure("Failed to write log: ", reason.as_str()),
        ),
        (WriteStep::Flush, Ok(())) => WriteNext::Done,
        (WriteStep::Flush, Err(reason)) => WriteNext::Fail(
            failure("Failed to flush log: ", reason.as_str()),
        ),
    }
}

/// The steps that writing a line takes from a step on, and the message with which it fails, if
/// writing and flushing come out as given.
pub open spec fn write_actions(
    step: WriteStep,
    written: Result<(), Seq<char>>,
    flushed: Result<(), Seq<char>>,
) -> (Seq<WriteStep>, Option<Seq<char>>)
    decreases
            (match step {
                WriteStep::Write => 1int,
                WriteStep::Flush => 0int,
            }),
{
    let outcome = match step {
        WriteStep::Write => written,
        WriteStep::Flush => flushed,
    };
    match step.after(outcome) {
        WriteNextView::Step(next) => {
            let (rest, failure) = write_actions(next, written, flushed);
            (seq![step] + rest, failure)
        },
        WriteNextView::Done => (seq![step], None),
        WriteNextView::Fail(message) => (seq![step], Some(message)),
    }
}

/// A line is written and then flushed. A line that could not be written is not flushed, and the
/// message says which of the two failed.
pub proof fn law_write(written: Result<(), Seq<char>>, flushed: Result<(), Seq<char>>)
    ensures
        write_actions(WriteStep::Write, written, flushed) == (if written is Err {
            (seq![WriteStep::Write], Some("Failed to write log: "@ + written->Err_0))
        } else {
            (
                seq![WriteStep::Write, WriteStep::Flush],
                match flushed {
                    Ok(()) => None,
                    Err(reason) => Some("Failed to flush log: "@ + reason),
                },
            )
        }),
{
    reveal_with_fuel(write_actions, 2);
    let steps = write_actions(WriteStep::Write, written, flushed).0;
    if written is Ok {
        assert(steps == seq![WriteStep::Write, WriteStep::Flush]);
    }
}

/// The content of an action is of its kind, and holds the text and the level that it holds.
pub proof fn law_action_content(action: WriterAction)
    ensures
        action matches WriterAction::Stdout(line) ==> action@ == WriterActionView::Stdout(line@),
        action matches WriterAction::File(line) ==> action@ == WriterActionView::File(line@),
        action matches WriterAction::Syslog(level, text) ==> action@ == WriterActionView::Syslog(
            level,
            text@,
        ),
        action@ is CloseChannel <==> action is CloseChannel,
        action@ is Skip <==> action is Skip,
        action@ is Stop <==> action is Stop,
{
}

/// Every message is taken to its destination with its text unchanged. Only a line for a file that
/// there is not is passed over, only a request to close closes the channel, and the task ends only
/// where the channel does.
pub proof fn law_message_goes_to_its_destination(
    has_file: bool,
    level: Level,
    text: Seq<char>,
    received: Option<LogMsgView>,
)
    ensures
        next_action(has_file, Some(LogMsgView::Stdout(text))) == WriterActionView::Stdout(text),
        next_action(true, Some(LogMsgView::File(text))) == WriterActionView::File(text),
        next_action(has_file, Some(LogMsgView::Syslog(level, text))) == WriterActionView::Syslog(
            level,
            text,
        ),
        next_action(has_file, received) is Stop <==> received is None,
        next_action(has_file, received) is CloseChannel <==> received == Some(LogMsgView::Close),
        next_action(has_file, received) is Skip <==> !has_file && received is Some
            && received->0 is File,
{
}

/// The content of what follows a step of writing.
pub proof fn law_write_next_content(next: WriteNext)
    ensures
        next matches WriteNext::Step(step) ==> next@ == WriteNextView::Step(step),
        next@ is Done <==> next is Done,
        next matches WriteNext::Fail(message) ==> next@ == WriteNextView::Fail(message@),
{
}

/// What has been written is flushed, what has been flushed is done, and a step that fails names
/// itself and its reason and is followed by none.
pub proof fn law_write_steps(reason: Seq<char>)
    ensures
        WriteStep::Write.after(Ok(())) == WriteNextView::Step(WriteStep::Flush),
        WriteStep::Flush.after(Ok(())) == WriteNextView::Done,
        WriteStep::Write.after(Err(reason)) == WriteNextView::Fail(
            "Failed to write log: "@ + reason,
        ),
        WriteStep::Flush.after(Err(reason)) == WriteNextView::Fail(
            "Failed to flush log: "@ + reason,
        ),
{
}

} // verus!
