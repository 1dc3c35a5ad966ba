//! How the logger starts and how it ends.
//!
//! Both alternate decisions with work on files, tasks and the registry of loggers. The decisions
//! are here: each step says what to do next, and is told what came of it.

use vstd::prelude::*;

use crate::level::{Level, LevelFilter};
use crate::line::optional_text;
use crate::logger::TinyLogger;

verus! {

/// How far the start of the logger has come.
#[derive(Clone, Copy, Debug, PartialEq, Eq, Structural)]
pub enum InitState {
    /// The log file is being opened.
    Opening { logger: TinyLogger },
    /// The connection to the system logger is being opened.
    Connecting { logger: TinyLogger, has_file: bool },
    /// The logger is being registered.
    Registering { logger: TinyLogger },
    /// The start has succeeded or failed.
    Ended,
}

/// What came of the last action.
#[derive(Debug, PartialEq, Eq)]
pub enum InitEvent {
    /// The log file is open, or could not be opened for the given reason.
    Opened(Result<(), String>),
    /// The connection to the system logger is as it has to be.
    Connected,
    /// The logger is registered, or was refused for the given reason.
    Registered(Result<(), String>),
}

/// What has to be done next.
#[derive(Debug, PartialEq, Eq)]
pub enum InitAction {
    /// Open the log file at the path to append to it, and create it if there is none.
    OpenFile(String),
    /// Open the connection to the system logger, if the filter needs it.
    Connect(LevelFilter),
    /// Start the writing task, with or without the log file, and register the logger.
    Register { logger: TinyLogger, has_file: bool },
    /// Set the most verbose level that is logged, and keep hold of the writing task.
    Install(LevelFilter),
    /// Give up with a message for the user.
    Fail(String),
}

/// The content of an [`InitEvent`].
pub enum InitEventView {
    Opened(Result<(), Seq<char>>),
    Connected,
    Registered(Result<(), Seq<char>>),
}

/// The content of an [`InitAction`].
pub enum InitActionView {
    OpenFile(Seq<char>),
    Connect(LevelFilter),
    Register { logger: TinyLogger, has_file: bool },
    Install(LevelFilter),
    Fail(Seq<char>),
}

/// The text of the reason for a failure.
pub open spec fn reason_text(outcome: Result<(), String>) -> Result<(), Seq<char>> {
    match outcome {
        Ok(()) => Ok(()),
        Err(reason) => Err(reason@),
    }
}

impl View for InitEvent {
    type V = InitEventView;

    open spec fn view(&self) -> InitEventView {
        match self {
            InitEvent::Opened(outcome) => InitEventView::Opened(reason_text(*outcome)),
            InitEvent::Connected => InitEventView::Connected,
            InitEvent::Registered(outcome) => InitEventView::Registered(reason_text(*outcome)),
        }
    }
}

impl View for InitAction {
    type V = InitActionView;

    open spec fn view(&self) -> InitActionView {
        match self {
            InitAction::OpenFile(path) => InitActionView::OpenFile(path@),
            InitAction::Connect(level) => InitActionView::Connect(*level),
            InitAction::Register { logger, has_file } => InitActionView::Register {
                logger: *logger,
                has_file: *has_file,
            },
            InitAction::Install(level) => InitActionView::Install(*level),
            InitAction::Fail(message) => InitActionView::Fail(message@),
        }
    }
}

impl TinyLogger {
    /// The most verbose of the three filters.
    pub open spec fn max_level_spec(self) -> LevelFilter {
        self.level.max_spec(self.file_level.max_spec(self.syslog_level))
    }

    /// The most verbose of the three filters.
    pub fn max_level(&self) -> (level: LevelFilter)
        ensures
            level == self.max_level_spec(),
    {
        self.level.max(self.file_level.max(self.syslog_level))
    }
}

/// The logger that the given settings stand for: without a file, its filter is off.
pub open spec fn configured(
    level: LevelFilter,
    file: Option<Seq<char>>,
    file_level: LevelFilter,
    syslog_level: LevelFilter,
) -> TinyLogger {
    TinyLogger {
        level,
        file_level: if file is Some {
            file_level
        } else {
            LevelFilter::Off
        },
        syslog_level,
    }
}

/// The first step of the start: the file is opened if there is one and its filter is not off.
pub open spec fn init_first(
    level: LevelFilter,
    file: Option<Seq<char>>,
    file_level: LevelFilter,
    syslog_level: LevelFilter,
) -> (InitState, InitActionView) {
    let logger = configured(level, file, file_level, syslog_level);
    match file {
        Some(path) if file_level != LevelFilter::Off => (
            InitState::Opening { logger },
            InitActionView::OpenFile(path),
        ),
        _ => (
            InitState::Connecting { logger, has_file: false },
            InitActionView::Connect(syslog_level),
        ),
    }
}

impl InitState {
    /// The event answers the action that led to the state.
    pub open spec fn awaits(self, event: InitEventView) -> bool {
        match self {
            InitState::Opening { .. } => event is Opened,
            InitState::Connecting { .. } => event is Connected,
            InitState::Registering { .. } => event is Registered,
            InitState::Ended => false,
        }
    }

    /// The step of the start that follows an event.
    pub open spec fn after(self, event: InitEventView) -> (InitState, InitActionView)
        recommends
            self.awaits(event),
    {
        match (self, event) {
            (InitState::Opening { logger }, InitEventView::Opened(Ok(()))) => (
                InitState::Connecting { logger, has_file: true },
                InitActionView::Connect(logger.syslog_level),
            ),
            (InitState::Opening { .. }, InitEventView::Opened(Err(reason))) => (
                InitState::Ended,
                InitActionView::Fail("Failed to open log file: "@ + reason),
            ),
            (InitState::Connecting { logger, has_file }, InitEventView::Connected) => (
                InitState::Registering { logger },
                InitActionView::Register { logger, has_file },
            ),
            (InitState::Registering { logger }, InitEventView::Registered(Ok(()))) => (
                InitState::Ended,
                InitActionView::Install(logger.max_level_spec()),
            ),
            (InitState::Registering { .. }, InitEventView::Registered(Err(reason))) => (
                InitState::Ended,
                InitActionView::Fail("Failed to initialize logger: "@ + reason),
            ),
            _ => arbitrary(),
        }
    }
}

/// Starts the logger.
///
/// - `level`: filter of the standard output.
/// - `file`: path of the log file, if there is to be one.
/// - `file_level`: filter of the log file. It is off if there is no file, and if it is off the file
///   is not opened.
/// - `syslog_level`: filter of the system logger. If it is off, the system logger is not used.
pub fn init(
    level: LevelFilter,
    file: Option<String>,
    file_level: LevelFilter,
    syslog_level: LevelFilter,
) -> (step: (InitState, InitAction))
    ensures
        (step.0, step.1@) == init_first(level, optional_text(file), file_level, syslog_level),
{
    match file {
        Some(path) => {
            let logger = TinyLogger { level, file_level, syslog_level };
            if file_level != LevelFilter::Off {
                (InitState::Opening { logger }, InitAction::OpenFile(path))
            } else {
                (
                    InitState::Connecting { logger, has_file: false },
                    InitAction::Connect(syslog_level),
                )
            }
        },
        None => {
            let logger = TinyLogger { level, file_level: LevelFilter::Off, syslog_level };
            (InitState::Connecting { logger, has_file: false }, InitAction::Connect(syslog_level))
        },
    }
}

/// Goes on with the start of the logger.
pub fn init_next(state: InitState, event: InitEvent) -> (step: (InitState, InitAction))
    requires
        state.awaits(event@),
    ensures
        (step.0, step.1@) == state.after(event@),
{
    match (state, event) {
        (InitState::Opening { logger }, InitEvent::Opened(Ok(()))) => (
            InitState::Connecting { logger, has_file: true },
            InitAction::Connect(logger.syslog_level),
        ),
        (InitState::Opening { .. }, InitEvent::Opened(Err(reason))) => (
            InitState::Ended,
            InitAction::Fail(failure("Failed to open log file: ", reason.as_str())),
        ),
        (InitState::Connecting { logger, has_file }, InitEvent::Connected) => (
            InitState::Registering { logger },
            InitAction::Register { logger, has_file },
        ),
        (InitState::Registering { logger }, InitEvent::Registered(Ok(()))) => (
            InitState::Ended,
            InitAction::Install(logger.max_level()),
        ),
        (InitState::Registering { .. }, InitEvent::Registered(Err(reason))) => (
            InitState::Ended,
            InitAction::Fail(failure("Failed to initialize logger: ", reason.as_str())),
        ),
        _ => vstd::pervasive::unreached(),
    }
}

/// What failed, and why.
pub(crate) fn failure(what: &str, reason: &str) -> (message: String)
    ensures
        message@ == what@ + reason@,
{
    let mut message = String::new();
    message.append(what);
    message.append(reason);
    message
}

/// Hold on a running logger: the sending end of its channel and the handle of its writing task.
pub struct LoggerHandler<S, J> {
    /// The sending end of the channel.
    pub sender: S,
    /// The handle of the writing task.
    pub joinhandle: J,
}

/// A step of the end of a logger.
#[derive(Clone, Copy, Debug, PartialEq, Eq, Structural)]
pub enum EndStep {
    /// Tell the writing task that no more messages come.
    SendClose,
    /// Wait until the writing task has written everything and ended.
    AwaitWriter,
    /// Close the connection to the system logger, if it is open.
    CloseSyslog,
}

/// What follows a step of the end of a logger.
#[derive(Debug, PartialEq, Eq)]
pub enum EndNext {
    /// Another step.
    Step(EndStep),
    /// Nothing: the logger has ended.
    Done,
    /// Nothing: the step failed, and the program has to stop with the message.
    Fail(String),
}

/// The content of an [`EndNext`].
pub enum EndNextView {
    Step(EndStep),
    Done,
    Fail(Seq<char>),
}

impl View for EndNext {
    type V = EndNextView;

    open spec fn view(&self) -> EndNextView {
        match self {
            EndNext::Step(step) => EndNextView::Step(*step),
            EndNext::Done => EndNextView::Done,
            EndNext::Fail(message) => EndNextView::Fail(message@),
        }
    }
}

impl EndStep {
    /// What follows the step, once it has succeeded or failed for a reason.
    pub open spec fn after(self, outcome: Result<(), Seq<char>>) -> EndNextView {
        match (self, outcome) {
            (EndStep::SendClose, Ok(())) => EndNextView::Step(EndStep::AwaitWriter),
            (EndStep::SendClose, Err(reason)) => EndNextView::Fail(
                "Logger was already closed.: "@ + reason,
            ),
            (EndStep::AwaitWriter, Ok(())) => EndNextView::Step(EndStep::CloseSyslog),
            (EndStep::AwaitWriter, Err(reason)) => EndNextView::Fail(
                "Failed to close the writer's task: "@ + reason,
            ),
            (EndStep::CloseSyslog, Ok(())) => EndNextView::Done,
            (EndStep::CloseSyslog, Err(reason)) => EndNextView::Fail(
                "Failed to close syslog: "@ + reason,
            ),
        }
    }
}

impl<S, J> LoggerHandler<S, J> {
    /// The step with which the end of the logger begins.
    pub fn end(&self) -> (first: EndStep)
        ensures
            first == EndStep::SendClose,
    {
        EndStep::SendClose
    }
}

/// Goes on with the end of a logger: with the next step, or with a failure.
pub fn end_next(step: EndStep, outcome: Result<(), String>) -> (next: EndNext)
    ensures
        next@ == step.after(reason_text(outcome)),
{
    match (step, outcome) {
        (EndStep::SendClose, Ok(())) => EndNext::Step(EndStep::AwaitWriter),
        (EndStep::SendClose, Err(reason)) => EndNext::Fail(
            failure("Logger was already closed.: ", reason.as_str()),
        ),
        (EndStep::AwaitWriter, Ok(())) => EndNext::Step(EndStep::CloseSyslog),
        (EndStep::AwaitWriter, Err(reason)) => EndNext::Fail(
            failure("Failed to close the writer's task: ", reason.as_str()),
        ),
        (EndStep::CloseSyslog, Ok(())) => EndNext::Done,
        (EndStep::CloseSyslog, Err(reason)) => EndNext::Fail(
            failure("Failed to close syslog: ", reason.as_str()),
        ),
    }
}

/// The logger that has to be ended, if one is running, and what is left to be ended after it.
pub open spec fn ended<S, J>(slot: Option<LoggerHandler<S, J>>) -> (
    Option<LoggerHandler<S, J>>,
    Option<LoggerHandler<S, J>>,
) {
    (slot, None)
}

/// Keeps hold of a logger that has started, in place of any before it.
pub fn install<S, J>(slot: &mut Option<LoggerHandler<S, J>>, handler: LoggerHandler<S, J>)
    ensures
        *final(slot) == Some(handler),
{
    *slot = Some(handler);
}

/// Takes the logger that has to be ended, if one is running.
pub fn end<S, J>(slot: &mut Option<LoggerHandler<S, J>>) -> (handler: Option<LoggerHandler<S, J>>)
    ensures
        (handler, *final(slot)) == ended(*old(slot)),
        handler == *old(slot),
        *final(slot) is None,
{
    slot.take()
}

/// A logger is ended once: the first end after its start takes it, and a second finds nothing to
/// end.
pub proof fn law_ended_once<S, J>(handler: LoggerHandler<S, J>)
    ensures
        ended(Some(handler)).0 == Some(handler),
        ended(Some(handler)).1 is None,
        ended(ended(Some(handler)).1).0 is None,
        ended::<S, J>(None).0 is None && ended::<S, J>(None).1 is None,
{
}

/// The reason for a failure is told as it was given, and a success stays one.
pub proof fn law_reason_told_as_given(outcome: Result<(), String>)
    ensures
        reason_text(outcome) is Ok <==> outcome is Ok,
        outcome matches Err(reason) ==> reason_text(outcome) == Err::<(), Seq<char>>(reason@),
{
}

/// The contents of the events, the actions and the steps are of their kind, and hold what they
/// hold.
pub proof fn law_start_and_end_contents(event: InitEvent, action: InitAction, next: EndNext)
    ensures
        event matches InitEvent::Opened(outcome) ==> event@ == InitEventView::Opened(
            reason_text(outcome),
        ),
        event@ is Connected <==> event is Connected,
        event matches InitEvent::Registered(outcome) ==> event@ == InitEventView::Registered(
            reason_text(outcome),
        ),
        action matches InitAction::OpenFile(path) ==> action@ == InitActionView::OpenFile(path@),
        action matches InitAction::Connect(level) ==> action@ == InitActionView::Connect(level),
        action matches InitAction::Register { logger, has_file } ==> action@
            == (InitActionView::Register { logger, has_file }),
        action matches InitAction::Install(level) ==> action@ == InitActionView::Install(level),
        action matches InitAction::Fail(message) ==> action@ == InitActionView::Fail(message@),
        next matches EndNext::Step(step) ==> next@ == EndNextView::Step(step),
        next@ is Done <==> next is Done,
        next matches EndNext::Fail(message) ==> next@ == EndNextView::Fail(message@),
{
}

/// A start opens the file first if and only if a path is given and the filter of the file is not
/// off. Otherwise the filter of the file is off from then on and the connection comes first. The
/// filters of the other two destinations are those that were given.
pub proof fn law_first_step(
    level: LevelFilter,
    file: Option<Seq<char>>,
    file_level: LevelFilter,
    syslog_level: LevelFilter,
)
    ensures
        ({
            let (state, action) = init_first(level, file, file_level, syslog_level);
            &&& file is Some && file_level != LevelFilter::Off ==> {
                &&& action == InitActionView::OpenFile(file->0)
                &&& state == (InitState::Opening {
                    logger: TinyLogger { level, file_level, syslog_level },
                })
            }
            &&& file is None || file_level == LevelFilter::Off ==> {
                &&& action == InitActionView::Connect(syslog_level)
                &&& state == (InitState::Connecting {
                    logger: TinyLogger { level, file_level: LevelFilter::Off, syslog_level },
                    has_file: false,
                })
            }
        }),
{
}

/// Each state of the start waits for the answer to its own action, and a start that has ended waits
/// for nothing.
pub proof fn law_each_state_awaits_its_answer(
    logger: TinyLogger,
    has_file: bool,
    event: InitEventView,
)
    ensures
        (InitState::Opening { logger }).awaits(event) <==> event is Opened,
        (InitState::Connecting { logger, has_file }).awaits(event) <==> event is Connected,
        (InitState::Registering { logger }).awaits(event) <==> event is Registered,
        !InitState::Ended.awaits(event),
{
}

/// After the file the connection is opened, with the filter of the system logger; then the logger
/// is registered, with the file if and only if one was opened; then the most verbose of its
/// filters is installed. A failure ends the start at once and tells what failed and why. No step
/// changes a filter.
pub proof fn law_next_steps(logger: TinyLogger, has_file: bool, reason: Seq<char>, level: Level)
    ensures
        (InitState::Opening { logger }).after(InitEventView::Opened(Ok(()))) == (
            InitState::Connecting { logger, has_file: true },
            InitActionView::Connect(logger.syslog_level),
        ),
        (InitState::Opening { logger }).after(InitEventView::Opened(Err(reason))) == (
            InitState::Ended,
            InitActionView::Fail("Failed to open log file: "@ + reason),
        ),
        (InitState::Connecting { logger, has_file }).after(InitEventView::Connected) == (
            InitState::Registering { logger },
            InitActionView::Register { logger, has_file },
        ),
        (InitState::Registering { logger }).after(InitEventView::Registered(Err(reason))) == (
            InitState::Ended,
            InitActionView::Fail("Failed to initialize logger: "@ + reason),
        ),
        ({
            let (state, action) = (InitState::Registering { logger }).after(
                InitEventView::Registered(Ok(())),
            );
            &&& state == InitState::Ended
            &&& action is Install
            &&& level.passes_spec(action->Install_0) <==> level.passes_spec(logger.level)
                || level.passes_spec(logger.file_level) || level.passes_spec(logger.syslog_level)
        }),
{
}

/// The request to close comes before the wait for the writing task, and that before the end of the
/// connection. A step that fails names itself and its reason and is followed by none.
pub proof fn law_end_steps(reason: Seq<char>)
    ensures
        EndStep::SendClose.after(Ok(())) == EndNextView::Step(EndStep::AwaitWriter),
        EndStep::AwaitWriter.after(Ok(())) == EndNextView::Step(EndStep::CloseSyslog),
        EndStep::CloseSyslog.after(Ok(())) == EndNextView::Done,
        EndStep::SendClose.after(Err(reason)) == EndNextView::Fail(
            "Logger was already closed.: "@ + reason,
        ),
        EndStep::AwaitWriter.after(Err(reason)) == EndNextView::Fail(
            "Failed to close the writer's task: "@ + reason,
        ),
        EndStep::CloseSyslog.after(Err(reason)) == EndNextView::Fail(
            "Failed to close syslog: "@ + reason,
        ),
{
}

} // verus!
