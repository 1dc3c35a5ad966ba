//! What comes of a logger's work from its start to its end.
//!
//! A session is the list of the records that are logged, each with the time of its logging and the
//! line that the terminal shows. It is followed through the logger, the channel, which hands
//! messages on in the order in which they were sent, and the writing task.

use vstd::prelude::*;

use crate::level::{Level, LevelFilter};
use crate::lifecycle::{
    configured, init_first, EndNextView, EndStep, InitActionView, InitEventView, InitState,
};
use crate::line::{plain_line, RecordView};
use crate::logger::{law_one_message_per_destination, LogMsgView, TinyLogger};
use crate::writer::{handled, WriterActionView};

verus! {

/// A record that is logged.
pub struct Logged {
    /// The record.
    pub record: RecordView,
    /// The text of the time at which it is logged.
    pub time: Seq<char>,
    /// The line that the terminal shows.
    pub shown: Seq<char>,
}

/// The messages that a logger sends in a session.
pub open spec fn sent(logger: TinyLogger, session: Seq<Logged>) -> Seq<LogMsgView>
    decreases session.len(),
{
    if session.len() == 0 {
        seq![]
    } else {
        let logged = session.last();
        sent(logger, session.drop_last()) + logger.messages(
            logged.record,
            logged.time,
            logged.shown,
        )
    }
}

/// What the writing task writes to the standard output for the messages that it receives.
pub open spec fn stdout_output(has_file: bool, received: Seq<LogMsgView>) -> Seq<char>
    decreases received.len(),
{
    if received.len() == 0 {
        seq![]
    } else {
        stdout_output(has_file, received.drop_last()) + (match handled(has_file, received.last()) {
            WriterActionView::Stdout(line) => line,
            _ => seq![],
        })
    }
}

/// What the writing task appends to the log file for the messages that it receives.
pub open spec fn file_output(has_file: bool, received: Seq<LogMsgView>) -> Seq<char>
    decreases received.len(),
{
    if received.len() == 0 {
        seq![]
    } else {
        file_output(has_file, received.drop_last()) + (match handled(has_file, received.last()) {
            WriterActionView::File(line) => line,
            _ => seq![],
        })
    }
}

/// What the writing task hands to the system logger for the messages that it receives.
pub open spec fn syslog_output(has_file: bool, received: Seq<LogMsgView>) -> Seq<(Level, Seq<char>)>
    decreases received.len(),
{
    if received.len() == 0 {
        seq![]
    } else {
        syslog_output(has_file, received.drop_last()) + (match handled(has_file, received.last()) {
            WriterActionView::Syslog(level, text) => seq![(level, text)],
            _ => seq![],
        })
    }
}

/// The lines of the terminal of those records of a session that a filter takes.
pub open spec fn shown_lines(filter: LevelFilter, session: Seq<Logged>) -> Seq<char>
    decreases session.len(),
{
    if session.len() == 0 {
        seq![]
    } else {
        let logged = session.last();
        shown_lines(filter, session.drop_last()) + (if logged.record.level.passes_spec(filter) {
            logged.shown
        } else {
            seq![]
        })
    }
}

/// The lines of the file of those records of a session that a filter takes.
pub open spec fn plain_lines(filter: LevelFilter, session: Seq<Logged>) -> Seq<char>
    decreases session.len(),
{
    if session.len() == 0 {
        seq![]
    } else {
        let logged = session.last();
        plain_lines(filter, session.drop_last()) + (if logged.record.level.passes_spec(filter) {
            plain_line(logged.record, logged.record.args, logged.time)
        } else {
            seq![]
        })
    }
}

/// The levels and the messages of those records of a session that a filter takes.
pub open spec fn plain_messages(filter: LevelFilter, session: Seq<Logged>) -> Seq<
    (Level, Seq<char>),
>
    decreases session.len(),
{
    if session.len() == 0 {
        seq![]
    } else {
        let logged = session.last();
        plain_messages(filter, session.drop_last()) + (if logged.record.level.passes_spec(filter) {
            seq![(logged.record.level, logged.record.args)]
        } else {
            seq![]
        })
    }
}

/// What the world answers to an action of the start, if opening the file and registering the
/// logger come out as given.
pub open spec fn answer(
    action: InitActionView,
    opened: Result<(), Seq<char>>,
    registered: Result<(), Seq<char>>,
) -> Option<InitEventView> {
    match action {
        InitActionView::OpenFile(_) => Some(InitEventView::Opened(opened)),
        InitActionView::Connect(_) => Some(InitEventView::Connected),
        InitActionView::Register { .. } => Some(InitEventView::Registered(registered)),
        InitActionView::Install(_) => None,
        InitActionView::Fail(_) => None,
    }
}

/// The actions of the start from a step on, if opening the file and registering the logger come
/// out as given. No start has more than four steps.
pub open spec fn start_actions(
    step: (InitState, InitActionView),
    opened: Result<(), Seq<char>>,
    registered: Result<(), Seq<char>>,
    limit: nat,
) -> Seq<InitActionView>
    decreases limit,
{
    match answer(step.1, opened, registered) {
        Some(event) if limit > 0 && step.0.awaits(event) => seq![step.1] + start_actions(
            step.0.after(event),
            opened,
            registered,
            (limit - 1) as nat,
        ),
        _ => seq![step.1],
    }
}

/// The actions that a start is meant to consist of: open the file, if there is one to be opened;
/// see to the system logger; register the logger; install it. The first that fails ends the
/// start.
pub open spec fn expected_actions(
    level: LevelFilter,
    file: Option<Seq<char>>,
    file_level: LevelFilter,
    syslog_level: LevelFilter,
    opened: Result<(), Seq<char>>,
    registered: Result<(), Seq<char>>,
) -> Seq<InitActionView> {
    let logger = configured(level, file, file_level, syslog_level);
    let has_file = logger.file_level != LevelFilter::Off;
    let open = if has_file {
        seq![InitActionView::OpenFile(file->0)]
    } else {
        seq![]
    };
    if has_file && opened is Err {
        open.push(InitActionView::Fail("Failed to open log file: "@ + opened->Err_0))
    } else {
        open + seq![
            InitActionView::Connect(syslog_level),
            InitActionView::Register { logger, has_file },
            match registered {
                Ok(()) => InitActionView::Install(logger.max_level_spec()),
                Err(reason) => InitActionView::Fail("Failed to initialize logger: "@ + reason),
            },
        ]
    }
}

/// A start does what it is meant to do, whatever comes of opening the file and of registering the
/// logger. In particular nothing is installed by a start that fails, and a file that is not to be
/// written is not opened.
pub proof fn law_start(
    level: LevelFilter,
    file: Option<Seq<char>>,
    file_level: LevelFilter,
    syslog_level: LevelFilter,
    opened: Result<(), Seq<char>>,
    registered: Result<(), Seq<char>>,
)
    ensures
        start_actions(
            init_first(level, file, file_level, syslog_level),
            opened,
            registered,
            4,
        ) == expected_actions(level, file, file_level, syslog_level, opened, registered),
{
    reveal_with_fuel(start_actions, 5);
    assert(start_actions(
        init_first(level, file, file_level, syslog_level),
        opened,
        registered,
        4,
    ) =~= expected_actions(level, file, file_level, syslog_level, opened, registered));
}

/// The steps that the end of a logger takes from a step on, and the message with which it fails, if
/// sending the request to close, waiting for the writing task and closing the connection to the
/// system logger come out as given.
pub open spec fn end_actions(
    step: EndStep,
    sent: Result<(), Seq<char>>,
    awaited: Result<(), Seq<char>>,
    closed: Result<(), Seq<char>>,
) -> (Seq<EndStep>, Option<Seq<char>>)
    decreases
            (match step {
                EndStep::SendClose => 2int,
                EndStep::AwaitWriter => 1int,
                EndStep::CloseSyslog => 0int,
            }),
{
    let outcome = match step {
        EndStep::SendClose => sent,
        EndStep::AwaitWriter => awaited,
        EndStep::CloseSyslog => closed,
    };
    match step.after(outcome) {
        EndNextView::Step(next) => {
            let (rest, failure) = end_actions(next, sent, awaited, closed);
            (seq![step] + rest, failure)
        },
        EndNextView::Done => (seq![step], None),
        EndNextView::Fail(message) => (seq![step], Some(message)),
    }
}

/// The end of a logger sends the request to close, waits for the writing task and then closes the
/// connection to the system logger. The first step that fails is the last one, and its message says
/// which it was.
pub proof fn law_end(
    sent: Result<(), Seq<char>>,
    awaited: Result<(), Seq<char>>,
    closed: Result<(), Seq<char>>,
)
    ensures
        end_actions(EndStep::SendClose, sent, awaited, closed) == (if sent is Err {
            (
                seq![EndStep::SendClose],
                Some("Logger was already closed.: "@ + sent->Err_0),
            )
        } else if awaited is Err {
            (
                seq![EndStep::SendClose, EndStep::AwaitWriter],
                Some("Failed to close the writer's task: "@ + awaited->Err_0),
            )
        } else {
            (
                seq![EndStep::SendClose, EndStep::AwaitWriter, EndStep::CloseSyslog],
                match closed {
                    Ok(()) => None,
                    Err(reason) => Some("Failed to close syslog: "@ + reason),
                },
            )
        }),
{
    reveal_with_fuel(end_actions, 3);
    let steps = end_actions(EndStep::SendClose, sent, awaited, closed).0;
    if sent is Ok {
        if awaited is Err {
            assert(steps == seq![EndStep::SendClose, EndStep::AwaitWriter]);
        } else {
            assert(steps == seq![EndStep::SendClose, EndStep::AwaitWriter, EndStep::CloseSyslog]);
        }
    }
}

/// The level that a start installs is exact: a record is logged somewhere if and only if its level
/// is not more verbose.
pub proof fn law_max_level_is_exact(logger: TinyLogger, level: Level)
    ensures
        level.passes_spec(logger.max_level_spec()) == logger.enabled_spec(level),
{
}

/// A record is enabled if and only if it becomes some message.
pub proof fn law_enabled_records_become_messages(
    logger: TinyLogger,
    record: RecordView,
    time: Seq<char>,
    shown: Seq<char>,
)
    ensures
        logger.enabled_spec(record.level) == (logger.messages(record, time, shown).len() > 0),
{
}

/// The output for two lists of messages in a row is the output for the first and then that for the
/// second.
proof fn lemma_outputs_in_a_row(
    has_file: bool,
    first: Seq<LogMsgView>,
    second: Seq<LogMsgView>,
)
    ensures
        stdout_output(has_file, first + second) == stdout_output(has_file, first) + stdout_output(
            has_file,
            second,
        ),
        file_output(has_file, first + second) == file_output(has_file, first) + file_output(
            has_file,
            second,
        ),
        syslog_output(has_file, first + second) == syslog_output(has_file, first) + syslog_output(
            has_file,
            second,
        ),
    decreases second.len(),
{
    if second.len() == 0 {
        assert(first + second == first);
    } else {
        lemma_outputs_in_a_row(has_file, first, second.drop_last());
        assert((first + second).drop_last() == first + second.drop_last());
        assert((first + second).last() == second.last());
    }
}

/// Every message that has been sent when the channel is closed is written, before the request to
/// close it and after: the request changes nothing of what is written.
pub proof fn law_close_loses_nothing(
    has_file: bool,
    before: Seq<LogMsgView>,
    after: Seq<LogMsgView>,
)
    ensures
        stdout_output(has_file, before.push(LogMsgView::Close) + after) == stdout_output(
            has_file,
            before + after,
        ),
        file_output(has_file, before.push(LogMsgView::Close) + after) == file_output(
            has_file,
            before + after,
        ),
        syslog_output(has_file, before.push(LogMsgView::Close) + after) == syslog_output(
            has_file,
            before + after,
        ),
{
    let closed = before.push(LogMsgView::Close);
    lemma_outputs_in_a_row(has_file, closed, after);
    lemma_outputs_in_a_row(has_file, before, after);
    assert(closed.drop_last() == before);
    assert(stdout_output(has_file, closed) == stdout_output(has_file, before));
    assert(file_output(has_file, closed) == file_output(has_file, before));
    assert(syslog_output(has_file, closed) == syslog_output(has_file, before));
}

/// The output for what one record becomes.
proof fn lemma_outputs_of_one_record(has_file: bool, logger: TinyLogger, logged: Logged)
    requires
        has_file || logger.file_level == LevelFilter::Off,
    ensures
        ({
            let messages = logger.messages(logged.record, logged.time, logged.shown);
            let level = logged.record.level;
            &&& stdout_output(has_file, messages) == (if level.passes_spec(logger.level) {
                logged.shown
            } else {
                seq![]
            })
            &&& file_output(has_file, messages) == (if level.passes_spec(logger.file_level) {
                plain_line(logged.record, logged.record.args, logged.time)
            } else {
                seq![]
            })
            &&& syslog_output(has_file, messages) == (if level.passes_spec(logger.syslog_level) {
                seq![(level, logged.record.args)]
            } else {
                seq![]
            })
        }),
{
    let stdout = logger.stdout_part(logged.record, logged.shown);
    let file = logger.file_part(logged.record, logged.time);
    let syslog = logger.syslog_part(logged.record);
    lemma_outputs_in_a_row(has_file, stdout + file, syslog);
    lemma_outputs_in_a_row(has_file, stdout, file);
    reveal_with_fuel(stdout_output, 2);
    reveal_with_fuel(file_output, 2);
    reveal_with_fuel(syslog_output, 2);
}

/// From the start to the end of a logger each destination gets, in the order of logging, exactly
/// the records that its filter takes: the standard output their lines as the terminal shows them,
/// the file their plain lines, and the system logger their levels and messages. Without a file, or
/// with its filter off, no line for a file is written.
pub proof fn law_destinations_get_what_they_take(
    level: LevelFilter,
    file: Option<Seq<char>>,
    file_level: LevelFilter,
    syslog_level: LevelFilter,
    session: Seq<Logged>,
)
    ensures
        ({
            let logger = configured(level, file, file_level, syslog_level);
            let has_file = logger.file_level != LevelFilter::Off;
            let received = sent(logger, session).push(LogMsgView::Close);
            &&& stdout_output(has_file, received) == shown_lines(level, session)
            &&& file_output(has_file, received) == (if file is Some {
                plain_lines(file_level, session)
            } else {
                seq![]
            })
            &&& syslog_output(has_file, received) == plain_messages(syslog_level, session)
        }),
{
    let logger = configured(level, file, file_level, syslog_level);
    let has_file = logger.file_level != LevelFilter::Off;
    lemma_outputs_of_session(has_file, logger, session);
    if file is None {
        law_off_takes_nothing(session);
    }
    law_close_loses_nothing(has_file, sent(logger, session), seq![]);
    assert(sent(logger, session).push(LogMsgView::Close) + seq![] == sent(logger, session).push(
        LogMsgView::Close,
    ));
    assert(sent(logger, session) + seq![] == sent(logger, session));
}

/// The output for what a session becomes.
proof fn lemma_outputs_of_session(has_file: bool, logger: TinyLogger, session: Seq<Logged>)
    requires
        has_file || logger.file_level == LevelFilter::Off,
    ensures
        stdout_output(has_file, sent(logger, session)) == shown_lines(logger.level, session),
        file_output(has_file, sent(logger, session)) == plain_lines(logger.file_level, session),
        syslog_output(has_file, sent(logger, session)) == plain_messages(
            logger.syslog_level,
            session,
        ),
    decreases session.len(),
{
    if session.len() > 0 {
        let logged = session.last();
        lemma_outputs_of_session(has_file, logger, session.drop_last());
        lemma_outputs_of_one_record(has_file, logger, logged);
        lemma_outputs_in_a_row(
            has_file,
            sent(logger, session.drop_last()),
            logger.messages(logged.record, logged.time, logged.shown),
        );
    }
}

/// A destination whose filter is off gets nothing.
pub proof fn law_off_takes_nothing(session: Seq<Logged>)
    ensures
        shown_lines(LevelFilter::Off, session) == Seq::<char>::empty(),
        plain_lines(LevelFilter::Off, session) == Seq::<char>::empty(),
        plain_messages(LevelFilter::Off, session) == Seq::<(Level, Seq<char>)>::empty(),
    decreases session.len(),
{
    if session.len() > 0 {
        law_off_takes_nothing(session.drop_last());
    }
}

/// The messages of a session are those of its records and no others: each of them is for a
/// destination whose filter takes some record of the session. So no logging asks to close the
/// channel.
pub proof fn law_logging_never_closes(logger: TinyLogger, session: Seq<Logged>)
    ensures
        !sent(logger, session).contains(LogMsgView::Close),
    decreases session.len(),
{
    if session.len() > 0 {
        let logged = session.last();
        let before = sent(logger, session.drop_last());
        let messages = logger.messages(logged.record, logged.time, logged.shown);
        law_logging_never_closes(logger, session.drop_last());
        law_one_message_per_destination(logger, logged.record, logged.time, logged.shown);
        if sent(logger, session).contains(LogMsgView::Close) {
            let i = choose|i: int|
                0 <= i < sent(logger, session).len() && sent(logger, session)[i]
                    == LogMsgView::Close;
            if i < before.len() {
                assert(before[i] == LogMsgView::Close);
            } else {
                assert(messages[i - before.len()] == LogMsgView::Close);
            }
        }
    }
}

/// What is sent in two sessions in a row is what is sent in the first and then what is sent in the
/// second; a session of one record sends what the record becomes.
pub proof fn law_sessions_in_a_row(logger: TinyLogger, first: Seq<Logged>, second: Seq<Logged>)
    ensures
        sent(logger, first + second) == sent(logger, first) + sent(logger, second),
        first.len() == 1 ==> sent(logger, first) == logger.messages(
            first[0].record,
            first[0].time,
            first[0].shown,
        ),
    decreases second.len(),
{
    reveal_with_fuel(sent, 2);
    if second.len() == 0 {
        assert(first + second == first);
    } else {
        law_sessions_in_a_row(logger, first, second.drop_last());
        assert((first + second).drop_last() == first + second.drop_last());
        assert((first + second).last() == second.last());
    }
}

/// Each destination gets the texts of the messages that are meant for it, unchanged and one after the
/// other, and nothing of the others; the file gets them only if there is one.
pub proof fn law_outputs_message_by_message(
    has_file: bool,
    level: Level,
    text: Seq<char>,
    first: Seq<LogMsgView>,
    second: Seq<LogMsgView>,
)
    ensures
        stdout_output(has_file, seq![LogMsgView::Stdout(text)]) == text,
        stdout_output(has_file, seq![LogMsgView::File(text)]).len() == 0,
        stdout_output(has_file, seq![LogMsgView::Syslog(level, text)]).len() == 0,
        file_output(true, seq![LogMsgView::File(text)]) == text,
        file_output(false, seq![LogMsgView::File(text)]).len() == 0,
        file_output(has_file, seq![LogMsgView::Stdout(text)]).len() == 0,
        file_output(has_file, seq![LogMsgView::Syslog(level, text)]).len() == 0,
        syslog_output(has_file, seq![LogMsgView::Syslog(level, text)]) == seq![(level, text)],
        syslog_output(has_file, seq![LogMsgView::Stdout(text)]).len() == 0,
        syslog_output(has_file, seq![LogMsgView::File(text)]).len() == 0,
        stdout_output(has_file, first + second) == stdout_output(has_file, first) + stdout_output(
            has_file,
            second,
        ),
        file_output(has_file, first + second) == file_output(has_file, first) + file_output(
            has_file,
            second,
        ),
        syslog_output(has_file, first + second) == syslog_output(has_file, first) + syslog_output(
            has_file,
            second,
        ),
{
    lemma_outputs_in_a_row(has_file, first, second);
    reveal_with_fuel(stdout_output, 2);
    reveal_with_fuel(file_output, 2);
    reveal_with_fuel(syslog_output, 2);
}

/// What a filter takes of a session it takes record by record: the line or the message of a record
/// whose level passes, nothing of one whose level does not, and of two sessions in a row what it
/// takes of the first and then what it takes of the second.
pub proof fn law_lines_record_by_record(
    filter: LevelFilter,
    logged: Logged,
    first: Seq<Logged>,
    second: Seq<Logged>,
)
    ensures
        ({
            let record = logged.record;
            let one = seq![logged];
            &&& record.level.passes_spec(filter) ==> {
                &&& shown_lines(filter, one) == logged.shown
                &&& plain_lines(filter, one) == plain_line(record, record.args, logged.time)
                &&& plain_messages(filter, one) == seq![(record.level, record.args)]
            }
            &&& !record.level.passes_spec(filter) ==> {
                &&& shown_lines(filter, one).len() == 0
                &&& plain_lines(filter, one).len() == 0
                &&& plain_messages(filter, one).len() == 0
            }
        }),
        shown_lines(filter, first + second) == shown_lines(filter, first) + shown_lines(
            filter,
            second,
        ),
        plain_lines(filter, first + second) == plain_lines(filter, first) + plain_lines(
            filter,
            second,
        ),
        plain_messages(filter, first + second) == plain_messages(filter, first) + plain_messages(
            filter,
            second,
        ),
    decreases second.len(),
{
    reveal_with_fuel(shown_lines, 2);
    reveal_with_fuel(plain_lines, 2);
    reveal_with_fuel(plain_messages, 2);
    if second.len() == 0 {
        assert(first + second == first);
    } else {
        law_lines_record_by_record(filter, logged, first, second.drop_last());
        assert((first + second).drop_last() == first + second.drop_last());
        assert((first + second).last() == second.last());
    }
}

} // verus!
