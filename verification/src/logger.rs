//! Which destinations a record goes to, and what each of them gets.

use vstd::prelude::*;

use crate::clock::{clock_gave, now, Moment};
use crate::level::{Level, LevelFilter};
use crate::line::{
    create_log, create_log_colored, painted_line, plain_line, Painted, Record, RecordView,
};
use crate::paint::terminal_shows;

verus! {

/// A message to the task that writes the logs.
#[derive(Debug, PartialEq, Eq)]
pub enum LogMsg {
    /// A line for the standard output.
    Stdout(String),
    /// A line for the log file.
    File(String),
    /// A message for the system logger.
    Syslog(Level, String),
    /// No more messages will be sent.
    Close,
}

/// The content of a [`LogMsg`].
pub enum LogMsgView {
    Stdout(Seq<char>),
    File(Seq<char>),
    Syslog(Level, Seq<char>),
    Close,
}

impl View for LogMsg {
    type V = LogMsgView;

    open spec fn view(&self) -> LogMsgView {
        match self {
            LogMsg::Stdout(line) => LogMsgView::Stdout(line@),
            LogMsg::File(line) => LogMsgView::File(line@),
            LogMsg::Syslog(level, text) => LogMsgView::Syslog(*level, text@),
            LogMsg::Close => LogMsgView::Close,
        }
    }
}

/// The contents of a list of messages.
pub open spec fn contents(messages: Seq<LogMsg>) -> Seq<LogMsgView> {
    messages.map_values(|message: LogMsg| message@)
}

/// The filters of the three destinations.
#[derive(Clone, Copy, Debug, PartialEq, Eq, Structural)]
pub struct TinyLogger {
    /// Filter of the standard output.
    pub level: LevelFilter,
    /// Filter of the log file.
    pub file_level: LevelFilter,
    /// Filter of the system logger.
    pub syslog_level: LevelFilter,
}

impl TinyLogger {
    /// Some destination takes records of the level.
    pub open spec fn enabled_spec(self, level: Level) -> bool {
        ||| level.passes_spec(self.level)
        ||| level.passes_spec(self.file_level)
        ||| level.passes_spec(self.syslog_level)
    }

    /// The message for the standard output, if its filter takes the record.
    pub open spec fn stdout_part(self, record: RecordView, shown: Seq<char>) -> Seq<LogMsgView> {
        if record.level.passes_spec(self.level) {
            seq![LogMsgView::Stdout(shown)]
        } else {
            seq![]
        }
    }

    /// The message for the log file, if its filter takes the record.
    pub open spec fn file_part(self, record: RecordView, time: Seq<char>) -> Seq<LogMsgView> {
        if record.level.passes_spec(self.file_level) {
            seq![LogMsgView::File(plain_line(record, record.args, time))]
        } else {
            seq![]
        }
    }

    /// The message for the system logger, if its filter takes the record.
    pub open spec fn syslog_part(self, record: RecordView) -> Seq<LogMsgView> {
        if record.level.passes_spec(self.syslog_level) {
            seq![LogMsgView::Syslog(record.level, record.args)]
        } else {
            seq![]
        }
    }

    /// The messages that a record becomes, given the time and the line that the terminal shows.
    pub open spec fn messages(
        self,
        record: RecordView,
        time: Seq<char>,
        shown: Seq<char>,
    ) -> Seq<LogMsgView> {
        self.stdout_part(record, shown) + self.file_part(record, time) + self.syslog_part(record)
    }

    /// Whether some destination takes records of the level.
    pub fn enabled(&self, level: Level) -> (taken: bool)
        ensures
            taken == self.enabled_spec(level),
    {
        level.passes(self.level) || level.passes(self.file_level) || level.passes(
            self.syslog_level,
        )
    }

    /// Whether a record of the level is logged at all: some destination takes it, and the receiving
    /// end of the channel is not closed.
    pub fn wants(&self, level: Level, closed: bool) -> (wanted: bool)
        ensures
            wanted == (!closed && self.enabled_spec(level)),
    {
        !closed && self.enabled(level)
    }

    /// The messages that a record becomes, given the time and the line that the terminal shows.
    pub fn route(&self, record: &Record, time: &str, shown: String) -> (messages: Vec<LogMsg>)
        ensures
            contents(messages@) == self.messages(record@, time@, shown@),
            !messages@.contains(LogMsg::Close),
    {
        let mut messages: Vec<LogMsg> = Vec::new();
        if record.level.passes(self.level) {
            messages.push(LogMsg::Stdout(shown));
        }
        if record.level.passes(self.file_level) {
            messages.push(LogMsg::File(create_log(record, record.args.as_str(), time)));
        }
        if record.level.passes(self.syslog_level) {
            messages.push(LogMsg::Syslog(record.level, record.args.clone()));
        }
        assert(contents(messages@) =~= self.messages(record@, time@, shown@));
        messages
    }

    /// The messages to send for a record that is logged at the given time, in order.
    pub fn log_at(&self, record: &Record, time: &str) -> (messages: Vec<LogMsg>)
        ensures
            exists|painted: Painted|
                contents(messages@) == self.messages(
                    record@,
                    time@,
                    #[trigger] painted_line(record@, record.args@, time@, painted),
                ),
            exists|shown: Seq<char>|
                {
                    &&& record.level.passes_spec(self.level) ==> terminal_shows(
                        plain_line(record@, record.args@, time@),
                        painted_line(
                            record@,
                            record.args@,
                            time@,
                            (Painted { tag: true, time: true, module: true }),
                        ),
                        shown,
                    )
                    &&& contents(messages@) == #[trigger] self.messages(record@, time@, shown)
                },
            !messages@.contains(LogMsg::Close),
    {
        let shown = if record.level.passes(self.level) {
            create_log_colored(record, record.args.as_str(), time)
        } else {
            String::new()
        };
        let ghost line = shown@;
        let messages = self.route(record, time, shown);
        proof {
            assert(contents(messages@) == self.messages(record@, time@, line));
            let painted = choose|painted: Painted| record.level.passes_spec(self.level) ==> line
                == #[trigger] painted_line(record@, record.args@, time@, painted);
            assert(contents(messages@) == self.messages(
                record@,
                time@,
                painted_line(record@, record.args@, time@, painted),
            ));
        }
        messages
    }

    /// The messages to send for a record, in order. There are none once the receiving end is
    /// closed.
    pub fn log(&self, record: &Record, closed: bool) -> (messages: Vec<LogMsg>)
        ensures
            closed || !self.enabled_spec(record.level) ==> messages@.len() == 0,
            !closed && self.enabled_spec(record.level) ==> exists|moment: Moment, painted: Painted|
                {
                    &&& moment.valid()
                    &&& contents(messages@) == self.messages(
                        record@,
                        moment.text(),
                        #[trigger] painted_line(record@, record.args@, moment.text(), painted),
                    )
                },
            !closed && self.enabled_spec(record.level) ==> exists|moment: Moment, shown: Seq<char>|
                {
                    &&& clock_gave(moment)
                    &&& record.level.passes_spec(self.level) ==> terminal_shows(
                        plain_line(record@, record.args@, moment.text()),
                        painted_line(
                            record@,
                            record.args@,
                            moment.text(),
                            (Painted { tag: true, time: true, module: true }),
                        ),
                        shown,
                    )
                    &&& contents(messages@) == #[trigger] self.messages(
                        record@,
                        moment.text(),
                        shown,
                    )
                },
            !messages@.contains(LogMsg::Close),
    {
        if !self.wants(record.level, closed) {
            return Vec::new();
        }
        let time = now();
        let messages = self.log_at(record, time.as_str());
        proof {
            let moment = choose|moment: Moment| moment.valid() && time@ == #[trigger] moment.text();
            let painted = choose|painted: Painted|
                contents(messages@) == self.messages(
                    record@,
                    time@,
                    #[trigger] painted_line(record@, record.args@, time@, painted),
                );
            assert(contents(messages@) == self.messages(
                record@,
                moment.text(),
                painted_line(record@, record.args@, moment.text(), painted),
            ));
            let reading = choose|moment: Moment|
                clock_gave(moment) && time@ == #[trigger] moment.text();
            assert(time@ == reading.text());
        }
        messages
    }
}

/// The content of a message is of its kind, and holds the text and the level that it holds.
pub proof fn law_message_content(message: LogMsg)
    ensures
        message matches LogMsg::Stdout(line) ==> message@ == LogMsgView::Stdout(line@),
        message matches LogMsg::File(line) ==> message@ == LogMsgView::File(line@),
        message matches LogMsg::Syslog(level, text) ==> message@ == LogMsgView::Syslog(
            level,
            text@,
        ),
        message@ is Close <==> message is Close,
{
}

/// The contents of a list of messages are as many as the messages, each at the place of its
/// message.
pub proof fn law_contents_place_by_place(messages: Seq<LogMsg>)
    ensures
        contents(messages).len() == messages.len(),
        forall|i: int| 0 <= i < messages.len() ==> #[trigger] contents(messages)[i] == messages[i]@,
        contents(messages).contains(LogMsgView::Close) <==> messages.contains(LogMsg::Close),
{
    if messages.contains(LogMsg::Close) {
        let i = choose|i: int| 0 <= i < messages.len() && messages[i] == LogMsg::Close;
        assert(contents(messages)[i] == LogMsgView::Close);
    }
    if contents(messages).contains(LogMsgView::Close) {
        let i = choose|i: int|
            0 <= i < contents(messages).len() && contents(messages)[i] == LogMsgView::Close;
        assert(messages[i] == LogMsg::Close);
    }
}

/// A level is enabled if and only if one of the three filters takes it. So a filter that is made
/// looser disables nothing.
pub proof fn law_enabled_by_any_filter(logger: TinyLogger, level: Level)
    ensures
        level.passes_spec(logger.level) ==> logger.enabled_spec(level),
        level.passes_spec(logger.file_level) ==> logger.enabled_spec(level),
        level.passes_spec(logger.syslog_level) ==> logger.enabled_spec(level),
        logger.enabled_spec(level) ==> level.passes_spec(logger.level) || level.passes_spec(
            logger.file_level,
        ) || level.passes_spec(logger.syslog_level),
{
}

/// A record becomes exactly one message for each destination whose filter takes it, whatever the
/// record, the time and the shown line are: the shown line for the standard output, then the plain
/// line of its own message for the file, then its level and its message for the system logger. None
/// of them asks to close the channel.
pub proof fn law_one_message_per_destination(
    logger: TinyLogger,
    record: RecordView,
    time: Seq<char>,
    shown: Seq<char>,
)
    ensures
        ({
            let messages = logger.messages(record, time, shown);
            let stdout = if record.level.passes_spec(logger.level) {
                1int
            } else {
                0int
            };
            let file = if record.level.passes_spec(logger.file_level) {
                1int
            } else {
                0int
            };
            let syslog = if record.level.passes_spec(logger.syslog_level) {
                1int
            } else {
                0int
            };
            &&& messages.len() == stdout + file + syslog
            &&& stdout == 1 ==> messages[0] == LogMsgView::Stdout(shown)
            &&& file == 1 ==> messages[stdout] == LogMsgView::File(
                plain_line(record, record.args, time),
            )
            &&& syslog == 1 ==> messages[stdout + file] == LogMsgView::Syslog(
                record.level,
                record.args,
            )
            &&& !messages.contains(LogMsgView::Close)
        }),
{
}

/// What a destination gets depends on its own filter alone: with the filters of the others off, a
/// record becomes the message for that destination, or none.
pub proof fn law_destinations_are_independent(
    logger: TinyLogger,
    record: RecordView,
    time: Seq<char>,
    shown: Seq<char>,
)
    ensures
        ({
            let off = LevelFilter::Off;
            let stdout = TinyLogger { file_level: off, syslog_level: off, ..logger };
            let file = TinyLogger { level: off, syslog_level: off, ..logger };
            let syslog = TinyLogger { level: off, file_level: off, ..logger };
            logger.messages(record, time, shown) == stdout.messages(record, time, shown)
                + file.messages(record, time, shown) + syslog.messages(record, time, shown)
        }),
{
}

} // verus!
