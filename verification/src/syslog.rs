//! What the system logger is handed, and when.
//!
//! The connection to the system logger is opened at most once. Messages are handed over as format
//! strings of `printf`, without arguments, so a percent sign in a message is doubled.

use vstd::prelude::*;

use crate::level::{Level, LevelFilter};
use crate::lifecycle::{failure, reason_text};

verus! {

/// The connection to the system logger.
#[derive(Clone, Copy, Debug, PartialEq, Eq, Structural)]
pub struct Syslog {
    /// Whether the connection has been opened. It stays true from then on, also after the
    /// connection has been closed.
    pub initialized: bool,
}

/// A message as the system logger takes it.
#[derive(Debug, PartialEq, Eq)]
pub struct Entry {
    /// The priority.
    pub priority: i32,
    /// The format string.
    pub format: String,
}

/// What the connection to the system logger is opened with.
#[derive(Debug, PartialEq, Eq)]
pub struct OpenRequest {
    /// The name under which the program logs. Without one the system logger picks it itself.
    pub ident: Option<String>,
    /// The options: log the process id, and open the connection at once.
    pub option: i32,
    /// The facility: a daemon of the system.
    pub facility: i32,
}

/// `String::push` of the standard library puts a character at the end of a string.
pub assume_specification[ String::push ](text: &mut String, c: char)
    ensures
        final(text)@ == old(text)@.push(c),
;

/// The priority of the system logger for a level.
pub open spec fn priority(level: Level) -> i32 {
    match level {
        Level::Error => 3,
        Level::Warn => 4,
        Level::Info => 6,
        Level::Debug => 7,
        Level::Trace => 7,
    }
}

/// The text holds the character that ends a string of C.
pub open spec fn contains_nul(text: Seq<char>) -> bool {
    text.contains('\0')
}

/// How a character of a message is written in a format string.
pub open spec fn escaped_char(c: char) -> Seq<char> {
    if c == '%' {
        seq!['%', '%']
    } else {
        seq![c]
    }
}

/// A message as a format string: every percent sign doubled.
pub open spec fn escaped(text: Seq<char>) -> Seq<char>
    decreases text.len(),
{
    if text.len() == 0 {
        seq![]
    } else {
        escaped_char(text[0]) + escaped(text.drop_first())
    }
}

/// What `printf` writes for a format string without arguments. There is no such text if a percent
/// sign asks for an argument.
pub open spec fn printed(format: Seq<char>) -> Option<Seq<char>>
    decreases format.len(),
{
    if format.len() == 0 {
        Some(seq![])
    } else if format[0] != '%' {
        match printed(format.skip(1)) {
            Some(rest) => Some(seq![format[0]] + rest),
            None => None,
        }
    } else if format.len() >= 2 && format[1] == '%' {
        match printed(format.skip(2)) {
            Some(rest) => Some(seq!['%'] + rest),
            None => None,
        }
    } else {
        None
    }
}

impl Syslog {
    /// A destination with the given filter needs the connection, and it is not open yet.
    pub open spec fn must_open(self, level: LevelFilter) -> bool {
        level != LevelFilter::Off && !self.initialized
    }

    /// The connection after it has been opened.
    pub open spec fn after_open(self) -> Syslog {
        Syslog { initialized: true }
    }
}

/// `libc::LOG_ERR`, the priority of errors.
#[verifier::external_body]
fn log_err() -> (value: i32)
    ensures
        value == 3,
{
    libc::LOG_ERR
}

/// `libc::LOG_WARNING`, the priority of warnings.
#[verifier::external_body]
fn log_warning() -> (value: i32)
    ensures
        value == 4,
{
    libc::LOG_WARNING
}

/// `libc::LOG_INFO`, the priority of informational messages.
#[verifier::external_body]
fn log_info() -> (value: i32)
    ensures
        value == 6,
{
    libc::LOG_INFO
}

/// `libc::LOG_DEBUG`, the priority of messages for debugging.
#[verifier::external_body]
fn log_debug() -> (value: i32)
    ensures
        value == 7,
{
    libc::LOG_DEBUG
}

/// `libc::LOG_PID` and `libc::LOG_NDELAY`, the options to log the process id and to open the
/// connection at once. Claimed: their values, which are others on Haiku than elsewhere.
#[verifier::external_body]
fn log_pid_and_ndelay() -> (values: (i32, i32))
    ensures
        values == (0x01i32, 0x08i32) || values == (0x1000i32, 0x8000i32),
{
    (libc::LOG_PID, libc::LOG_NDELAY)
}

/// `libc::LOG_DAEMON`, the facility of the daemons of the system.
#[verifier::external_body]
fn log_daemon() -> (value: i32)
    ensures
        value == 24,
{
    libc::LOG_DAEMON
}

/// Whether the connection has been opened.
pub fn is_initialized(syslog: &Syslog) -> (initialized: bool)
    ensures
        initialized == syslog.initialized,
{
    syslog.initialized
}

/// The priority of the system logger for a level.
pub fn level_translate(level: Level) -> (value: i32)
    ensures
        value == priority(level),
{
    match level {
        Level::Error => log_err(),
        Level::Warn => log_warning(),
        Level::Info => log_info(),
        Level::Trace | Level::Debug => log_debug(),
    }
}

/// Whether a text holds the character that ends a string of C.
pub fn has_nul(text: &str) -> (found: bool)
    ensures
        found == contains_nul(text@),
{
    let mut found = false;
    for c in chars: text.chars()
        invariant
            chars.seq() == text@,
            found == contains_nul(text@.take(chars.index())),
    {
        let ghost index = chars.index();
        assert(text@.take(index + 1) == text@.take(index).push(c));
        if c == '\0' {
            found = true;
            assert(text@.take(index + 1)[index] == '\0');
        }
        assert(forall|i: int| 0 <= i < index ==> text@.take(index + 1)[i] == text@.take(index)[i]);
    }
    assert(text@.take(text@.len() as int) == text@);
    found
}

/// Doubles every percent sign.
pub fn escape(text: &str) -> (format: String)
    ensures
        format@ == escaped(text@),
{
    let mut format = String::new();
    assert(text@.skip(0) == text@);
    for c in chars: text.chars()
        invariant
            chars.seq() == text@,
            format@ + escaped(text@.skip(chars.index())) == escaped(text@),
    {
        let ghost before = format@;
        let ghost rest = text@.skip(chars.index());
        if c == '%' {
            format.push('%');
        }
        format.push(c);
        assert(format@ == before + escaped_char(c));
        assert(rest.drop_first() == text@.skip(chars.index() + 1));
        assert(before + escaped(rest) == format@ + escaped(rest.drop_first()));
    }
    assert(text@.skip(text@.len() as int) == Seq::<char>::empty());
    assert(format@ + escaped(Seq::<char>::empty()) == format@);
    format
}

/// The options with which the connection is opened: log the process id, and open it at once. The
/// second value is that of Haiku.
pub open spec fn is_open_option(option: i32) -> bool {
    option == 0x09 || option == 0x9000
}

/// What the connection is opened with, given the name of the executable. Without a name that a
/// string of C can hold there is none, and the system logger picks one itself.
pub fn init_blocking(executable: Option<String>) -> (request: OpenRequest)
    ensures
        request.ident == (match executable {
            Some(name) => if contains_nul(name@) {
                None
            } else {
                Some(name)
            },
            None => None,
        }),
        is_open_option(request.option),
        request.option == 0x09 || request.option == 0x9000,
        request.facility == 24,
{
    let ident = match executable {
        Some(name) => if has_nul(name.as_str()) {
            None
        } else {
            Some(name)
        },
        None => None,
    };
    let (pid, ndelay) = log_pid_and_ndelay();
    assert(0x01i32 | 0x08i32 == 0x09i32) by (bit_vector);
    assert(0x1000i32 | 0x8000i32 == 0x9000i32) by (bit_vector);
    OpenRequest { ident, option: pid | ndelay, facility: log_daemon() }
}

/// The message as the system logger takes it.
pub fn log_blocking(level: Level, text: String) -> (entry: Entry)
    requires
        !contains_nul(text@),
    ensures
        entry.priority == priority(level),
        entry.format@ == escaped(text@),
        !contains_nul(entry.format@),
{
    proof {
        lemma_escaped_keeps_nul(text@);
    }
    Entry { priority: level_translate(level), format: escape(text.as_str()) }
}

/// Whether the connection has to be opened for a filter: it does unless the filter is off or the
/// connection has been opened before.
pub fn init(syslog: &Syslog, level: LevelFilter) -> (open: bool)
    ensures
        open == syslog.must_open(level),
{
    level != LevelFilter::Off && !is_initialized(syslog)
}

/// Notes what came of opening the connection. It fails if the connection could not be opened, and
/// if it has been opened in the meantime; the program then has to stop with the message.
pub fn opened(syslog: &mut Syslog, outcome: Result<(), String>) -> (noted: Result<(), String>)
    ensures
        reason_text(noted) == (match reason_text(outcome) {
            Err(reason) => Err("Failed to init syslog: "@ + reason),
            Ok(()) => if old(syslog).initialized {
                Err("Tried to initialize syslog twice."@)
            } else {
                Ok(())
            },
        }),
        *final(syslog) == (if outcome is Ok {
            old(syslog).after_open()
        } else {
            *old(syslog)
        }),
        final(syslog).initialized == (old(syslog).initialized || outcome is Ok),
{
    match outcome {
        Err(reason) => Err(failure("Failed to init syslog: ", reason.as_str())),
        Ok(()) => if syslog.initialized {
            Err("Tried to initialize syslog twice.".to_owned())
        } else {
            syslog.initialized = true;
            Ok(())
        },
    }
}

/// What came of handing a message over. If that failed, the writing task has to stop with the
/// message.
pub fn logged(outcome: Result<(), String>) -> (result: Result<(), String>)
    ensures
        reason_text(result) == (match reason_text(outcome) {
            Err(reason) => Err("Failed to log with syslog: "@ + reason),
            Ok(()) => Ok(()),
        }),
{
    match outcome {
        Err(reason) => Err(failure("Failed to log with syslog: ", reason.as_str())),
        Ok(()) => Ok(()),
    }
}

/// What to hand over for a message: nothing unless the connection has been opened.
pub fn log(syslog: &Syslog, level: Level, text: String) -> (entry: Option<Entry>)
    requires
        syslog.initialized ==> !contains_nul(text@),
    ensures
        entry is Some == syslog.initialized,
        entry matches Some(entry) ==> {
            &&& entry.priority == priority(level)
            &&& entry.format@ == escaped(text@)
            &&& !contains_nul(entry.format@)
        },
{
    if is_initialized(syslog) {
        Some(log_blocking(level, text))
    } else {
        None
    }
}

/// Whether the connection has to be closed.
pub fn close(syslog: &Syslog) -> (close: bool)
    ensures
        close == syslog.initialized,
{
    is_initialized(syslog)
}

/// Doubling percent signs adds and removes no NUL.
proof fn lemma_escaped_keeps_nul(text: Seq<char>)
    ensures
        contains_nul(escaped(text)) == contains_nul(text),
    decreases text.len(),
{
    if text.len() > 0 {
        let head = escaped_char(text[0]);
        let rest = text.drop_first();
        lemma_escaped_keeps_nul(rest);
        if contains_nul(text) && text[0] != '\0' {
            let i = choose|i: int| 0 <= i < text.len() && text[i] == '\0';
            assert(rest[i - 1] == '\0');
            let k = choose|k: int| 0 <= k < escaped(rest).len() && escaped(rest)[k] == '\0';
            assert(escaped(text)[head.len() + k] == '\0');
        }
        if text[0] == '\0' {
            assert(escaped(text)[0] == '\0');
        }
        if contains_nul(escaped(text)) {
            let k = choose|k: int| 0 <= k < escaped(text).len() && escaped(text)[k] == '\0';
            if k < head.len() {
                assert(text[0] == '\0');
            } else {
                assert(escaped(rest)[k - head.len()] == '\0');
                let i = choose|i: int| 0 <= i < rest.len() && rest[i] == '\0';
                assert(text[i + 1] == '\0');
            }
        }
    }
}

/// The connection after a number of starts, one for each filter, none of which fails.
pub open spec fn after_starts(syslog: Syslog, filters: Seq<LevelFilter>) -> Syslog
    decreases filters.len(),
{
    if filters.len() == 0 {
        syslog
    } else {
        let before = after_starts(syslog, filters.drop_last());
        if before.must_open(filters.last()) {
            before.after_open()
        } else {
            before
        }
    }
}

/// How often the connection is opened in the course of the starts.
pub open spec fn times_opened(syslog: Syslog, filters: Seq<LevelFilter>) -> nat
    decreases filters.len(),
{
    if filters.len() == 0 {
        0
    } else {
        let before = after_starts(syslog, filters.drop_last());
        times_opened(syslog, filters.drop_last()) + (if before.must_open(filters.last()) {
            1nat
        } else {
            0nat
        })
    }
}

/// Some filter lets something through.
pub open spec fn some_filter_is_on(filters: Seq<LevelFilter>) -> bool {
    exists|i: int| 0 <= i < filters.len() && #[trigger] filters[i] != LevelFilter::Off
}

/// However often the logger is started, the connection is opened at most once: exactly once if it
/// was not open before and some filter lets something through, and otherwise never. It is open at
/// the end if it was open before or some filter lets something through.
pub proof fn law_opened_at_most_once(syslog: Syslog, filters: Seq<LevelFilter>)
    ensures
        times_opened(syslog, filters) <= 1,
        times_opened(syslog, filters) == 1 <==> !syslog.initialized && some_filter_is_on(filters),
        after_starts(syslog, filters).initialized == (syslog.initialized || some_filter_is_on(
            filters,
        )),
    decreases filters.len(),
{
    if filters.len() > 0 {
        let before = filters.drop_last();
        law_opened_at_most_once(syslog, before);
        assert(some_filter_is_on(filters) == (some_filter_is_on(before) || filters.last()
            != LevelFilter::Off)) by {
            if some_filter_is_on(before) {
                let i = choose|i: int| 0 <= i < before.len() && before[i] != LevelFilter::Off;
                assert(filters[i] != LevelFilter::Off);
            }
            if some_filter_is_on(filters) && filters.last() == LevelFilter::Off {
                let i = choose|i: int| 0 <= i < filters.len() && filters[i] != LevelFilter::Off;
                assert(before[i] != LevelFilter::Off);
            }
            assert(filters.last() == filters[filters.len() - 1]);
        }
    }
}

/// What the system logger prints for a message is the message, whatever percent signs it holds.
pub proof fn law_message_printed_as_it_is(text: Seq<char>)
    ensures
        printed(escaped(text)) == Some(text),
    decreases text.len(),
{
    if text.len() > 0 {
        let head = escaped_char(text[0]);
        let rest = text.drop_first();
        law_message_printed_as_it_is(rest);
        assert(escaped(text).skip(head.len() as int) == escaped(rest));
        assert(escaped(text)[0] == text[0]);
        if text[0] == '%' {
            assert(escaped(text)[1] == '%');
        }
        assert(seq![text[0]] + rest == text);
    } else {
        assert(text == Seq::<char>::empty());
    }
}

/// The priorities of the levels: those of an error, a warning, an information and, for the two most
/// verbose levels, of a message for debugging. A more severe level never has a larger number.
pub proof fn law_priorities(level: Level, severer: Level)
    ensures
        level is Error ==> priority(level) == 3,
        level is Warn ==> priority(level) == 4,
        level is Info ==> priority(level) == 6,
        level is Debug || level is Trace ==> priority(level) == 7,
        severer.verbosity() <= level.verbosity() ==> priority(severer) <= priority(level),
{
}

/// A text holds a NUL if and only if one stands at some place in it.
pub proof fn law_nul_stands_somewhere(text: Seq<char>)
    ensures
        contains_nul(text) <==> exists|i: int| 0 <= i < text.len() && #[trigger] text[i] == '\0',
{
}

/// A message is escaped character by character, whatever stands around: a percent sign becomes two,
/// every other character stays as it is, and nothing is added, left out or moved.
pub proof fn law_escaped_character_by_character(first: Seq<char>, second: Seq<char>, c: char)
    ensures
        escaped(Seq::<char>::empty()) == Seq::<char>::empty(),
        escaped(seq![c]) == (if c == '%' {
            seq!['%', '%']
        } else {
            seq![c]
        }),
        escaped(first + second) == escaped(first) + escaped(second),
    decreases first.len(),
{
    reveal_with_fuel(escaped, 2);
    assert(seq![c].drop_first() == Seq::<char>::empty());
    if first.len() == 0 {
        assert(first + second == second);
    } else {
        law_escaped_character_by_character(first.drop_first(), second, c);
        assert((first + second).drop_first() == first.drop_first() + second);
        assert((first + second)[0] == first[0]);
    }
}

/// What `printf` writes for a format string: nothing for an empty one; a character that is not a
/// percent sign as it stands, and one percent sign for two, before what it writes for the rest; and
/// no text where a percent sign is followed by anything else or by nothing.
pub proof fn law_printed_character_by_character(c: char, rest: Seq<char>)
    ensures
        printed(Seq::<char>::empty()) == Some(Seq::<char>::empty()),
        c != '%' ==> printed(seq![c] + rest) is Some == printed(rest) is Some,
        c != '%' && printed(rest) is Some ==> printed(seq![c] + rest) == Some(
            seq![c] + printed(rest)->0,
        ),
        printed(seq!['%', '%'] + rest) is Some == printed(rest) is Some,
        printed(rest) is Some ==> printed(seq!['%', '%'] + rest) == Some(
            seq!['%'] + printed(rest)->0,
        ),
        printed(seq!['%']) is None,
        c != '%' ==> printed(seq!['%', c] + rest) is None,
{
    assert((seq![c] + rest).skip(1) == rest);
    assert((seq!['%', '%'] + rest).skip(2) == rest);
}

/// The connection has to be opened if and only if it has not been and the filter is not off; once
/// it has been opened it never has to be again, for any filter.
pub proof fn law_when_to_open(syslog: Syslog, level: LevelFilter)
    ensures
        syslog.initialized ==> !syslog.must_open(level),
        level == LevelFilter::Off ==> !syslog.must_open(level),
        !syslog.initialized && level != LevelFilter::Off ==> syslog.must_open(level),
        syslog.after_open().initialized,
        !syslog.after_open().must_open(level),
{
}

/// The options with which the connection is opened are the one to log the process id and the one to
/// open at once, both of the same platform, and no other.
pub proof fn law_open_options(option: i32)
    ensures
        is_open_option(option) <==> option == 0x01i32 | 0x08i32 || option == 0x1000i32 | 0x8000i32,
{
    assert(0x01i32 | 0x08i32 == 0x09i32) by (bit_vector);
    assert(0x1000i32 | 0x8000i32 == 0x9000i32) by (bit_vector);
}

} // verus!
