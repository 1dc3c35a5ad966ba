use tiny_logs::lifecycle::{
    end_next, init_next, install, EndNext, EndStep, InitAction, InitEvent, InitState,
};
use tiny_logs::syslog::{self, Entry, OpenRequest, Syslog};
use tiny_logs::writer::{write_log, write_next, WriteNext, WriteStep, WriterAction};
use tiny_logs::{end, init, writer, Level, LevelFilter, LogMsg, LoggerHandler, Record, TinyLogger};

const LOGGER: TinyLogger = TinyLogger {
    level: LevelFilter::Info,
    file_level: LevelFilter::Error,
    syslog_level: LevelFilter::Debug,
};

fn record(level: Level) -> Record {
    Record { level, args: "100% done".to_string(), path: None, path_static: None }
}

#[test]
fn a_level_is_enabled_where_some_filter_takes_it() {
    assert!(LOGGER.enabled(Level::Error));
    assert!(LOGGER.enabled(Level::Info));
    assert!(LOGGER.enabled(Level::Debug));
    assert!(!LOGGER.enabled(Level::Trace));
    assert_eq!(LOGGER.max_level(), LevelFilter::Debug);
    let silent = TinyLogger {
        level: LevelFilter::Off,
        file_level: LevelFilter::Off,
        syslog_level: LevelFilter::Off,
    };
    assert!(!silent.enabled(Level::Error));
    assert_eq!(silent.max_level(), LevelFilter::Off);
}

#[test]
fn a_record_becomes_one_message_for_each_destination_that_takes_it() {
    let shown = "shown\n".to_string();
    assert_eq!(
        LOGGER.route(&record(Level::Error), "T", shown.clone()),
        vec![
            LogMsg::Stdout("shown\n".to_string()),
            LogMsg::File("[ERROR] [T] - 100% done\n".to_string()),
            LogMsg::Syslog(Level::Error, "100% done".to_string()),
        ]
    );
    assert_eq!(
        LOGGER.route(&record(Level::Info), "T", shown.clone()),
        vec![
            LogMsg::Stdout("shown\n".to_string()),
            LogMsg::Syslog(Level::Info, "100% done".to_string()),
        ]
    );
    assert_eq!(
        LOGGER.route(&record(Level::Debug), "T", shown.clone()),
        vec![LogMsg::Syslog(Level::Debug, "100% done".to_string())]
    );
    assert_eq!(LOGGER.route(&record(Level::Trace), "T", shown), vec![]);
}

#[test]
fn a_closed_logger_sends_nothing() {
    assert!(LOGGER.wants(Level::Error, false));
    assert!(!LOGGER.wants(Level::Trace, false));
    assert!(!LOGGER.wants(Level::Error, true));
    assert_eq!(LOGGER.log(&record(Level::Error), false).len(), 3);
    assert_eq!(LOGGER.log(&record(Level::Trace), false), vec![]);
    assert_eq!(LOGGER.log(&record(Level::Error), true), vec![]);
}

#[test]
fn a_record_is_logged_at_the_given_time() {
    let messages = LOGGER.log_at(&record(Level::Error), "T");
    assert_eq!(messages.len(), 3);
    assert!(matches!(&messages[0], LogMsg::Stdout(line) if line.contains("100% done")));
    assert_eq!(messages[1], LogMsg::File("[ERROR] [T] - 100% done\n".to_string()));
    assert_eq!(messages[2], LogMsg::Syslog(Level::Error, "100% done".to_string()));
    assert_eq!(LOGGER.log_at(&record(Level::Trace), "T"), vec![]);
}

#[test]
fn the_writing_task_takes_each_message_to_its_destination() {
    let line = || "line\n".to_string();
    assert_eq!(writer(true, Some(LogMsg::Stdout(line()))), WriterAction::Stdout(line()));
    assert_eq!(writer(false, Some(LogMsg::Stdout(line()))), WriterAction::Stdout(line()));
    assert_eq!(writer(true, Some(LogMsg::File(line()))), WriterAction::File(line()));
    assert_eq!(writer(false, Some(LogMsg::File(line()))), WriterAction::Skip);
    assert_eq!(
        writer(true, Some(LogMsg::Syslog(Level::Warn, line()))),
        WriterAction::Syslog(Level::Warn, line())
    );
    assert_eq!(
        writer(false, Some(LogMsg::Syslog(Level::Warn, line()))),
        WriterAction::Syslog(Level::Warn, line())
    );
    assert_eq!(writer(true, Some(LogMsg::Close)), WriterAction::CloseChannel);
    assert_eq!(writer(false, Some(LogMsg::Close)), WriterAction::CloseChannel);
    assert_eq!(writer(true, None), WriterAction::Stop);
    assert_eq!(writer(false, None), WriterAction::Stop);
}

#[test]
fn a_start_with_a_file_takes_four_steps() {
    let (state, action) = init(
        LevelFilter::Warn,
        Some("some/file.log".to_string()),
        LevelFilter::Trace,
        LevelFilter::Error,
    );
    assert_eq!(action, InitAction::OpenFile("some/file.log".to_string()));
    let (state, action) = init_next(state, InitEvent::Opened(Ok(())));
    assert_eq!(action, InitAction::Connect(LevelFilter::Error));
    let (state, action) = init_next(state, InitEvent::Connected);
    let logger = TinyLogger {
        level: LevelFilter::Warn,
        file_level: LevelFilter::Trace,
        syslog_level: LevelFilter::Error,
    };
    assert_eq!(action, InitAction::Register { logger, has_file: true });
    let (state, action) = init_next(state, InitEvent::Registered(Ok(())));
    assert_eq!(action, InitAction::Install(LevelFilter::Trace));
    assert_eq!(state, InitState::Ended);
}

#[test]
fn a_file_that_cannot_be_opened_ends_the_start() {
    let (state, _) = init(
        LevelFilter::Warn,
        Some("no/such/dir".to_string()),
        LevelFilter::Warn,
        LevelFilter::Off,
    );
    let (state, action) = init_next(state, InitEvent::Opened(Err("not found".to_string())));
    assert_eq!(action, InitAction::Fail("Failed to open log file: not found".to_string()));
    assert_eq!(state, InitState::Ended);
}

#[test]
fn a_second_logger_is_refused() {
    let (state, action) = init(LevelFilter::Warn, None, LevelFilter::Warn, LevelFilter::Off);
    assert_eq!(action, InitAction::Connect(LevelFilter::Off));
    let (state, action) = init_next(state, InitEvent::Connected);
    let logger = TinyLogger {
        level: LevelFilter::Warn,
        file_level: LevelFilter::Off,
        syslog_level: LevelFilter::Off,
    };
    assert_eq!(action, InitAction::Register { logger, has_file: false });
    let (state, action) = init_next(state, InitEvent::Registered(Err("already set".to_string())));
    assert_eq!(action, InitAction::Fail("Failed to initialize logger: already set".to_string()));
    assert_eq!(state, InitState::Ended);
}

#[test]
fn a_file_with_its_filter_off_is_not_opened() {
    let (state, action) = init(
        LevelFilter::Info,
        Some("unused.log".to_string()),
        LevelFilter::Off,
        LevelFilter::Info,
    );
    assert_eq!(action, InitAction::Connect(LevelFilter::Info));
    let (_, action) = init_next(state, InitEvent::Connected);
    assert!(matches!(action, InitAction::Register { has_file: false, .. }));
}

#[test]
fn the_first_end_takes_the_logger() {
    let mut slot: Option<LoggerHandler<u8, u8>> = None;
    assert!(end(&mut slot).is_none());
    install(&mut slot, LoggerHandler { sender: 1, joinhandle: 2 });
    install(&mut slot, LoggerHandler { sender: 3, joinhandle: 4 });
    let handler = end(&mut slot).unwrap();
    assert_eq!((handler.sender, handler.joinhandle), (3, 4));
    assert_eq!(handler.end(), EndStep::SendClose);
    assert!(end(&mut slot).is_none());
}

#[test]
fn the_end_takes_three_steps() {
    assert_eq!(end_next(EndStep::SendClose, Ok(())), EndNext::Step(EndStep::AwaitWriter));
    assert_eq!(end_next(EndStep::AwaitWriter, Ok(())), EndNext::Step(EndStep::CloseSyslog));
    assert_eq!(end_next(EndStep::CloseSyslog, Ok(())), EndNext::Done);
}

#[test]
fn a_step_that_fails_ends_the_end() {
    let reason = || Err("why".to_string());
    assert_eq!(
        end_next(EndStep::SendClose, reason()),
        EndNext::Fail("Logger was already closed.: why".to_string())
    );
    assert_eq!(
        end_next(EndStep::AwaitWriter, reason()),
        EndNext::Fail("Failed to close the writer's task: why".to_string())
    );
    assert_eq!(
        end_next(EndStep::CloseSyslog, reason()),
        EndNext::Fail("Failed to close syslog: why".to_string())
    );
}

#[test]
fn levels_have_the_priorities_of_the_c_library() {
    assert_eq!(syslog::level_translate(Level::Error), libc::LOG_ERR);
    assert_eq!(syslog::level_translate(Level::Warn), libc::LOG_WARNING);
    assert_eq!(syslog::level_translate(Level::Info), libc::LOG_INFO);
    assert_eq!(syslog::level_translate(Level::Debug), libc::LOG_DEBUG);
    assert_eq!(syslog::level_translate(Level::Trace), libc::LOG_DEBUG);
    assert_eq!(syslog::level_translate(Level::Error), 3);
    assert_eq!(syslog::level_translate(Level::Trace), 7);
}

#[test]
fn percent_signs_are_doubled() {
    assert_eq!(syslog::escape(""), "");
    assert_eq!(syslog::escape("plain text"), "plain text");
    assert_eq!(syslog::escape("100% %s %%"), "100%% %%s %%%%");
    assert_eq!(syslog::escape("è % ü"), "è %% ü");
    for text in ["", "%", "%%", "a%n", "50% of %d"] {
        assert_eq!(syslog::escape(text), text.replace('%', "%%"));
        assert_eq!(syslog::escape(text).replace("%%", "%"), text);
    }
}

#[test]
fn a_message_for_the_system_logger_is_escaped() {
    assert_eq!(
        syslog::log_blocking(Level::Warn, "90% full".to_string()),
        Entry { priority: 4, format: "90%% full".to_string() }
    );
    let open = Syslog { initialized: true };
    assert_eq!(
        syslog::log(&open, Level::Info, "%n".to_string()),
        Some(Entry { priority: 6, format: "%%n".to_string() })
    );
    let unopened = Syslog { initialized: false };
    assert_eq!(syslog::log(&unopened, Level::Info, "%n".to_string()), None);
    assert_eq!(syslog::log(&unopened, Level::Info, "a\0b".to_string()), None);
}

#[test]
fn a_name_that_c_cannot_hold_is_dropped() {
    assert!(syslog::has_nul("a\0b"));
    assert!(syslog::has_nul("\0"));
    assert!(!syslog::has_nul(""));
    assert!(!syslog::has_nul("server"));
    assert_eq!(
        syslog::init_blocking(Some("server".to_string())).ident,
        Some("server".to_string())
    );
    assert_eq!(syslog::init_blocking(Some("ser\0ver".to_string())).ident, None);
    assert_eq!(syslog::init_blocking(None).ident, None);
}

#[test]
fn the_connection_is_opened_for_a_daemon_with_its_process_id() {
    assert_eq!(
        syslog::init_blocking(Some("server".to_string())),
        OpenRequest {
            ident: Some("server".to_string()),
            option: libc::LOG_PID | libc::LOG_NDELAY,
            facility: libc::LOG_DAEMON,
        }
    );
    let request = syslog::init_blocking(None);
    assert!(request.option == 0x09 || request.option == 0x9000);
    assert_eq!(request.facility, 24);
}

#[test]
fn a_line_is_written_and_flushed() {
    assert_eq!(write_log(), WriteStep::Write);
    assert_eq!(write_next(WriteStep::Write, Ok(())), WriteNext::Step(WriteStep::Flush));
    assert_eq!(write_next(WriteStep::Flush, Ok(())), WriteNext::Done);
    assert_eq!(
        write_next(WriteStep::Write, Err("disk full".to_string())),
        WriteNext::Fail("Failed to write log: disk full".to_string())
    );
    assert_eq!(
        write_next(WriteStep::Flush, Err("disk full".to_string())),
        WriteNext::Fail("Failed to flush log: disk full".to_string())
    );
    assert_eq!(syslog::logged(Ok(())), Ok(()));
    assert_eq!(
        syslog::logged(Err("cancelled".to_string())),
        Err("Failed to log with syslog: cancelled".to_string())
    );
}

#[test]
fn the_connection_is_opened_at_most_once() {
    let mut connection = Syslog { initialized: false };
    assert!(!syslog::is_initialized(&connection));
    assert!(!syslog::close(&connection));
    assert!(!syslog::init(&connection, LevelFilter::Off));
    assert!(syslog::init(&connection, LevelFilter::Error));
    assert_eq!(
        syslog::opened(&mut connection, Err("cancelled".to_string())),
        Err("Failed to init syslog: cancelled".to_string())
    );
    assert!(!syslog::is_initialized(&connection));
    assert_eq!(syslog::opened(&mut connection, Ok(())), Ok(()));
    assert!(syslog::is_initialized(&connection));
    assert_eq!(
        syslog::opened(&mut connection, Ok(())),
        Err("Tried to initialize syslog twice.".to_string())
    );
    assert!(!syslog::init(&connection, LevelFilter::Error));
    assert!(!syslog::init(&connection, LevelFilter::Off));
    assert!(syslog::close(&connection));
    assert!(syslog::is_initialized(&connection));
}
