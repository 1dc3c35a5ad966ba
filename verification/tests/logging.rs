use std::collections::VecDeque;

use tiny_logs::lifecycle::{
    end_next, init_next, EndNext, EndStep, InitAction, InitEvent, InitState,
};
use tiny_logs::syslog::Syslog;
use tiny_logs::writer::{write_log, write_next, WriteNext, WriteStep, WriterAction};
use tiny_logs::{end, init, syslog, writer, Level, LevelFilter, LogMsg, LoggerHandler, Record, TinyLogger};

/// A logger whose channel is a queue in memory, with the texts that its destinations have got.
struct Running {
    logger: TinyLogger,
    has_file: bool,
    max_level: LevelFilter,
    queue: VecDeque<LogMsg>,
    closed: bool,
    connection: Syslog,
    slot: Option<LoggerHandler<(), ()>>,
    opened: Vec<String>,
    stdout: String,
    file: String,
    syslog: Vec<(i32, String)>,
}

fn start(
    level: LevelFilter,
    file: Option<String>,
    file_level: LevelFilter,
    syslog_level: LevelFilter,
) -> Running {
    let mut connection = Syslog { initialized: false };
    let mut registered = None;
    let mut opened = Vec::new();
    let mut step: (InitState, InitAction) = init(level, file, file_level, syslog_level);
    loop {
        let event = match step.1 {
            InitAction::OpenFile(path) => {
                opened.push(path);
                InitEvent::Opened(Ok(()))
            }
            InitAction::Connect(level) => {
                if syslog::init(&connection, level) {
                    assert_eq!(syslog::opened(&mut connection, Ok(())), Ok(()));
                }
                InitEvent::Connected
            }
            InitAction::Register { logger, has_file } => {
                registered = Some((logger, has_file));
                InitEvent::Registered(Ok(()))
            }
            InitAction::Install(max_level) => {
                let (logger, has_file) = registered.unwrap();
                return Running {
                    logger,
                    has_file,
                    max_level,
                    queue: VecDeque::new(),
                    closed: false,
                    connection,
                    slot: Some(LoggerHandler { sender: (), joinhandle: () }),
                    opened,
                    stdout: String::new(),
                    file: String::new(),
                    syslog: Vec::new(),
                };
            }
            InitAction::Fail(message) => panic!("{}", message),
        };
        step = init_next(step.0, event);
    }
}

impl Running {
    fn log(&mut self, level: Level, message: &str) {
        if !level.passes(self.max_level) {
            return;
        }
        let record = Record {
            level,
            args: message.to_string(),
            path: Some("logging".to_string()),
            path_static: None,
        };
        self.queue.extend(self.logger.log(&record, self.closed));
    }

    fn log_all(&mut self, message: &str) {
        self.log(Level::Trace, message);
        self.log(Level::Debug, message);
        self.log(Level::Info, message);
        self.log(Level::Warn, message);
        self.log(Level::Error, message);
    }

    fn write(&mut self) {
        loop {
            match writer(self.has_file, self.queue.pop_front()) {
                WriterAction::Stdout(line) => self.stdout.push_str(&line),
                WriterAction::File(line) => self.file.push_str(&line),
                WriterAction::Syslog(level, text) => {
                    if let Some(entry) = syslog::log(&self.connection, level, text) {
                        self.syslog.push((entry.priority, entry.format));
                    }
                }
                WriterAction::CloseChannel => self.closed = true,
                WriterAction::Skip => (),
                WriterAction::Stop => return,
            }
        }
    }

    fn end(&mut self) {
        let Some(handler) = end(&mut self.slot) else { return };
        let mut step = handler.end();
        loop {
            let outcome = match step {
                EndStep::SendClose if self.closed => Err("SendError".to_string()),
                EndStep::SendClose => {
                    self.queue.push_back(LogMsg::Close);
                    Ok(())
                }
                EndStep::AwaitWriter => {
                    self.write();
                    Ok(())
                }
                EndStep::CloseSyslog => {
                    assert_eq!(
                        syslog::close(&self.connection),
                        syslog::is_initialized(&self.connection)
                    );
                    Ok(())
                }
            };
            step = match end_next(step, outcome) {
                EndNext::Step(next) => next,
                EndNext::Done => return,
                EndNext::Fail(message) => panic!("{}", message),
            };
        }
    }
}

#[test]
fn logging1() {
    let mut running = start(
        LevelFilter::Trace,
        Some("logging1.log".to_string()),
        LevelFilter::Trace,
        LevelFilter::Trace,
    );
    running.log_all("logging1");
    running.end();
    running.log(Level::Info, "test!");
    running.write();

    let lines: Vec<&str> = running.file.lines().collect();
    assert_eq!(lines.len(), 5);
    assert!(lines[0].starts_with("[TRACE]") && lines[0].ends_with("logging1"));
    assert!(lines[1].starts_with("[DEBUG]") && lines[0].ends_with("logging1"));
    assert!(lines[2].starts_with("[INFO]") && lines[0].ends_with("logging1"));
    assert!(lines[3].starts_with("[WARN]") && lines[0].ends_with("logging1"));
    assert!(lines[4].starts_with("[ERROR]") && lines[0].ends_with("logging1"));
    assert_eq!(running.stdout.lines().count(), 5);
    let priorities: Vec<i32> = running.syslog.iter().map(|(priority, _)| *priority).collect();
    assert_eq!(priorities, vec![7, 7, 6, 4, 3]);
}

#[test]
fn logging2() {
    let mut running = start(
        LevelFilter::Off,
        Some("logging2.log".to_string()),
        LevelFilter::Trace,
        LevelFilter::Off,
    );
    running.log_all("logging2");
    running.end();
    running.log(Level::Info, "test");
    running.write();

    let lines: Vec<&str> = running.file.lines().collect();
    assert_eq!(lines.len(), 5);
    assert!(lines[0].starts_with("[TRACE]") && lines[0].ends_with("logging2"));
    assert!(lines[1].starts_with("[DEBUG]") && lines[0].ends_with("logging2"));
    assert!(lines[2].starts_with("[INFO]") && lines[0].ends_with("logging2"));
    assert!(lines[3].starts_with("[WARN]") && lines[0].ends_with("logging2"));
    assert!(lines[4].starts_with("[ERROR]") && lines[0].ends_with("logging2"));
    assert_eq!(running.stdout, "");
    assert!(running.syslog.is_empty());
    assert!(!running.connection.initialized);
}

#[test]
fn level1() {
    let mut running = start(
        LevelFilter::Info,
        Some("level1.log".to_string()),
        LevelFilter::Warn,
        LevelFilter::Debug,
    );
    running.log_all("level1");
    running.end();

    let lines: Vec<&str> = running.file.lines().collect();
    assert_eq!(lines.len(), 2);
    assert!(lines[0].starts_with("[WARN]") && lines[0].ends_with("level1"));
    assert!(lines[1].starts_with("[ERROR]") && lines[0].ends_with("level1"));
    assert_eq!(running.stdout.lines().count(), 3);
    assert_eq!(running.syslog.len(), 4);
    assert_eq!(running.max_level, LevelFilter::Debug);
}

#[test]
fn level2() {
    let mut running = start(
        LevelFilter::Info,
        Some("level2.log".to_string()),
        LevelFilter::Off,
        LevelFilter::Warn,
    );
    running.log_all("level2");
    running.end();

    assert_eq!(running.file.len(), 0);
    assert!(running.opened.is_empty());
    assert_eq!(running.stdout.lines().count(), 3);
    assert_eq!(running.syslog.len(), 2);
}

#[test]
fn level3() {
    let mut running = start(LevelFilter::Info, None, LevelFilter::Info, LevelFilter::Info);
    running.log_all("level3");
    running.end();

    assert_eq!(running.file.len(), 0);
    assert_eq!(running.logger.file_level, LevelFilter::Off);
    assert_eq!(running.stdout.lines().count(), 3);
    assert_eq!(running.syslog.len(), 3);
}

#[test]
fn messages_sent_after_the_close_request_are_still_written() {
    let mut running = start(
        LevelFilter::Off,
        Some("late.log".to_string()),
        LevelFilter::Info,
        LevelFilter::Off,
    );
    running.log(Level::Info, "early");
    running.queue.push_back(LogMsg::Close);
    running.log(Level::Info, "late");
    running.write();
    let lines: Vec<&str> = running.file.lines().collect();
    assert_eq!(lines.len(), 2);
    assert!(lines[0].ends_with("early"));
    assert!(lines[1].ends_with("late"));
    running.log(Level::Info, "too late");
    assert!(running.queue.is_empty());
}

#[test]
fn a_logger_is_ended_once() {
    let mut running = start(LevelFilter::Info, None, LevelFilter::Off, LevelFilter::Off);
    running.end();
    assert!(running.slot.is_none());
    assert!(running.closed);
    running.end();
    assert!(running.slot.is_none());
    assert!(running.queue.is_empty());
}

#[test]
fn a_second_request_to_close_changes_nothing() {
    let mut outputs = Vec::new();
    for requests in [1, 2] {
        let mut running = start(
            LevelFilter::Off,
            Some("twice.log".to_string()),
            LevelFilter::Info,
            LevelFilter::Info,
        );
        running.log(Level::Info, "one");
        for _ in 0..requests {
            running.queue.push_back(LogMsg::Close);
        }
        running.log(Level::Warn, "two");
        running.write();
        assert!(running.closed);
        assert!(running.queue.is_empty());
        running.log(Level::Error, "three");
        assert!(running.queue.is_empty());
        outputs.push((running.file.lines().count(), running.syslog));
    }
    assert_eq!(outputs[0].0, 2);
    assert_eq!(outputs[0], outputs[1]);
}

#[test]
fn a_failed_write_ends_the_writing_task() {
    let mut running = start(
        LevelFilter::Off,
        Some("full.log".to_string()),
        LevelFilter::Info,
        LevelFilter::Off,
    );
    running.log(Level::Info, "one");
    running.log(Level::Info, "two");
    running.log(Level::Info, "three");
    let mut failure = None;
    while failure.is_none() {
        let WriterAction::File(line) = writer(running.has_file, running.queue.pop_front()) else {
            panic!("only lines for the file were sent");
        };
        let mut step = write_log();
        loop {
            let outcome = match step {
                WriteStep::Write if line.ends_with("two\n") => Err("disk full".to_string()),
                WriteStep::Write => {
                    running.file.push_str(&line);
                    Ok(())
                }
                WriteStep::Flush => Ok(()),
            };
            match write_next(step, outcome) {
                WriteNext::Step(next) => step = next,
                WriteNext::Done => break,
                WriteNext::Fail(message) => {
                    failure = Some(message);
                    running.closed = true;
                    break;
                }
            }
        }
    }
    assert_eq!(failure, Some("Failed to write log: disk full".to_string()));
    assert_eq!(running.file.lines().count(), 1);
    assert!(running.file.ends_with("one\n"));
    running.queue.clear();
    running.log(Level::Error, "four");
    assert!(running.queue.is_empty());
}
