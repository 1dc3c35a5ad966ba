use tiny_logs::clock::{moment_text, Moment};
use tiny_logs::line::{join_line, paint_parts};
use tiny_logs::{create_log, create_log_colored, now, Level, LevelFilter, Record};

const LEVELS: [Level; 5] = [Level::Error, Level::Warn, Level::Info, Level::Debug, Level::Trace];

const FILTERS: [LevelFilter; 6] = [
    LevelFilter::Off,
    LevelFilter::Error,
    LevelFilter::Warn,
    LevelFilter::Info,
    LevelFilter::Debug,
    LevelFilter::Trace,
];

fn record(level: Level, path: Option<&str>, path_static: Option<&str>) -> Record {
    Record {
        level,
        args: "message".to_string(),
        path: path.map(str::to_string),
        path_static: path_static.map(str::to_string),
    }
}

fn moment(year: i32, month: u8, day: u8) -> Moment {
    Moment { year, month, day, hour: 3, minute: 4, second: 5, nanosecond: 60_000_000, offset: 0 }
}

/// What a terminal shows of a text.
fn visible(text: &str) -> String {
    let mut shown = String::new();
    let mut chars = text.chars();
    while let Some(c) = chars.next() {
        if c == '\x1b' {
            for skipped in chars.by_ref() {
                if skipped == 'm' {
                    break;
                }
            }
        } else {
            shown.push(c);
        }
    }
    shown
}

#[test]
fn filters_are_thresholds() {
    for (i, filter) in FILTERS.iter().enumerate() {
        for (j, level) in LEVELS.iter().enumerate() {
            assert_eq!(level.passes(*filter), j < i);
        }
    }
}

#[test]
fn the_more_verbose_filter_wins() {
    for (i, a) in FILTERS.iter().enumerate() {
        for (j, b) in FILTERS.iter().enumerate() {
            assert_eq!(a.max(*b), if i < j { *b } else { *a });
        }
    }
}

#[test]
fn moments_are_written_with_fixed_digits() {
    assert_eq!(moment_text(None, moment(2024, 2, 29)), "2024/02/29-03:04:05.06");
    assert_eq!(moment_text(None, moment(7, 12, 31)), "0007/12/31-03:04:05.06");
    assert_eq!(moment_text(None, moment(9999, 10, 1)), "9999/10/01-03:04:05.06");
    assert_eq!(moment_text(None, moment(0, 1, 1)), "0000/01/01-03:04:05.06");
    assert_eq!(moment_text(None, moment(-44, 3, 15)), "-0044/03/15-03:04:05.06");
}

#[test]
fn the_fraction_of_a_second_is_cut_off() {
    let last = Moment {
        year: 1999,
        month: 12,
        day: 31,
        hour: 23,
        minute: 59,
        second: 59,
        nanosecond: 999_999_999,
        offset: -93_599,
    };
    assert_eq!(moment_text(None, last), "1999/12/31-23:59:59.99");
    let first = Moment { nanosecond: 9_999_999, hour: 0, minute: 0, second: 0, offset: 93_599, ..last };
    assert_eq!(moment_text(None, first), "1999/12/31-00:00:00.00");
}

#[test]
fn local_time_comes_before_utc() {
    let local = moment(2024, 5, 6);
    let utc = moment(2024, 5, 7);
    assert_eq!(moment_text(Some(local), utc), "2024/05/06-03:04:05.06");
    assert_eq!(moment_text(None, utc), "2024/05/07-03:04:05.06");
}

#[test]
fn the_current_time_has_the_layout_of_a_moment() {
    let text = now();
    assert_eq!(text.len(), 22);
    for (i, c) in text.chars().enumerate() {
        match i {
            4 | 7 => assert_eq!(c, '/'),
            10 => assert_eq!(c, '-'),
            13 | 16 => assert_eq!(c, ':'),
            19 => assert_eq!(c, '.'),
            _ => assert!(c.is_ascii_digit()),
        }
    }
    assert!(text.as_str() > "2024");
}

#[test]
fn a_line_has_tag_time_module_and_message() {
    assert_eq!(
        create_log(&record(Level::Info, Some("net::http"), None), "up", "T"),
        "[INFO] [T] net::http - up\n"
    );
    assert_eq!(
        create_log(&record(Level::Warn, None, Some("fixed")), "up", "T"),
        "[WARN] [T] fixed - up\n"
    );
    assert_eq!(
        create_log(&record(Level::Error, Some("first"), Some("second")), "", "T"),
        "[ERROR] [T] first - \n"
    );
    assert_eq!(create_log(&record(Level::Debug, None, None), "up", ""), "[DEBUG] [] - up\n");
    assert_eq!(create_log(&record(Level::Trace, None, None), "a\nb", "T"), "[TRACE] [T] - a\nb\n");
    assert_eq!(join_line("tag", "time", Some("module"), "text"), "tag [time] module - text\n");
    assert_eq!(join_line("tag", "time", None, "text"), "tag [time] - text\n");
}

#[test]
fn parts_are_painted_in_their_styles() {
    let tags = [
        "\x1b[38;2;200;31;31m[ERROR]\x1b[39m",
        "\x1b[38;2;255;199;29m[WARN]\x1b[39m",
        "\x1b[38;2;128;182;92m[INFO]\x1b[39m",
        "\x1b[38;2;109;166;218m[DEBUG]\x1b[39m",
        "\x1b[38;2;225;237;248m[TRACE]\x1b[39m",
    ];
    for (level, tag) in LEVELS.iter().zip(tags) {
        let parts = paint_parts(&record(*level, Some("module"), None), "T");
        assert_eq!(parts.tag, tag);
        assert_eq!(parts.time, "\x1b[38;2;105;105;105mT\x1b[39m");
        assert_eq!(parts.module, Some("\x1b[1mmodule\x1b[0m".to_string()));
    }
    let parts = paint_parts(&record(Level::Info, None, None), "T");
    assert_eq!(parts.module, None);
}

/// One test for both cases, because the override holds for the whole process.
#[test]
fn a_line_is_painted_where_the_terminal_shows_colors() {
    owo_colors::set_override(true);
    let info = record(Level::Info, Some("module"), None);
    let line = create_log_colored(&info, "up", "T");
    assert_eq!(
        line,
        "\x1b[38;2;128;182;92m[INFO]\x1b[39m [\x1b[38;2;105;105;105mT\x1b[39m] \x1b[1mmodule\x1b[0m - up\n"
    );
    assert_eq!(visible(&line), create_log(&info, "up", "T"));

    owo_colors::set_override(false);
    for level in LEVELS {
        let with_module = record(level, None, Some("module"));
        assert_eq!(
            create_log_colored(&with_module, "up", "T"),
            create_log(&with_module, "up", "T")
        );
        let without_module = record(level, None, None);
        assert_eq!(
            create_log_colored(&without_module, "up", "T"),
            create_log(&without_module, "up", "T")
        );
    }
}
