//! The lines that a log record becomes.

use vstd::prelude::*;

use crate::level::Level;
use crate::paint::{
    bold, color, dim_gray, if_supports_color, in_bold, in_color, in_dim_gray,
    law_shown_as_the_terminal_answered, law_styles_surround_the_text, lemma_bold_text_is_visible,
    lemma_colored_text_is_visible, lemma_plain_text_is_visible, lemma_terminal_was_asked,
    terminal_answered, terminal_shows, visible,
};

verus! {

/// What a log line is made from.
#[derive(Debug)]
pub struct Record {
    /// How severe the record is.
    pub level: Level,
    /// The message.
    pub args: String,
    /// The module that logs, if it is known.
    pub path: Option<String>,
    /// The module that logs, if it is known as a constant of the program.
    pub path_static: Option<String>,
}

/// The content of a [`Record`].
pub struct RecordView {
    pub level: Level,
    pub args: Seq<char>,
    pub path: Option<Seq<char>>,
    pub path_static: Option<Seq<char>>,
}

/// The text of an optional string.
pub open spec fn optional_text(text: Option<String>) -> Option<Seq<char>> {
    match text {
        Some(text) => Some(text@),
        None => None,
    }
}

impl View for Record {
    type V = RecordView;

    open spec fn view(&self) -> RecordView {
        RecordView {
            level: self.level,
            args: self.args@,
            path: optional_text(self.path),
            path_static: optional_text(self.path_static),
        }
    }
}

impl RecordView {
    /// The module that the line names.
    pub open spec fn module(self) -> Option<Seq<char>> {
        match self.path {
            Some(path) => Some(path),
            None => self.path_static,
        }
    }
}

/// The tag that opens a line.
pub open spec fn level_tag(level: Level) -> Seq<char> {
    match level {
        Level::Trace => "[TRACE]"@,
        Level::Debug => "[DEBUG]"@,
        Level::Info => "[INFO]"@,
        Level::Warn => "[WARN]"@,
        Level::Error => "[ERROR]"@,
    }
}

/// The red, green and blue of a tag on the terminal.
pub open spec fn level_color(level: Level) -> (u8, u8, u8) {
    match level {
        Level::Trace => (225, 237, 248),
        Level::Debug => (109, 166, 218),
        Level::Info => (128, 182, 92),
        Level::Warn => (255, 199, 29),
        Level::Error => (200, 31, 31),
    }
}

/// A line from its parts: `tag [time] module - message`, with a line feed at the end.
pub open spec fn line_text(
    tag: Seq<char>,
    time: Seq<char>,
    module: Option<Seq<char>>,
    args: Seq<char>,
) -> Seq<char> {
    tag + " ["@ + time + "]"@ + (match module {
        Some(path) => " "@ + path + " "@,
        None => " "@,
    }) + "- "@ + args + "\n"@
}

/// The line of a record without styles.
pub open spec fn plain_line(record: RecordView, args: Seq<char>, time: Seq<char>) -> Seq<char> {
    line_text(level_tag(record.level), time, record.module(), args)
}

/// Which parts of a line are shown painted.
pub struct Painted {
    pub tag: bool,
    pub time: bool,
    pub module: bool,
}

/// The tag in the color of its level.
pub open spec fn painted_tag(level: Level) -> Seq<char> {
    let (red, green, blue) = level_color(level);
    in_color(level_tag(level), red, green, blue)
}

/// The line of a record with the given parts painted: the tag in the color of its level, the time
/// in gray and the module in bold.
pub open spec fn painted_line(
    record: RecordView,
    args: Seq<char>,
    time: Seq<char>,
    painted: Painted,
) -> Seq<char> {
    line_text(
        if painted.tag {
            painted_tag(record.level)
        } else {
            level_tag(record.level)
        },
        if painted.time {
            in_dim_gray(time)
        } else {
            time
        },
        match record.module() {
            Some(path) => Some(
                if painted.module {
                    in_bold(path)
                } else {
                    path
                },
            ),
            None => None,
        },
        args,
    )
}

impl Record {
    /// The module that the line names: the path of the record, or else its constant path.
    pub fn module(&self) -> (module: Option<&str>)
        ensures
            module is Some == self@.module() is Some,
            module matches Some(path) ==> path@ == self@.module()->0,
    {
        match &self.path {
            Some(path) => Some(path.as_str()),
            None => match &self.path_static {
                Some(path) => Some(path.as_str()),
                None => None,
            },
        }
    }
}

impl Level {
    /// The tag that opens a line.
    pub fn tag(self) -> (tag: &'static str)
        ensures
            tag@ == level_tag(self),
    {
        match self {
            Level::Trace => "[TRACE]",
            Level::Debug => "[DEBUG]",
            Level::Info => "[INFO]",
            Level::Warn => "[WARN]",
            Level::Error => "[ERROR]",
        }
    }

    /// The red, green and blue of the tag on the terminal.
    pub fn color(self) -> (color: (u8, u8, u8))
        ensures
            color == level_color(self),
    {
        match self {
            Level::Trace => (225, 237, 248),
            Level::Debug => (109, 166, 218),
            Level::Info => (128, 182, 92),
            Level::Warn => (255, 199, 29),
            Level::Error => (200, 31, 31),
        }
    }
}

/// The parts of a line that can be painted, all of them painted.
pub struct PaintedParts {
    /// The tag in the color of its level.
    pub tag: String,
    /// The time in gray.
    pub time: String,
    /// The module in bold.
    pub module: Option<String>,
}

/// Paints the parts of a line.
pub fn paint_parts(record: &Record, now: &str) -> (parts: PaintedParts)
    ensures
        parts.tag@ == painted_tag(record.level),
        parts.time@ == in_dim_gray(now@),
        optional_text(parts.module) == (match record@.module() {
            Some(path) => Some(in_bold(path)),
            None => None,
        }),
{
    let (red, green, blue) = record.level.color();
    PaintedParts {
        tag: color(record.level.tag(), red, green, blue),
        time: dim_gray(now),
        module: match record.module() {
            Some(path) => Some(bold(path)),
            None => None,
        },
    }
}

/// Puts a line together from its parts.
pub fn join_line(tag: &str, time: &str, module: Option<&str>, args: &str) -> (line: String)
    ensures
        line@ == line_text(
            tag@,
            time@,
            match module {
                Some(path) => Some(path@),
                None => None,
            },
            args@,
        ),
{
    let mut submod = String::new();
    submod.append(" ");
    if let Some(path) = module {
        submod.append(path);
        submod.append(" ");
    }
    let mut line = String::new();
    line.append(tag);
    line.append(" [");
    line.append(time);
    line.append("]");
    line.append(submod.as_str());
    line.append("- ");
    line.append(args);
    line.append("\n");
    line
}

/// The line of a record for a file.
pub fn create_log(record: &Record, args: &str, now: &str) -> (line: String)
    ensures
        line@ == plain_line(record@, args@, now@),
{
    join_line(record.level.tag(), now, record.module(), args)
}

/// The line of a record for the terminal: painted where the standard output shows colors, and plain
/// otherwise.
pub fn create_log_colored(record: &Record, args: &str, now: &str) -> (line: String)
    ensures
        exists|painted: Painted| line@ == #[trigger] painted_line(record@, args@, now@, painted),
        terminal_shows(
            plain_line(record@, args@, now@),
            painted_line(
                record@,
                args@,
                now@,
                (Painted { tag: true, time: true, module: true }),
            ),
            line@,
        ),
        exists|colors: bool|
            {
                &&& #[trigger] terminal_answered(colors)
                &&& line@ == painted_line(
                    record@,
                    args@,
                    now@,
                    (Painted { tag: colors, time: colors, module: colors }),
                )
            },
{
    let parts = paint_parts(record, now);
    let painted = join_line(
        parts.tag.as_str(),
        parts.time.as_str(),
        match &parts.module {
            Some(path) => Some(path.as_str()),
            None => None,
        },
        args,
    );
    let plain = create_log(record, args, now);
    let painted_text = painted.as_str();
    let plain_text = plain.as_str();
    let line = if_supports_color(plain_text, painted_text);
    proof {
        let all = Painted { tag: true, time: true, module: true };
        let none = Painted { tag: false, time: false, module: false };
        assert(painted@ == painted_line(record@, args@, now@, all));
        law_unpainted_line_is_plain(record@, args@, now@);
        assert(call_ensures(if_supports_color, (plain_text, painted_text), line));
        lemma_terminal_was_asked(plain_text, painted_text, line);
        lemma_paint_changes_the_line(record@, args@, now@);
        law_shown_as_the_terminal_answered(plain@, painted@, line@);
        assert(terminal_answered(line@ == painted@));
        assert(line@ == painted_line(
            record@,
            args@,
            now@,
            if line@ == painted@ {
                all
            } else {
                none
            },
        ));
    }
    line
}

/// A line begins with the tag of its level and ends with the message and a line feed.
pub proof fn law_line_begins_with_tag_and_ends_with_message(
    record: RecordView,
    args: Seq<char>,
    time: Seq<char>,
)
    ensures
        level_tag(record.level).is_prefix_of(plain_line(record, args, time)),
        (args + "\n"@).is_suffix_of(plain_line(record, args, time)),
{
    let line = plain_line(record, args, time);
    let tag = level_tag(record.level);
    let end = args + "\n"@;
    assert(line.subrange(0, tag.len() as int) == tag);
    assert(line.subrange(line.len() - end.len(), line.len() as int) == end);
}

/// Where nothing is painted, the line of the terminal is the line of the file.
pub proof fn law_unpainted_line_is_plain(record: RecordView, args: Seq<char>, time: Seq<char>)
    ensures
        painted_line(record, args, time, Painted { tag: false, time: false, module: false })
            == plain_line(record, args, time),
{
    assert(record.module() == (match record.module() {
        Some(path) => Some(path),
        None => None,
    }));
}

/// What two texts lack, they lack in a row.
proof fn lemma_absent_in_a_row(first: Seq<char>, second: Seq<char>, c: char)
    requires
        !first.contains(c),
        !second.contains(c),
    ensures
        !(first + second).contains(c),
{
    if (first + second).contains(c) {
        let i = choose|i: int| 0 <= i < (first + second).len() && (first + second)[i] == c;
        if i < first.len() {
            assert(first[i] == c);
        } else {
            assert(second[i - first.len()] == c);
        }
    }
}

/// The part of a line from the tag to the module.
spec fn line_head(tag: Seq<char>, time: Seq<char>, module: Option<Seq<char>>) -> Seq<char> {
    tag + " ["@ + time + "]"@ + (match module {
        Some(path) => " "@ + path + " "@,
        None => " "@,
    })
}

/// A line up to its line feed.
spec fn line_body(record: RecordView, args: Seq<char>, time: Seq<char>) -> Seq<char> {
    line_head(level_tag(record.level), time, record.module()) + "- "@ + args
}

/// A control character that the parts of a line lack, the line lacks up to its line feed.
proof fn lemma_absent_from_line_body(
    record: RecordView,
    args: Seq<char>,
    time: Seq<char>,
    c: char,
)
    requires
        c == '\n' || c == '\x1b',
        !args.contains(c),
        !time.contains(c),
        record.module() matches Some(path) ==> !path.contains(c),
    ensures
        !line_body(record, args, time).contains(c),
{
    lemma_tag_is_plain(record.level);
    reveal_strlit(" [");
    reveal_strlit("]");
    reveal_strlit(" ");
    reveal_strlit("- ");
    let tag = level_tag(record.level);
    let module = match record.module() {
        Some(path) => {
            lemma_absent_in_a_row(" "@, path, c);
            lemma_absent_in_a_row(" "@ + path, " "@, c);
            " "@ + path + " "@
        },
        None => " "@,
    };
    lemma_absent_in_a_row(tag, " ["@, c);
    lemma_absent_in_a_row(tag + " ["@, time, c);
    lemma_absent_in_a_row(tag + " ["@ + time, "]"@, c);
    lemma_absent_in_a_row(tag + " ["@ + time + "]"@, module, c);
    lemma_absent_in_a_row(tag + " ["@ + time + "]"@ + module, "- "@, c);
    lemma_absent_in_a_row(tag + " ["@ + time + "]"@ + module + "- "@, args, c);
}

/// A record takes one line: if its parts hold no line feed, the only one is at the end.
pub proof fn law_one_line_per_record(record: RecordView, args: Seq<char>, time: Seq<char>)
    requires
        !args.contains('\n'),
        !time.contains('\n'),
        record.module() matches Some(path) ==> !path.contains('\n'),
    ensures
        plain_line(record, args, time).last() == '\n',
        !plain_line(record, args, time).drop_last().contains('\n'),
{
    reveal_strlit("\n");
    lemma_absent_from_line_body(record, args, time, '\n');
    assert(plain_line(record, args, time) == line_body(record, args, time).push('\n'));
    assert(plain_line(record, args, time).drop_last() == line_body(record, args, time));
}

/// A tag holds no control character.
proof fn lemma_tag_is_plain(level: Level)
    ensures
        !level_tag(level).contains('\n'),
        !level_tag(level).contains('\x1b'),
{
    reveal_strlit("[TRACE]");
    reveal_strlit("[DEBUG]");
    reveal_strlit("[INFO]");
    reveal_strlit("[WARN]");
    reveal_strlit("[ERROR]");
}

/// The terminal shows the plain text for the painted one, whatever comes after it.
#[verifier::opaque]
spec fn shown_as(painted: Seq<char>, plain: Seq<char>) -> bool {
    forall|rest: Seq<char>| #[trigger] visible(painted + rest) == plain + visible(rest)
}

/// The terminal shows a text without an escape as it is.
proof fn lemma_plain_shown(plain: Seq<char>)
    requires
        !plain.contains('\x1b'),
    ensures
        shown_as(plain, plain),
{
    reveal(shown_as);
    assert forall|rest: Seq<char>| #[trigger] visible(plain + rest) == plain + visible(rest) by {
        lemma_plain_text_is_visible(plain, rest);
    }
}

/// The terminal shows a colored text as its characters.
proof fn lemma_color_shown(plain: Seq<char>, red: u8, green: u8, blue: u8)
    requires
        !plain.contains('\x1b'),
    ensures
        shown_as(in_color(plain, red, green, blue), plain),
{
    reveal(shown_as);
    assert forall|rest: Seq<char>| #[trigger]
        visible(in_color(plain, red, green, blue) + rest) == plain + visible(rest) by {
        lemma_colored_text_is_visible(plain, red, green, blue, rest);
    }
}

/// The terminal shows a bold text as its characters.
proof fn lemma_bold_shown(plain: Seq<char>)
    requires
        !plain.contains('\x1b'),
    ensures
        shown_as(in_bold(plain), plain),
{
    reveal(shown_as);
    assert forall|rest: Seq<char>| #[trigger] visible(in_bold(plain) + rest) == plain + visible(
        rest,
    ) by {
        lemma_bold_text_is_visible(plain, rest);
    }
}

/// The terminal shows texts in a row one after the other.
proof fn lemma_shown_in_a_row(
    first: Seq<char>,
    first_plain: Seq<char>,
    second: Seq<char>,
    second_plain: Seq<char>,
)
    requires
        shown_as(first, first_plain),
        shown_as(second, second_plain),
    ensures
        shown_as(first + second, first_plain + second_plain),
{
    reveal(shown_as);
    assert forall|rest: Seq<char>| #[trigger] visible(first + second + rest) == first_plain
        + second_plain + visible(rest) by {
        assert(first + second + rest == first + (second + rest));
        assert(visible(second + rest) == second_plain + visible(rest));
        assert(first_plain + (second_plain + visible(rest)) == first_plain + second_plain + visible(
            rest,
        ));
    }
}

/// A line is the part from the tag to the module and then the message.
proof fn lemma_line_in_two_parts(
    tag: Seq<char>,
    time: Seq<char>,
    module: Option<Seq<char>>,
    args: Seq<char>,
)
    ensures
        line_text(tag, time, module, args) == line_head(tag, time, module) + ("- "@ + args + "\n"@),
{
}

/// The terminal shows the part of a line from the tag to the module as its parts.
proof fn lemma_line_head_shown(
    tag: Seq<char>,
    tag_plain: Seq<char>,
    time: Seq<char>,
    time_plain: Seq<char>,
    module: Option<Seq<char>>,
    module_plain: Option<Seq<char>>,
)
    requires
        shown_as(tag, tag_plain),
        shown_as(time, time_plain),
        module is Some == module_plain is Some,
        module is Some ==> shown_as(module->0, module_plain->0),
    ensures
        shown_as(
            line_head(tag, time, module),
            line_head(tag_plain, time_plain, module_plain),
        ),
{
    reveal_strlit(" [");
    reveal_strlit("]");
    reveal_strlit(" ");
    lemma_plain_shown(" ["@);
    lemma_plain_shown("]"@);
    lemma_plain_shown(" "@);
    lemma_shown_in_a_row(tag, tag_plain, " ["@, " ["@);
    lemma_shown_in_a_row(tag + " ["@, tag_plain + " ["@, time, time_plain);
    let (front, front_plain) = (tag + " ["@ + time, tag_plain + " ["@ + time_plain);
    lemma_shown_in_a_row(front, front_plain, "]"@, "]"@);
    match (module, module_plain) {
        (Some(path), Some(path_plain)) => {
            lemma_shown_in_a_row(" "@, " "@, path, path_plain);
            lemma_shown_in_a_row(" "@ + path, " "@ + path_plain, " "@, " "@);
            lemma_shown_in_a_row(
                front + "]"@,
                front_plain + "]"@,
                " "@ + path + " "@,
                " "@ + path_plain + " "@,
            );
        },
        _ => {
            lemma_shown_in_a_row(front + "]"@, front_plain + "]"@, " "@, " "@);
        },
    }
}

/// Paint changes nothing of what can be read: where the time and the module hold no escape, the
/// terminal shows the same characters for a painted line as for the line of the file. If the
/// message holds none either, they are the line of the file.
pub proof fn law_paint_leaves_text(
    record: RecordView,
    args: Seq<char>,
    time: Seq<char>,
    painted: Painted,
)
    requires
        !time.contains('\x1b'),
        record.module() matches Some(path) ==> !path.contains('\x1b'),
    ensures
        visible(painted_line(record, args, time, painted)) == visible(
            plain_line(record, args, time),
        ),
        !args.contains('\x1b') ==> visible(painted_line(record, args, time, painted))
            == plain_line(record, args, time),
{
    let (red, green, blue) = level_color(record.level);
    let tag = level_tag(record.level);
    let module = record.module();
    lemma_tag_is_plain(record.level);
    lemma_plain_shown(tag);
    lemma_color_shown(tag, red, green, blue);
    lemma_plain_shown(time);
    lemma_color_shown(time, 105, 105, 105);
    if let Some(path) = module {
        lemma_plain_shown(path);
        lemma_bold_shown(path);
    }
    let shown_tag = if painted.tag {
        painted_tag(record.level)
    } else {
        tag
    };
    let shown_time = if painted.time {
        in_dim_gray(time)
    } else {
        time
    };
    let shown_module = match module {
        Some(path) => Some(
            if painted.module {
                in_bold(path)
            } else {
                path
            },
        ),
        None => None,
    };
    let head = line_head(tag, time, module);
    let shown_head = line_head(shown_tag, shown_time, shown_module);
    lemma_line_head_shown(shown_tag, tag, shown_time, time, shown_module, module);
    lemma_line_head_shown(tag, tag, time, time, module, module);
    let end = "- "@ + args + "\n"@;
    lemma_line_in_two_parts(shown_tag, shown_time, shown_module, args);
    lemma_line_in_two_parts(tag, time, module, args);
    assert(visible(shown_head + end) == visible(head + end)) by {
        reveal(shown_as);
    }
    if !args.contains('\x1b') {
        lemma_plain_line_is_visible(record, args, time);
    }
}

/// A line without an escape is shown as it is.
proof fn lemma_plain_line_is_visible(record: RecordView, args: Seq<char>, time: Seq<char>)
    requires
        !args.contains('\x1b'),
        !time.contains('\x1b'),
        record.module() matches Some(path) ==> !path.contains('\x1b'),
    ensures
        visible(plain_line(record, args, time)) == plain_line(record, args, time),
{
    let line = plain_line(record, args, time);
    reveal_strlit("\n");
    lemma_absent_from_line_body(record, args, time, '\x1b');
    lemma_absent_in_a_row(line_body(record, args, time), "\n"@, '\x1b');
    lemma_plain_text_is_visible(line, seq![]);
    assert(line + seq![] == line);
    assert(line + visible(seq![]) == line);
}

/// The content of a record is what its fields hold.
pub proof fn law_record_content(record: Record)
    ensures
        record@.level == record.level,
        record@.args == record.args@,
        record@.path is Some == record.path is Some,
        record.path matches Some(path) ==> record@.path == Some(path@),
        record@.path_static is Some == record.path_static is Some,
        record.path_static matches Some(path) ==> record@.path_static == Some(path@),
{
}

/// A record names its path if it has one, whatever its level and its constant path are; else its
/// constant path if it has one; and no module only if it has neither.
pub proof fn law_module_named(record: RecordView)
    ensures
        forall|path: Seq<char>|
            record.path == Some(path) ==> #[trigger] record.module() == Some(path),
        record.path is Some ==> record.module() == record.path,
        record.path is None && record.path_static is Some ==> record.module()
            == record.path_static,
        record.module() is None <==> record.path is None && record.path_static is None,
{
}

/// Every part of a line can be read off at its place: the tag, then the time in brackets, then the
/// module between spaces or a single space, then a dash, a space, the message and a line feed.
/// There is nothing else in it.
pub proof fn law_line_places(
    tag: Seq<char>,
    time: Seq<char>,
    module: Option<Seq<char>>,
    args: Seq<char>,
)
    ensures
        ({
            let line = line_text(tag, time, module, args);
            let bracket = tag.len() as int;
            let after_time = bracket + 2 + time.len() + 1;
            let dash = after_time + (match module {
                Some(path) => path.len() + 2,
                None => 1,
            });
            &&& line.len() == dash + 2 + args.len() + 1
            &&& line.subrange(0, bracket) == tag
            &&& line[bracket] == ' ' && line[bracket + 1] == '['
            &&& line.subrange(bracket + 2, after_time - 1) == time
            &&& line[after_time - 1] == ']'
            &&& line[after_time] == ' '
            &&& module matches Some(path) ==> line.subrange(after_time + 1, dash - 1) == path
            &&& line[dash - 1] == ' '
            &&& line[dash] == '-' && line[dash + 1] == ' '
            &&& line.subrange(dash + 2, line.len() - 1) == args
            &&& line[line.len() - 1] == '\n'
        }),
{
    reveal_strlit(" [");
    reveal_strlit("]");
    reveal_strlit(" ");
    reveal_strlit("- ");
    reveal_strlit("\n");
    let line = line_text(tag, time, module, args);
    let bracket = tag.len() as int;
    let after_time = bracket + 2 + time.len() + 1;
    assert(line.subrange(0, bracket) =~= tag);
    assert(line.subrange(bracket + 2, after_time - 1) =~= time);
    match module {
        Some(path) => {
            let dash = after_time + path.len() + 2;
            assert(line.subrange(after_time + 1, dash - 1) =~= path);
            assert(line.subrange(dash + 2, line.len() - 1) =~= args);
        },
        None => {
            assert(line.subrange(after_time + 3, line.len() - 1) =~= args);
        },
    }
}

/// The plain line of a record begins with the tag of its level in capitals, and the time that was
/// given follows in brackets, whatever the record is. Between the time and the message stands the
/// path of the record, or else its constant path, in spaces, or only a space if it has neither;
/// then a dash and a space. The message and a line feed end the line.
pub proof fn law_plain_line_places(record: Record, args: Seq<char>, time: Seq<char>)
    ensures
        ({
            let line = plain_line(record@, args, time);
            let tag = match record.level {
                Level::Error => "[ERROR]"@,
                Level::Warn => "[WARN]"@,
                Level::Info => "[INFO]"@,
                Level::Debug => "[DEBUG]"@,
                Level::Trace => "[TRACE]"@,
            };
            let bracket = tag.len() as int;
            let after_time = bracket + 2 + time.len() + 1;
            let dash = after_time + (if record.path is Some {
                record.path->0@.len() + 2
            } else if record.path_static is Some {
                record.path_static->0@.len() + 2
            } else {
                1
            });
            &&& line.len() == dash + 2 + args.len() + 1
            &&& line.subrange(0, bracket) == tag
            &&& line.subrange(bracket, after_time) == " ["@ + time + "]"@
            &&& line[after_time] == ' ' && line[dash - 1] == ' '
            &&& record.path is Some ==> line.subrange(after_time + 1, dash - 1) == record.path->0@
            &&& record.path is None && record.path_static is Some ==> line.subrange(
                after_time + 1,
                dash - 1,
            ) == record.path_static->0@
            &&& line[dash] == '-' && line[dash + 1] == ' '
            &&& line.subrange(dash + 2, line.len() - 1) == args
            &&& line[line.len() - 1] == '\n'
        }),
{
    law_record_content(record);
    law_module_named(record@);
    law_line_places(level_tag(record.level), time, record@.module(), args);
    reveal_strlit(" [");
    reveal_strlit("]");
    let line = plain_line(record@, args, time);
    let bracket = level_tag(record.level).len() as int;
    let inner = line.subrange(bracket + 2, bracket + 2 + time.len());
    let outer = line.subrange(bracket, bracket + 2 + time.len() + 1);
    assert(inner == time);
    assert forall|i: int| 0 <= i < time.len() implies outer[i + 2] == time[i] by {
        assert(inner[i] == line[bracket + 2 + i]);
    }
    assert(outer =~= " ["@ + time + "]"@);
}

/// Two lines of a record with times of the same length are the same only if they carry the same
/// time and the same message.
pub proof fn law_lines_tell_apart(
    record: RecordView,
    args: Seq<char>,
    time: Seq<char>,
    other_args: Seq<char>,
    other_time: Seq<char>,
)
    requires
        plain_line(record, args, time) == plain_line(record, other_args, other_time),
        time.len() == other_time.len(),
    ensures
        args == other_args,
        time == other_time,
{
    law_line_places(level_tag(record.level), time, record.module(), args);
    law_line_places(level_tag(record.level), other_time, record.module(), other_args);
}

/// Where the terminal shows colors the whole line is painted, whatever the level of the record is:
/// the tag in the color of its level, the time in gray and the module, if there is one, in bold.
/// The rest of the line, and the message, are as in the plain line.
pub proof fn law_painted_line(record: Record, args: Seq<char>, time: Seq<char>)
    ensures
        ({
            let line = painted_line(
                record@,
                args,
                time,
                (Painted { tag: true, time: true, module: true }),
            );
            let tag = match record.level {
                Level::Error => "\x1b[38;2;200;31;31m[ERROR]\x1b[39m"@,
                Level::Warn => "\x1b[38;2;255;199;29m[WARN]\x1b[39m"@,
                Level::Info => "\x1b[38;2;128;182;92m[INFO]\x1b[39m"@,
                Level::Debug => "\x1b[38;2;109;166;218m[DEBUG]\x1b[39m"@,
                Level::Trace => "\x1b[38;2;225;237;248m[TRACE]\x1b[39m"@,
            };
            let gray = "\x1b[38;2;105;105;105m"@ + time + "\x1b[39m"@;
            let module = if record.path is Some {
                " \x1b[1m"@ + record.path->0@ + "\x1b[0m "@
            } else if record.path_static is Some {
                " \x1b[1m"@ + record.path_static->0@ + "\x1b[0m "@
            } else {
                " "@
            };
            line == tag + " ["@ + gray + "]"@ + module + "- "@ + args + "\n"@
        }),
{
    law_record_content(record);
    law_module_named(record@);
    lemma_painted_tag(record.level);
    law_styles_surround_the_text(time, 105, 105, 105);
    if let Some(path) = record@.module() {
        law_styles_surround_the_text(path, 0, 0, 0);
        reveal_strlit(" \x1b[1m");
        reveal_strlit("\x1b[0m ");
        reveal_strlit(" ");
        assert(" "@ + in_bold(path) + " "@ =~= " \x1b[1m"@ + path + "\x1b[0m "@);
    }
}

/// A line with its tag painted begins otherwise than one with its tag plain.
proof fn lemma_paint_changes_the_line(record: RecordView, args: Seq<char>, time: Seq<char>)
    ensures
        plain_line(record, args, time) != painted_line(
            record,
            args,
            time,
            (Painted { tag: true, time: true, module: true }),
        ),
{
    let painted = painted_line(
        record,
        args,
        time,
        (Painted { tag: true, time: true, module: true }),
    );
    let (red, green, blue) = level_color(record.level);
    law_styles_surround_the_text(level_tag(record.level), red, green, blue);
    assert(painted[0] == '\x1b');
    reveal_strlit("[ERROR]");
    reveal_strlit("[WARN]");
    reveal_strlit("[INFO]");
    reveal_strlit("[DEBUG]");
    reveal_strlit("[TRACE]");
    assert(plain_line(record, args, time)[0] == '[');
}

/// The tags as a terminal with colors gets them.
proof fn lemma_painted_tag(level: Level)
    ensures
        painted_tag(level) == (match level {
            Level::Error => "\x1b[38;2;200;31;31m[ERROR]\x1b[39m"@,
            Level::Warn => "\x1b[38;2;255;199;29m[WARN]\x1b[39m"@,
            Level::Info => "\x1b[38;2;128;182;92m[INFO]\x1b[39m"@,
            Level::Debug => "\x1b[38;2;109;166;218m[DEBUG]\x1b[39m"@,
            Level::Trace => "\x1b[38;2;225;237;248m[TRACE]\x1b[39m"@,
        }),
{
    let (red, green, blue) = level_color(level);
    law_styles_surround_the_text(level_tag(level), red, green, blue);
    match level {
        Level::Error => {
            reveal_strlit("[ERROR]");
            reveal_strlit("\x1b[38;2;200;31;31m[ERROR]\x1b[39m");
            assert(painted_tag(level) =~= "\x1b[38;2;200;31;31m[ERROR]\x1b[39m"@);
        },
        Level::Warn => {
            reveal_strlit("[WARN]");
            reveal_strlit("\x1b[38;2;255;199;29m[WARN]\x1b[39m");
            assert(painted_tag(level) =~= "\x1b[38;2;255;199;29m[WARN]\x1b[39m"@);
        },
        Level::Info => {
            reveal_strlit("[INFO]");
            reveal_strlit("\x1b[38;2;128;182;92m[INFO]\x1b[39m");
            assert(painted_tag(level) =~= "\x1b[38;2;128;182;92m[INFO]\x1b[39m"@);
        },
        Level::Debug => {
            reveal_strlit("[DEBUG]");
            reveal_strlit("\x1b[38;2;109;166;218m[DEBUG]\x1b[39m");
            assert(painted_tag(level) =~= "\x1b[38;2;109;166;218m[DEBUG]\x1b[39m"@);
        },
        Level::Trace => {
            reveal_strlit("[TRACE]");
            reveal_strlit("\x1b[38;2;225;237;248m[TRACE]\x1b[39m");
            assert(painted_tag(level) =~= "\x1b[38;2;225;237;248m[TRACE]\x1b[39m"@);
        },
    }
}

} // verus!
