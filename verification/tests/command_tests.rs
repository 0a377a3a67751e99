use reix::command::{command_of, Command, Mode};
use reix::query::RangeParseError;
use reix::range::RawRangeSpec;

fn command(arguments: &[&str]) -> Result<Command, RangeParseError> {
    let mut command_line = vec!["reix".to_string()];
    command_line.extend(arguments.iter().map(|argument| argument.to_string()));
    command_of(&command_line)
}

fn dump(file_path: &str, start: Option<i64>, end: Option<i64>, mode: Mode) -> Result<Command, RangeParseError> {
    Ok(Command::Dump {
        file_path: file_path.to_string(),
        range: RawRangeSpec { start, end },
        mode,
    })
}

const TABLE: Mode = Mode::Table { line_numbers: true, ascii: true };

#[test]
fn no_file_asks_for_help() {
    assert_eq!(command(&[]), Ok(Command::Help));
    assert_eq!(command(&["-n"]), Ok(Command::Help));
    assert_eq!(command_of(&Vec::new()), Ok(Command::Help));
}

#[test]
fn option_h_asks_for_help() {
    assert_eq!(command(&["-h"]), Ok(Command::Help));
    assert_eq!(command(&["-h", "data.bin"]), Ok(Command::Help));
    assert_eq!(command(&["-nh", "data.bin", "2:3"]), Ok(Command::Help));
}

#[test]
fn help_does_not_look_at_the_range() {
    assert_eq!(command(&["-h", "data.bin", "no range"]), Ok(Command::Help));
}

#[test]
fn file_alone_is_the_whole_file_as_a_table() {
    assert_eq!(command(&["data.bin"]), dump("data.bin", None, None, TABLE));
}

#[test]
fn command_with_file_and_range() {
    assert_eq!(command(&["data.bin", "2:"]), dump("data.bin", Some(2), None, TABLE));
    assert_eq!(command(&["data.bin", ":-2"]), dump("data.bin", None, Some(-2), TABLE));
    assert_eq!(command(&["data.bin", "5"]), dump("data.bin", Some(5), Some(6), TABLE));
    assert_eq!(command(&["data.bin", "-1"]), dump("data.bin", Some(-1), None, TABLE));
}

#[test]
fn command_with_table_options() {
    let table = |line_numbers, ascii| Mode::Table { line_numbers, ascii };
    assert_eq!(command(&["-n", "f"]), dump("f", None, None, table(false, true)));
    assert_eq!(command(&["-c", "f"]), dump("f", None, None, table(true, false)));
    assert_eq!(command(&["-cn", "f", "1:2"]), dump("f", Some(1), Some(2), table(false, false)));
}

#[test]
fn inline_wins_over_the_table_options() {
    assert_eq!(command(&["-i", "f"]), dump("f", None, None, Mode::Inline));
    assert_eq!(command(&["-inc", "f"]), dump("f", None, None, Mode::Inline));
    assert_eq!(command(&["-n", "-i", "f", "3"]), dump("f", Some(3), Some(4), Mode::Inline));
}

#[test]
fn bad_range_is_refused() {
    assert_eq!(command(&["f", "x"]), Err(RangeParseError { token: "x".to_string() }));
    assert_eq!(command(&["f", "1:y"]), Err(RangeParseError { token: "y".to_string() }));
    assert_eq!(command(&["f", "1:2", "-h"]), Err(RangeParseError { token: "-h".to_string() }));
}
