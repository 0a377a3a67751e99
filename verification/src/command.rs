//! What a command line asks the viewer to do.

use crate::args::{arguments, parse_args, ArgsView};
use crate::query::{offending_token, parse_range, parsed_range, RangeParseError};
use crate::range::RawRangeSpec;
use vstd::prelude::*;

verus! {

/// How the bytes are shown.
#[derive(Clone, Copy, Debug, PartialEq, Eq)]
pub enum Mode {
    /// Lines of sixteen bytes, with or without their numbers and the text
    /// column.
    Table { line_numbers: bool, ascii: bool },
    /// One run of digits. Line numbers and text column do not apply.
    Inline,
}

/// What the viewer is asked to do.
#[derive(Debug, PartialEq, Eq)]
pub enum Command {
    /// Show the help text and nothing else.
    Help,
    /// Show the bytes of `file_path` that `range` denotes.
    Dump { file_path: String, range: RawRangeSpec, mode: Mode },
}

/// The way of showing that the options ask for: `i` wins over `n` and `c`.
pub open spec fn mode_of(options: ArgsView) -> Mode {
    if options.inline {
        Mode::Inline
    } else {
        Mode::Table { line_numbers: options.line_numbers, ascii: options.ascii }
    }
}

/// Reads a command line, whose first entry names the program.
///
/// The help text is asked for by the option `h`, and by naming no file; the
/// range is then not looked at, whatever it holds. Otherwise the range must
/// denote a raw range, and the command is to dump that range of the file.
pub fn command_of(command_line: &Vec<String>) -> (result: Result<Command, RangeParseError>)
    ensures
        ({
            let options = ArgsView::initial(Seq::empty(), Seq::empty()).scan(
                arguments(command_line@),
            );
            if options.help || options.file_path.len() == 0 {
                result == Ok::<Command, RangeParseError>(Command::Help)
            } else {
                match parsed_range(options.range) {
                    Some(raw) => (result matches Ok(Command::Dump { file_path, range, mode })
                        && file_path@ == options.file_path && range == raw && mode == mode_of(
                        options,
                    )),
                    None => (result matches Err(error) && error.token@ == offending_token(
                        options.range,
                    )),
                }
            }
        }),
{
    let mut file_path: String = String::new();
    let mut range_text: String = String::new();
    let (display_help, display_line_numbers, display_ascii, display_inline) = parse_args(
        command_line,
        &mut file_path,
        &mut range_text,
    );
    if display_help || file_path.as_str().is_empty() {
        return Ok(Command::Help);
    }
    match parse_range(range_text.as_str()) {
        Ok(range) => {
            let mode: Mode = if display_inline {
                Mode::Inline
            } else {
                Mode::Table { line_numbers: display_line_numbers, ascii: display_ascii }
            };
            Ok(Command::Dump { file_path, range, mode })
        },
        Err(error) => Err(error),
    }
}

} // verus!
