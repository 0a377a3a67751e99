//! The command line: option letters, the file and the range.

use crate::text::chars_of;
use vstd::prelude::*;

verus! {

/// What is known of the command line while its arguments are gone through.
pub struct ArgsView {
    /// `h` was given: show the help text.
    pub help: bool,
    /// Lines begin with their number, unless `n` was given.
    pub line_numbers: bool,
    /// Lines end with the text column, unless `c` was given.
    pub ascii: bool,
    /// `i` was given: the continuous dump.
    pub inline: bool,
    /// Whether an argument that begins with `-` still counts as options. It
    /// does until the file was named.
    pub options_open: bool,
    /// The file.
    pub file_path: Seq<char>,
    /// The range.
    pub range: Seq<char>,
}

impl ArgsView {
    /// The state before any argument: no option given, and the file and the
    /// range as the caller left them.
    pub open spec fn initial(file_path: Seq<char>, range: Seq<char>) -> ArgsView {
        ArgsView {
            help: false,
            line_numbers: true,
            ascii: true,
            inline: false,
            options_open: true,
            file_path,
            range,
        }
    }

    /// Whether `arg` is taken as a group of option letters.
    pub open spec fn takes_as_options(self, arg: Seq<char>) -> bool {
        self.options_open && arg.len() > 0 && arg[0] == '-'
    }

    /// The state after one more argument. A group of options sets the flag of
    /// each letter it holds. Any other argument names the file while none is
    /// named, and the range after that; the last range given stands.
    pub open spec fn step(self, arg: Seq<char>) -> ArgsView {
        if self.takes_as_options(arg) {
            ArgsView {
                help: self.help || arg.contains('h'),
                line_numbers: self.line_numbers && !arg.contains('n'),
                ascii: self.ascii && !arg.contains('c'),
                inline: self.inline || arg.contains('i'),
                options_open: self.options_open,
                file_path: self.file_path,
                range: self.range,
            }
        } else if self.file_path.len() == 0 {
            ArgsView {
                help: self.help,
                line_numbers: self.line_numbers,
                ascii: self.ascii,
                inline: self.inline,
                options_open: false,
                file_path: arg,
                range: self.range,
            }
        } else {
            ArgsView {
                help: self.help,
                line_numbers: self.line_numbers,
                ascii: self.ascii,
                inline: self.inline,
                options_open: self.options_open,
                file_path: self.file_path,
                range: arg,
            }
        }
    }

    /// The state after the arguments `args`, taken from left to right.
    pub open spec fn scan(self, args: Seq<Seq<char>>) -> ArgsView
        decreases args.len(),
    {
        if args.len() == 0 {
            self
        } else {
            self.scan(args.drop_last()).step(args.last())
        }
    }
}

/// The arguments of a command line: all but the first entry, which names the
/// program.
pub open spec fn arguments(command_line: Seq<String>) -> Seq<Seq<char>> {
    if command_line.len() == 0 {
        Seq::empty()
    } else {
        Seq::new((command_line.len() - 1) as nat, |i: int| command_line[i + 1]@)
    }
}

/// Whether `c` occurs in `chars`.
fn has_char(chars: &Vec<char>, c: char) -> (found: bool)
    ensures
        found == chars@.contains(c),
{
    let mut i: usize = 0;
    while i < chars.len()
        invariant
            i <= chars.len(),
            forall|k: int| 0 <= k < i ==> chars[k] != c,
        decreases chars.len() - i,
    {
        if chars[i] == c {
            return true;
        }
        i = i + 1;
    }
    false
}

/// Goes through the command line, whose first entry names the program.
///
/// Until the file is named, an argument that begins with `-` is a group of
/// option letters: `h` asks for the help text, `n` takes the line numbers
/// away, `c` takes the text column away, `i` asks for the continuous dump.
/// The first other argument names the file, unless `file_path` came in
/// non-empty; each argument behind it is the range, whatever it begins with.
/// The result is `(help, line numbers, text column, continuous)`.
pub fn parse_args(command_line: &Vec<String>, file_path: &mut String, range: &mut String) -> (flags:
    (bool, bool, bool, bool))
    ensures
        ({
            let end = ArgsView::initial(old(file_path)@, old(range)@).scan(
                arguments(command_line@),
            );
            &&& flags == (end.help, end.line_numbers, end.ascii, end.inline)
            &&& final(file_path)@ == end.file_path
            &&& final(range)@ == end.range
        }),
{
    let mut display_help: bool = false;
    let mut display_line_numbers: bool = true;
    let mut display_ascii: bool = true;
    let mut display_inline: bool = false;
    let mut options_open: bool = true;
    let ghost start = ArgsView::initial(old(file_path)@, old(range)@);
    let ghost all = arguments(command_line@);
    let mut i: usize = 1;
    proof {
        assert(all.take(0) =~= Seq::<Seq<char>>::empty());
    }
    while i < command_line.len()
        invariant
            1 <= i,
            i <= command_line.len() || (command_line.len() == 0 && i == 1),
            all == arguments(command_line@),
            start.scan(all.take(i - 1)) == (ArgsView {
                help: display_help,
                line_numbers: display_line_numbers,
                ascii: display_ascii,
                inline: display_inline,
                options_open,
                file_path: file_path@,
                range: range@,
            }),
        decreases command_line.len() - i,
    {
        let ghost before = start.scan(all.take(i - 1));
        let chars: Vec<char> = chars_of(command_line[i].as_str());
        proof {
            assert(all.take(i as int).drop_last() =~= all.take(i - 1));
            assert(all.take(i as int).last() == chars@);
        }
        if options_open && chars.len() > 0 && chars[0] == '-' {
            if has_char(&chars, 'h') {
                display_help = true;
            }
            if has_char(&chars, 'n') {
                display_line_numbers = false;
            }
            if has_char(&chars, 'c') {
                display_ascii = false;
            }
            if has_char(&chars, 'i') {
                display_inline = true;
            }
        } else if file_path.as_str().is_empty() {
            *file_path = command_line[i].clone();
            options_open = false;
        } else {
            *range = command_line[i].clone();
        }
        i = i + 1;
    }
    proof {
        assert(all.take(i - 1) =~= all);
    }
    (display_help, display_line_numbers, display_ascii, display_inline)
}

} // verus!
