use reix::dump::{InlineDump, TableDump, FLUSH_LINES, INLINE_CHUNK};
use reix::hex::{format_inline, format_line, line_number_width};
use reix::reader::SliceReader;

fn file_of(len: usize) -> Vec<u8> {
    (0..len).map(|i| (i * 31 + 7) as u8).collect()
}

/// The table of a slice of a file held in memory, as the pieces printed.
fn table(file: &[u8], start: Option<i64>, end: Option<i64>, numbers: bool, text: bool) -> Vec<String> {
    let mut reader = SliceReader::new(file.len() as u64, start, end).unwrap();
    let mut dump = TableDump::new(reader.len(), numbers, text);
    let mut printed = Vec::new();
    while let Some(request) = reader.next_read(16) {
        let from = request.offset as usize;
        let chunk = &file[from..from + request.len];
        reader.complete_read::<()>(Ok(chunk.len())).unwrap();
        if let Some(block) = dump.push_chunk(chunk) {
            printed.push(block);
        }
    }
    printed.push(dump.finish());
    printed
}

fn inline(file: &[u8], start: Option<i64>, end: Option<i64>) -> Vec<String> {
    let mut reader = SliceReader::new(file.len() as u64, start, end).unwrap();
    let mut dump = InlineDump::new(reader.len());
    let mut printed = Vec::new();
    while let Some(request) = reader.next_read(INLINE_CHUNK) {
        let from = request.offset as usize;
        let chunk = &file[from..from + request.len];
        reader.complete_read::<()>(Ok(chunk.len())).unwrap();
        let step = dump.push_chunk(chunk);
        printed.push(step.text);
        if step.done {
            break;
        }
    }
    printed
}

#[test]
fn constants() {
    assert_eq!(FLUSH_LINES, 16);
    assert_eq!(INLINE_CHUNK, 1024);
}

#[test]
fn table_of_one_byte_file() {
    let printed = table(&[0x41], None, None, true, true);
    assert_eq!(printed, vec![format!("0x0  41 {} A\n", " ".repeat(45))]);
}

#[test]
fn table_of_nothing() {
    assert_eq!(table(&[], None, None, true, true), vec![String::new()]);
    assert_eq!(table(&file_of(10), Some(3), Some(3), true, true), vec![String::new()]);
}

#[test]
fn table_lines_are_numbered_from_zero() {
    let file = file_of(40);
    let printed = table(&file, None, None, true, true);
    let width = line_number_width(40);
    assert_eq!(width, 1);
    let expected = format_line(0, width, &file[0..16], true, true)
        + &format_line(1, width, &file[16..32], true, true)
        + &format_line(2, width, &file[32..40], true, true);
    assert_eq!(printed, vec![expected]);
}

#[test]
fn table_of_a_slice_starts_at_the_slice() {
    let file: Vec<u8> = (b'a'..=b'z').collect();
    let printed = table(&file, Some(2), Some(-2), false, true);
    assert_eq!(
        printed.concat(),
        format!(
            "63 64 65 66 67 68 69 6A 6B 6C 6D 6E 6F 70 71 72  cdefghijklmnopqr\n\
             73 74 75 76 77 78 {} stuvwx\n",
            " ".repeat(30)
        )
    );
}

#[test]
fn table_is_handed_out_every_sixteen_lines() {
    let file = file_of(16 * 40 + 5);
    let printed = table(&file, None, None, true, true);
    assert_eq!(printed.len(), 3);
    assert_eq!(printed[0].lines().count(), 16);
    assert_eq!(printed[1].lines().count(), 16);
    assert_eq!(printed[2].lines().count(), 9);
    let width = line_number_width(file.len() as u64);
    assert_eq!(width, 2);
    let mut expected = String::new();
    for (number, chunk) in file.chunks(16).enumerate() {
        expected += &format_line(number as u64, width, chunk, true, true);
    }
    assert_eq!(printed.concat(), expected);
    assert!(printed[1].starts_with("0x10  "));
    assert!(printed[2].starts_with("0x20  "));
}

#[test]
fn table_of_exactly_sixteen_lines_ends_with_an_empty_rest() {
    let file = file_of(256);
    let printed = table(&file, None, None, false, false);
    assert_eq!(printed.len(), 2);
    assert_eq!(printed[0].lines().count(), 16);
    assert_eq!(printed[1], "");
}

#[test]
fn push_chunk_holds_lines_back() {
    let mut dump = TableDump::new(1000, true, false);
    for number in 0..15u64 {
        assert_eq!(dump.lines(), number);
        assert_eq!(dump.push_chunk(&[number as u8]), None);
    }
    let block = dump.push_chunk(&[15]).unwrap();
    assert_eq!(block.lines().count(), 16);
    assert!(block.starts_with("0x00  00 "));
    assert!(block.ends_with(&format_line(15, 2, &[15], true, false)));
    assert_eq!(dump.lines(), 16);
    assert_eq!(dump.push_chunk(&[16]), None);
    assert_eq!(dump.finish(), format_line(16, 2, &[16], true, false));
}

#[test]
fn inline_of_three_byte_file() {
    assert_eq!(inline(&[0x0A, 0xFF, 0x00], None, None).concat(), "0AFF00");
}

#[test]
fn inline_of_nothing() {
    assert_eq!(inline(&[], None, None).concat(), "");
    assert_eq!(inline(&file_of(10), Some(10), None).concat(), "");
}

#[test]
fn inline_of_a_slice() {
    let file = file_of(10);
    assert_eq!(inline(&file, Some(5), Some(6)).concat(), format!("{:02X}", file[5]));
    assert_eq!(inline(&file, Some(-1), None).concat(), format!("{:02X}", file[9]));
    assert_eq!(inline(&file, Some(2), None).concat(), format_inline(&file[2..]));
    assert_eq!(inline(&file, None, Some(-2)).concat(), format_inline(&file[..8]));
}

#[test]
fn inline_comes_in_chunks() {
    let file = file_of(2500);
    let printed = inline(&file, None, None);
    assert_eq!(printed.len(), 3);
    assert_eq!(printed[0].len(), 2048);
    assert_eq!(printed[1].len(), 2048);
    assert_eq!(printed[2].len(), 2 * (2500 - 2048));
    assert_eq!(printed.concat(), format_inline(&file));
}

#[test]
fn inline_ends_with_the_chunk_that_completes_the_slice() {
    let mut dump = InlineDump::new(5);
    let step = dump.push_chunk(&[1, 2]);
    assert_eq!((step.text.as_str(), step.done), ("0102", false));
    let step = dump.push_chunk(&[3, 4, 5]);
    assert_eq!((step.text.as_str(), step.done), ("030405", true));
}

#[test]
fn inline_cuts_what_exceeds_the_slice() {
    let mut dump = InlineDump::new(3);
    let step = dump.push_chunk(&[0xaa, 0xbb]);
    assert_eq!((step.text.as_str(), step.done), ("AABB", false));
    let step = dump.push_chunk(&[0xcc, 0xdd, 0xee]);
    assert_eq!((step.text.as_str(), step.done), ("CC", true));
    let step = dump.push_chunk(&[0xff]);
    assert_eq!((step.text.as_str(), step.done), ("", true));
}

#[test]
fn inline_of_an_empty_slice_is_done_at_once() {
    let mut dump = InlineDump::new(0);
    let step = dump.push_chunk(&[]);
    assert_eq!((step.text.as_str(), step.done), ("", true));
}
