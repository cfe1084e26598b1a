use rust_pin_service::pincode::ingest::{assemble_upload, LineAssembler};
use rust_pin_service::vault::{Code, PinCodeChunk};

fn chunks(parts: &[&[u8]]) -> Vec<PinCodeChunk> {
    parts
        .iter()
        .map(|p| PinCodeChunk { file_name: "codes.txt".to_string(), content: p.to_vec() })
        .collect()
}

fn lines(parts: &[&[u8]]) -> (Vec<String>, bool) {
    let (lines, failure) = assemble_upload(&chunks(parts));
    if let Some(status) = &failure {
        assert_eq!(status.code, Code::InvalidArgument);
        assert_eq!(status.message, "Chunk is not valid UTF-8");
    }
    (lines, failure.is_none())
}

#[test]
fn line_split_across_two_chunks_is_one_line() {
    assert_eq!(lines(&[b"123", b"456\n"]), (vec!["123456".to_string()], true));
}

#[test]
fn chunking_does_not_change_the_lines() {
    let text = b"alpha\nbeta  \n\ngamma\r\ndelta";
    let expected: Vec<String> =
        vec!["alpha", "beta", "", "gamma", "delta"].into_iter().map(String::from).collect();
    assert_eq!(lines(&[text]), (expected.clone(), true));
    for cut in 0..=text.len() {
        assert_eq!(lines(&[&text[..cut], &text[cut..]]), (expected.clone(), true), "cut {}", cut);
    }
    let single: Vec<&[u8]> = text.chunks(1).collect();
    assert_eq!(lines(&single), (expected, true));
}

#[test]
fn trailing_line_without_newline_is_processed() {
    assert_eq!(lines(&[b"one\ntwo"]), (vec!["one".to_string(), "two".to_string()], true));
    assert_eq!(lines(&[b"only"]), (vec!["only".to_string()], true));
    assert_eq!(lines(&[b"one\n", b"tw", b"o"]), (vec!["one".to_string(), "two".to_string()], true));
}

#[test]
fn text_that_ends_in_a_newline_has_no_trailing_line() {
    assert_eq!(lines(&[b"one\n"]), (vec!["one".to_string()], true));
    assert_eq!(lines(&[b"\n"]), (vec![String::new()], true));
    assert_eq!(lines(&[]), (vec![], true));
    assert_eq!(lines(&[b"", b""]), (vec![], true));
}

#[test]
fn trailing_whitespace_is_trimmed_and_leading_kept() {
    assert_eq!(lines(&[b"  a b \t\r\n"]), (vec!["  a b".to_string()], true));
    assert_eq!(lines(&["x\u{3000}\u{a0}\n".as_bytes()]), (vec!["x".to_string()], true));
    assert_eq!(lines(&[b"   "]), (vec![String::new()], true));
}

#[test]
fn chunk_that_is_not_utf8_stops_the_upload() {
    assert_eq!(lines(&[b"\xff"]), (vec![], false));
    assert_eq!(lines(&[b"one\ntw", b"\xff\n", b"three\n"]), (vec!["one".to_string()], false));
}

#[test]
fn chunk_cut_inside_a_character_is_not_utf8() {
    let text = "é\n".as_bytes();
    assert_eq!(lines(&[text]), (vec!["é".to_string()], true));
    assert_eq!(lines(&[&text[..1], &text[1..]]), (vec![], false));
}

#[test]
fn assembler_holds_the_open_line() {
    let mut assembler = LineAssembler::new();
    assert_eq!(assembler.push_text("12"), Vec::<String>::new());
    assert_eq!(assembler.push_text("3 \n45\n6"), vec!["123".to_string(), "45".to_string()]);
    assert_eq!(assembler.push_text(""), Vec::<String>::new());
    assert_eq!(assembler.finish(), Some("6".to_string()));
    assert_eq!(LineAssembler::new().finish(), None);
    let mut assembler = LineAssembler::new();
    assert_eq!(assembler.push_text("done\n"), vec!["done".to_string()]);
    assert_eq!(assembler.finish(), None);
}

#[test]
fn assembler_refuses_a_chunk_that_is_not_utf8_and_stays_as_it_was() {
    let mut assembler = LineAssembler::new();
    assert_eq!(assembler.push_chunk(b"12".to_vec()).unwrap(), Vec::<String>::new());
    let status = assembler.push_chunk(vec![0x80]).unwrap_err();
    assert_eq!(status.code, Code::InvalidArgument);
    assert_eq!(status.message, "Chunk is not valid UTF-8");
    assert_eq!(assembler.push_chunk(b"3\n4".to_vec()).unwrap(), vec!["123".to_string()]);
    assert_eq!(assembler.finish(), Some("4".to_string()));
}
