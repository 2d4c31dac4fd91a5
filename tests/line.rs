use natty::line::{find_terminator, prompt_bytes, Action, FillError, LineError, LineRead};
use natty::settings::BufferSettings;

fn settings(eol: u8, eof: u8) -> BufferSettings {
    BufferSettings { eol1: eol, eol2: eol, eof, intr: 3, susp: 26, quit: 28 }
}

/// Reads one line from `src[*pos..]`, offering at most `window` bytes per fill.
fn read_one(
    src: &[u8],
    pos: &mut usize,
    window: usize,
    buf: &mut Vec<u8>,
    set: BufferSettings,
) -> Result<usize, LineError> {
    let read = LineRead::begin(buf, set);
    loop {
        let end = std::cmp::min(src.len(), *pos + window);
        match read.on_fill(buf, Ok(&src[*pos..end])) {
            Action::Consume { used, done } => {
                *pos += used;
                if done {
                    break;
                }
            }
            other => panic!("unexpected action {:?}", other),
        }
    }
    read.finish(buf)
}

#[test]
fn two_lines_in_turn() {
    let src = b"hello\n world\n";
    let set = settings(b'\n', 4);
    let mut pos = 0;
    let mut buf = Vec::new();
    assert_eq!(read_one(src, &mut pos, 64, &mut buf, set), Ok(6));
    assert_eq!(buf, b"hello\n".to_vec());
    buf.clear();
    assert_eq!(read_one(src, &mut pos, 64, &mut buf, set), Ok(7));
    assert_eq!(buf, b" world\n".to_vec());
    assert_eq!(pos, src.len());
}

#[test]
fn eof_byte_is_consumed_not_delivered() {
    let src = b"abc\x04rest";
    let set = settings(b'\n', 0x04);
    let mut pos = 0;
    let mut buf = Vec::new();
    assert_eq!(read_one(src, &mut pos, 64, &mut buf, set), Ok(3));
    assert_eq!(buf, b"abc".to_vec());
    assert_eq!(&src[pos..], b"rest");
}

#[test]
fn newline_line_consumes_exactly_through_newline() {
    let src = b"abcd\nxyz";
    let set = settings(b'\n', 4);
    let mut pos = 0;
    let mut buf = b"prior".to_vec();
    assert_eq!(read_one(src, &mut pos, 64, &mut buf, set), Ok(5));
    assert_eq!(buf, b"priorabcd\n".to_vec());
    assert_eq!(pos, 5);
}

#[test]
fn custom_end_of_line_byte_is_kept() {
    let src = b"ab;cd";
    let set = BufferSettings { eol1: b';', eol2: b'\n', eof: 4, intr: 3, susp: 26, quit: 28 };
    let mut pos = 0;
    let mut buf = Vec::new();
    assert_eq!(read_one(src, &mut pos, 64, &mut buf, set), Ok(3));
    assert_eq!(buf, b"ab;".to_vec());
    assert_eq!(pos, 3);
}

#[test]
fn line_spanning_several_windows() {
    let src = b"abcdefg\nh";
    let set = settings(b'\n', 4);
    let mut pos = 0;
    let mut buf = Vec::new();
    assert_eq!(read_one(src, &mut pos, 3, &mut buf, set), Ok(8));
    assert_eq!(buf, b"abcdefg\n".to_vec());
    assert_eq!(pos, 8);
}

#[test]
fn end_of_stream_mid_line() {
    let src = b"tail";
    let set = settings(b'\n', 4);
    let mut pos = 0;
    let mut buf = Vec::new();
    assert_eq!(read_one(src, &mut pos, 2, &mut buf, set), Ok(4));
    assert_eq!(buf, b"tail".to_vec());
    assert_eq!(read_one(src, &mut pos, 2, &mut buf, set), Ok(0));
}

#[test]
fn interruption_changes_nothing() {
    let set = settings(b'\n', 4);
    let mut plain = b"x".to_vec();
    let read = LineRead::begin(&plain, set);
    let a = read.on_fill(&mut plain, Ok(b"hi\nthere"));

    let mut retried = b"x".to_vec();
    let read2 = LineRead::begin(&retried, set);
    assert_eq!(read2.on_fill(&mut retried, Err(FillError::Interrupted)), Action::Retry);
    assert_eq!(retried, b"x".to_vec());
    let b = read2.on_fill(&mut retried, Ok(b"hi\nthere"));
    assert_eq!(a, b);
    assert_eq!(a, Action::Consume { used: 3, done: true });
    assert_eq!(plain, retried);
    assert_eq!(read2.finish(&mut retried), Ok(3));
}

#[test]
fn stream_failure_rolls_back() {
    let set = settings(b'\n', 4);
    let mut buf = b"keep".to_vec();
    let read = LineRead::begin(&buf, set);
    assert_eq!(read.on_fill(&mut buf, Ok(b"partial")), Action::Consume { used: 7, done: false });
    assert_eq!(read.on_fill(&mut buf, Err(FillError::Failed)), Action::Fail);
    assert_eq!(buf, b"keep".to_vec());
}

#[test]
fn invalid_text_rolls_back() {
    let set = settings(b'\n', 4);
    let src: &[u8] = b"ok\xff\xfe\n";
    let mut pos = 0;
    let mut buf = "prefix é".as_bytes().to_vec();
    let before = buf.len();
    assert_eq!(read_one(src, &mut pos, 64, &mut buf, set), Err(LineError::InvalidData));
    assert_eq!(buf.len(), before);
    assert_eq!(buf, "prefix é".as_bytes().to_vec());
}

#[test]
fn multibyte_text_is_accepted() {
    let set = settings(b'\n', 4);
    let src = "héllo\n".as_bytes();
    let mut pos = 0;
    let mut buf = Vec::new();
    assert_eq!(read_one(src, &mut pos, 2, &mut buf, set), Ok(7));
    assert_eq!(String::from_utf8(buf).unwrap(), "héllo\n");
}

#[test]
fn terminator_search() {
    let set = settings(b'\n', 4);
    assert_eq!(find_terminator(b"abc", &set), 3);
    assert_eq!(find_terminator(b"a\x04c\n", &set), 1);
    assert_eq!(find_terminator(b"", &set), 0);
}

#[test]
fn prompt_is_framed() {
    assert_eq!(prompt_bytes(">"), b"\n> ".to_vec());
    assert_eq!(prompt_bytes(""), b"\n ".to_vec());
}
