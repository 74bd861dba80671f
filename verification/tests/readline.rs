use uart_readline::readline::{Input, Loop, ReadlineStatus, Transcript};
use uart_readline::{Buffers, Line, LineError, Readline, ReadlineError};

/// What stands for a serial link: the bytes to read, and the bytes written.
struct TestReaderWriter<'a> {
    data_to_read: &'a [u8],
    data_to_write: Vec<u8>,
    pos: usize,
}

impl<'a> TestReaderWriter<'a> {
    fn new(data: &'a [u8]) -> Self {
        Self { data_to_read: data, data_to_write: Vec::new(), pos: 0 }
    }

    fn totally_consumed(&self) -> bool {
        self.pos == self.data_to_read.len()
    }
}

/// One session on what is left to read of `uart`.
fn readline<const A: usize, const B: usize>(
    uart: &mut TestReaderWriter,
    buffers: &mut Buffers<A, B>,
) -> Result<String, ReadlineError<()>> {
    let transcript = uart_readline::readline(&uart.data_to_read[uart.pos..], buffers);
    uart.pos += transcript.consumed;
    uart.data_to_write.extend_from_slice(&transcript.output);
    let line = transcript.result?;
    Ok(String::from_utf8(line.start_to_end().to_vec()).unwrap())
}

fn assert_eq_u8(actual: &[u8], expected: &str) {
    assert_eq!(actual, expected.as_bytes());
}

#[test]
fn test_simple() {
    let buffer = [&b"hello\n"[..], &b"world\n"[..]].join(&b""[..]);

    let mut test_rw = TestReaderWriter::new(&buffer);
    let mut buffers: Buffers<8, 2> = Buffers::default();

    let result = readline(&mut test_rw, &mut buffers).unwrap();
    assert_eq!(result, "hello");
    assert_eq_u8(&test_rw.data_to_write, "hello");

    let result = readline(&mut test_rw, &mut buffers).unwrap();
    assert_eq!(result, "world");
    assert_eq_u8(&test_rw.data_to_write, "helloworld");

    assert!(test_rw.totally_consumed());
}

#[test]
fn test_history_simple() {
    let buffer = [
        &b"omg!\n"[..],
        &b"wtf?\n"[..],
        &b"\x1B[Abbq~\n"[..], // up arrow+'bbq~'+enter
    ]
    .join(&b""[..]);

    let mut test_rw = TestReaderWriter::new(&buffer);
    let mut buffers: Buffers<8, 2> = Buffers::default();

    let result = readline(&mut test_rw, &mut buffers).unwrap();
    assert_eq!(result, "omg!");
    assert_eq_u8(&test_rw.data_to_write, "omg!");

    let result = readline(&mut test_rw, &mut buffers).unwrap();
    assert_eq!(result, "wtf?");
    assert_eq_u8(&test_rw.data_to_write, "omg!wtf?");

    let result = readline(&mut test_rw, &mut buffers).unwrap();
    assert_eq!(result, "wtf?bbq~");

    assert!(test_rw.totally_consumed());
}

#[test]
fn test_history_up_down() {
    let buffer = [
        &b"yes!\n"[..],
        // up arrow, down arrow
        &b"\x1B[A\x1B[B\n"[..],
    ]
    .join(&b""[..]);

    let mut test_rw = TestReaderWriter::new(&buffer);
    let mut buffers: Buffers<8, 4> = Buffers::default();

    let result = readline(&mut test_rw, &mut buffers).unwrap();
    assert_eq!(result, "yes!");
    assert_eq_u8(test_rw.data_to_write.as_ref(), "yes!");

    test_rw.data_to_write.clear();
    let result = readline(&mut test_rw, &mut buffers).unwrap();
    assert_eq!(result, "");
    assert_eq_u8(test_rw.data_to_write.as_ref(), "yes!\x08\x08\x08\x08    \x08\x08\x08\x08");
}

#[test]
fn test_handle_delete_word() {
    let buffer = b"a b\x17\n\x1B[A\x17\n";
    let mut test_rw = TestReaderWriter::new(buffer);
    let mut buffers: Buffers<32, 4> = Buffers::default();
    let result = readline(&mut test_rw, &mut buffers).unwrap();
    assert_eq!(result, "a ");
    assert_eq_u8(test_rw.data_to_write.as_ref(), "a b\x08 \x08");

    test_rw.data_to_write.clear();

    let result = readline(&mut test_rw, &mut buffers).unwrap();
    assert_eq!(result, "");
    assert_eq_u8(test_rw.data_to_write.as_ref(), "a \x08\x08  \x08\x08");

    assert!(test_rw.totally_consumed());
}

#[test]
fn test_handle_delete_word_middle() {
    // "a b " <- <- CTRL+W ENTER
    let buffer = b"a b \x1B[D\x1B[D\x17\n";
    let mut test_rw = TestReaderWriter::new(buffer);
    let mut buffers: Buffers<32, 4> = Buffers::default();
    let result = readline(&mut test_rw, &mut buffers).unwrap();
    assert_eq!(result, "b ");
    assert_eq_u8(
        test_rw.data_to_write.as_ref(),
        "a b \x08\x08\x08\x08b   \x08\x08\x08\x08",
    );

    assert!(test_rw.totally_consumed());
}

#[test]
fn test_read_line() {
    let mut uart = TestReaderWriter::new(b"hello\nworld\n");
    let mut buffers: Buffers<10, 1> = Buffers::default();
    let result = readline(&mut uart, &mut buffers);
    assert_eq!(result, Ok("hello".to_string()));
    assert_eq!(uart.data_to_write, b"hello"[..]);

    let result = readline(&mut uart, &mut buffers);
    assert_eq!(result, Ok("world".to_string()));
    assert_eq!(uart.data_to_write, b"helloworld"[..]);
}

#[test]
fn hello_is_echoed_as_typed() {
    let mut uart = TestReaderWriter::new(b"hello\n");
    let mut buffers: Buffers<5, 1> = Buffers::default();
    assert_eq!(readline(&mut uart, &mut buffers), Ok("hello".to_string()));
    assert_eq!(uart.data_to_write, b"hello");
    assert!(uart.totally_consumed());
}

#[test]
fn carriage_return_ends_the_line_too() {
    let mut uart = TestReaderWriter::new(b"ab\rcd\r");
    let mut buffers: Buffers<8, 2> = Buffers::default();
    assert_eq!(readline(&mut uart, &mut buffers), Ok("ab".to_string()));
    assert_eq!(readline(&mut uart, &mut buffers), Ok("cd".to_string()));
}

#[test]
fn previous_then_next_shows_the_line_in_progress_again() {
    // "hello" is committed, "world" is in progress; previous, then next.
    let mut uart = TestReaderWriter::new(b"hello\nworld\x10\x0E\n");
    let mut buffers: Buffers<8, 4> = Buffers::default();
    assert_eq!(readline(&mut uart, &mut buffers), Ok("hello".to_string()));
    uart.data_to_write.clear();
    assert_eq!(readline(&mut uart, &mut buffers), Ok("world".to_string()));
    // "world", then "hello" over it, then "world" over that again.
    assert_eq_u8(
        &uart.data_to_write,
        "world\x08\x08\x08\x08\x08hello\x08\x08\x08\x08\x08world",
    );
}

#[test]
fn previous_then_typing_then_next_keeps_the_edited_line() {
    // "hello" is committed, "world" is in progress; previous, "X", next.
    // Typing into the recalled line makes it the line in progress, so there
    // is no line behind it to go to.
    let mut uart = TestReaderWriter::new(b"hello\nworld\x10X\x0E\n");
    let mut buffers: Buffers<8, 4> = Buffers::default();
    assert_eq!(readline(&mut uart, &mut buffers), Ok("hello".to_string()));
    uart.data_to_write.clear();
    assert_eq!(readline(&mut uart, &mut buffers), Ok("helloX".to_string()));
    assert_eq_u8(&uart.data_to_write, "world\x08\x08\x08\x08\x08helloX");
    // The history holds both lines as they were committed.
    let mut uart = TestReaderWriter::new(b"\x10\x10\n");
    assert_eq!(readline(&mut uart, &mut buffers), Ok("hello".to_string()));
    assert_eq_u8(&uart.data_to_write, "helloX\x08 \x08");
}

#[test]
fn control_bytes_edit_the_line() {
    // "abc def", ^A, "x", ^E, "y", ^W, backspace, DEL, ^A, right, ^K.
    let mut uart = TestReaderWriter::new(b"abc def\x01x\x05y\x17\x08\x7F\x01\x1B[C\x0B\n");
    let mut buffers: Buffers<16, 2> = Buffers::default();
    assert_eq!(readline(&mut uart, &mut buffers), Ok("x".to_string()));
    assert_eq_u8(
        &uart.data_to_write,
        concat_all(&[
            "abc def",
            "\x08\x08\x08\x08\x08\x08\x08",
            "xabc def\x08\x08\x08\x08\x08\x08\x08",
            "abc def",
            "y",
            "\x08\x08\x08\x08    \x08\x08\x08\x08",
            "\x08 \x08",
            "\x08 \x08",
            "\x08\x08\x08",
            "x",
            "  \x08\x08",
        ])
        .as_str(),
    );
}

fn concat_all(parts: &[&str]) -> String {
    parts.concat()
}

#[test]
fn arrow_keys_move_through_line_and_history() {
    let mut uart = TestReaderWriter::new(b"one\n\x1B[Atw\x1B[D\x1B[D\x1B[D\x1B[C-\n");
    let mut buffers: Buffers<16, 4> = Buffers::default();
    assert_eq!(readline(&mut uart, &mut buffers), Ok("one".to_string()));
    uart.data_to_write.clear();
    assert_eq!(readline(&mut uart, &mut buffers), Ok("one-tw".to_string()));
    assert_eq_u8(&uart.data_to_write, "onetw\x08\x08\x08e-tw\x08\x08");
}

#[test]
fn other_control_sequences_are_ignored() {
    let mut uart = TestReaderWriter::new(b"a\x1B[Zb\x1B[[c\n");
    let mut buffers: Buffers<16, 4> = Buffers::default();
    assert_eq!(readline(&mut uart, &mut buffers), Ok("abc".to_string()));
    assert_eq_u8(&uart.data_to_write, "abc");
}

#[test]
fn a_line_end_within_an_escape_sequence_ends_the_line() {
    let mut uart = TestReaderWriter::new(b"a\x1B\nb\x1B[\r");
    let mut buffers: Buffers<16, 4> = Buffers::default();
    assert_eq!(readline(&mut uart, &mut buffers), Ok("a".to_string()));
    assert_eq!(readline(&mut uart, &mut buffers), Ok("b".to_string()));
    assert!(uart.totally_consumed());
}

#[test]
fn an_escape_within_an_escape_sequence_is_an_error() {
    let mut buffers: Buffers<16, 4> = Buffers::default();
    let mut uart = TestReaderWriter::new(b"ab\x1B\x1B");
    assert_eq!(readline(&mut uart, &mut buffers), Err(ReadlineError::UnexpectedEscape));
    let mut uart = TestReaderWriter::new(b"\x1B[\x1B");
    assert_eq!(readline(&mut uart, &mut buffers), Err(ReadlineError::UnexpectedEscape));
    // The line in progress is kept, and the next session goes on with it.
    let mut uart = TestReaderWriter::new(b"c\n");
    assert_eq!(readline(&mut uart, &mut buffers), Ok("abc".to_string()));
}

#[test]
fn a_byte_after_an_escape_that_is_no_bracket_is_an_error() {
    let mut buffers: Buffers<16, 4> = Buffers::default();
    let mut uart = TestReaderWriter::new(b"\x1BA");
    assert_eq!(readline(&mut uart, &mut buffers), Err(ReadlineError::UnexpectedChar(b'A')));
    let mut uart = TestReaderWriter::new(b"\x1B\x08");
    assert_eq!(readline(&mut uart, &mut buffers), Err(ReadlineError::UnexpectedChar(0x08)));
}

#[test]
fn typing_into_a_full_line_is_an_error() {
    let mut buffers: Buffers<3, 2> = Buffers::default();
    let mut uart = TestReaderWriter::new(b"abcd");
    assert_eq!(
        readline(&mut uart, &mut buffers),
        Err(ReadlineError::LineError(LineError::OutOfBounds))
    );
    assert_eq!(uart.data_to_write, b"abc");
    assert_eq!(buffers.current_line().start_to_end(), b"abc");
}

#[test]
fn the_end_of_input_before_the_end_of_the_line_is_an_error() {
    let mut buffers: Buffers<8, 2> = Buffers::default();
    let mut uart = TestReaderWriter::new(b"ab");
    assert_eq!(readline(&mut uart, &mut buffers), Err(ReadlineError::UnexpectedEof));
    // The next session resumes the interrupted line.
    let mut uart = TestReaderWriter::new(b"c\n");
    assert_eq!(readline(&mut uart, &mut buffers), Ok("abc".to_string()));
}

#[test]
fn the_status_follows_the_escape_sequence() {
    let mut buffers: Buffers<8, 2> = Buffers::default();
    let mut session = Readline::new();
    assert_eq!(session.status(), ReadlineStatus::Char);
    let step = session.process_byte::<(), 8, 2>(&mut buffers, 0x1B).unwrap();
    assert_eq!((step.flow, step.output.len()), (Loop::Continue, 0));
    assert_eq!(session.status(), ReadlineStatus::Escape);
    let step = session.process_byte::<(), 8, 2>(&mut buffers, b'[').unwrap();
    assert_eq!((step.flow, step.output.len()), (Loop::Continue, 0));
    assert_eq!(session.status(), ReadlineStatus::Ctrl);
    let step = session.process_byte::<(), 8, 2>(&mut buffers, b'C').unwrap();
    assert_eq!((step.flow, step.output.len()), (Loop::Continue, 0));
    assert_eq!(session.status(), ReadlineStatus::Char);
    let step = session.process_byte::<(), 8, 2>(&mut buffers, b'[').unwrap();
    assert_eq!((step.flow, step.output), (Loop::Continue, b"[".to_vec()));
    session.process_byte::<(), 8, 2>(&mut buffers, 0x1B).unwrap();
    assert_eq!(
        session.process_byte::<(), 8, 2>(&mut buffers, b'x').map(|_| ()),
        Err(ReadlineError::UnexpectedChar(b'x'))
    );
    assert_eq!(session.status(), ReadlineStatus::Char);
    let step = session.process_byte::<(), 8, 2>(&mut buffers, b'\n').unwrap();
    assert_eq!((step.flow, step.output.len()), (Loop::Break, 0));
    assert_eq!(buffers.current_line().start_to_end(), b"[");
}

#[test]
fn a_session_reads_up_to_the_first_line_end() {
    let mut buffers: Buffers<8, 2> = Buffers::default();
    let transcript: Transcript<(), 8> = uart_readline::readline(b"ab\ncd\n", &mut buffers);
    assert_eq!(transcript.consumed, 3);
    assert_eq!(transcript.output, b"ab");
    assert_eq!(transcript.result, Ok(Line::from_u8(b"ab")));
    assert_eq!(buffers.last_idx(), 1);

    let transcript: Transcript<(), 8> = uart_readline::readline(b"", &mut buffers);
    assert_eq!(transcript.consumed, 0);
    assert_eq!(transcript.output, b"");
    assert_eq!(transcript.result, Err(ReadlineError::UnexpectedEof));
    assert_eq!(buffers.last_idx(), 1);

    let transcript: Transcript<(), 8> = uart_readline::readline(b"x\x1B\x1Byz\n", &mut buffers);
    assert_eq!(transcript.consumed, 3);
    assert_eq!(transcript.output, b"x");
    assert_eq!(transcript.result, Err(ReadlineError::UnexpectedEscape));
}

#[test]
fn a_session_can_begin_within_an_escape_sequence() {
    let mut buffers: Buffers<8, 2> = Buffers::default();
    let mut session = Readline::new();
    session.process_byte::<(), 8, 2>(&mut buffers, b'a').unwrap();
    session.process_byte::<(), 8, 2>(&mut buffers, 0x1B).unwrap();
    session.process_byte::<(), 8, 2>(&mut buffers, b'[').unwrap();
    let transcript: Transcript<(), 8> = session.readline(b"Db\n", &mut buffers);
    assert_eq!(transcript.output, b"\x08ba\x08");
    assert_eq!(transcript.result, Ok(Line::from_u8(b"ba")));
}

#[test]
fn read_byte_tells_the_end_of_input_from_a_failure() {
    let session = Readline::new();
    assert_eq!(session.read_byte::<u32>(Input::Byte(7)), Ok(7));
    assert_eq!(session.read_byte::<u32>(Input::Eof), Err(ReadlineError::UnexpectedEof));
    assert_eq!(
        session.read_byte(Input::Failed(5u32)),
        Err(ReadlineError::ReaderWriterError(5u32))
    );
}

#[test]
fn every_byte_in_every_state_has_its_answer() {
    let prefixes: [&[u8]; 3] = [b"", b"\x1B", b"\x1B["];
    for prefix in prefixes {
        for byte in 0..=255u8 {
            let mut buffers: Buffers<4, 2> = Buffers::default();
            buffers.insert_chars(b"ab").unwrap();
            let mut session = Readline::new();
            for b in prefix {
                session.process_byte::<(), 4, 2>(&mut buffers, *b).unwrap();
            }
            let result = session.process_byte::<(), 4, 2>(&mut buffers, byte);
            let ends_line = byte == b'\n' || byte == b'\r';
            match result {
                Ok(step) => {
                    assert_eq!(step.flow == Loop::Break, ends_line);
                    if prefix.len() == 1 {
                        assert!(ends_line || byte == b'[');
                    }
                }
                Err(ReadlineError::UnexpectedEscape) => {
                    assert!(byte == 0x1B && !prefix.is_empty());
                }
                Err(ReadlineError::UnexpectedChar(seen)) => {
                    assert!(seen == byte && prefix.len() == 1);
                }
                Err(other) => panic!("unexpected error: {:?}", other),
            }
            let in_sequence = !ends_line
                && ((prefix.is_empty() && byte == 0x1B) || (prefix.len() == 1 && byte == b'['));
            assert_eq!(session.status() != ReadlineStatus::Char, in_sequence);
        }
    }
}

#[test]
fn moving_past_the_ends_of_the_history_sends_nothing() {
    // "ab", to the start, next line, previous line: there is neither.
    let mut uart = TestReaderWriter::new(b"ab\x01\x0E\x10\x1B[B\x1B[A\n");
    let mut buffers: Buffers<8, 4> = Buffers::default();
    assert_eq!(readline(&mut uart, &mut buffers), Ok("ab".to_string()));
    assert_eq_u8(&uart.data_to_write, "ab\x08\x08");

    // At the oldest line, a further request for the previous line sends
    // nothing either.
    let mut uart = TestReaderWriter::new(b"\x10\x10\x10\n");
    assert_eq!(readline(&mut uart, &mut buffers), Ok("ab".to_string()));
    assert_eq_u8(&uart.data_to_write, "ab");
}
