use isocore::Cursor;
use isocore::Error;
use isocore::StreamBuffer;

#[test]
fn cursor_basic() {
    let data = b"hello world";
    let mut cursor = Cursor::new(data);

    assert_eq!(cursor.pos(), 0);
    assert_eq!(cursor.absolute_pos(), 0);
    assert_eq!(cursor.remaining(), 11);

    let bytes = cursor.read_bytes(5).unwrap();
    assert_eq!(bytes, b"hello");
    assert_eq!(cursor.pos(), 5);
    assert_eq!(cursor.absolute_pos(), 5);
}

#[test]
fn cursor_mark_and_seek() {
    let data = b"0123456789";
    let mut cursor = Cursor::new(data);

    cursor.read_bytes(3).unwrap();
    let mark = cursor.mark();
    assert_eq!(mark.absolute_pos, 3);

    cursor.read_bytes(2).unwrap();
    assert_eq!(cursor.pos(), 5);

    cursor.seek(mark).unwrap();
    assert_eq!(cursor.pos(), 3);

    let remaining = cursor.read_bytes(7).unwrap();
    assert_eq!(remaining, b"3456789");
}

#[test]
fn cursor_with_offset() {
    let data = b"abc";
    let cursor = Cursor::with_context(data, 0, 1000, 0);

    assert_eq!(cursor.absolute_pos(), 1000);
    assert_eq!(cursor.mark().absolute_pos, 1000);
}

#[test]
fn cursor_pending() {
    let data = b"short";
    let mut cursor = Cursor::new(data);

    match cursor.read_bytes(10) {
        Err(Error::Pending(n)) => assert_eq!(n, 5),
        _ => panic!("Expected Pending error"),
    }
}

#[test]
fn stream_buffer_basic() {
    let mut buffer = StreamBuffer::new();
    buffer.extend(b"hello");
    buffer.extend(b" world");

    let cursor = buffer.cursor();
    assert_eq!(cursor.remaining(), 11);
}

#[test]
fn stream_buffer_compact() {
    let mut buffer = StreamBuffer::new();
    buffer.extend(b"0123456789");

    // Consume first 5 bytes
    buffer.mark_consumed(5);
    assert_eq!(buffer.valid_start, 5);

    // Compact
    let freed = buffer.compact();
    assert_eq!(freed, 5);
    assert_eq!(buffer.valid_start, 0);
    assert_eq!(buffer.data.len(), 5);
    assert_eq!(buffer.base_offset, 5);

    // Cursor should reflect new state
    let cursor = buffer.cursor();
    assert_eq!(cursor.absolute_pos(), 5);
    assert_eq!(cursor.remaining(), 5);
}

#[test]
fn stream_buffer_workflow() {
    let mut buffer = StreamBuffer::new();

    // Add first chunk
    buffer.extend(b"message1|");

    {
        let mut cursor = buffer.cursor();
        let msg = cursor.read_bytes(9).unwrap();
        assert_eq!(msg, b"message1|");
    }

    buffer.mark_consumed(9);

    // Add second chunk
    buffer.extend(b"message2|");

    {
        let mut cursor = buffer.cursor();
        let msg = cursor.read_bytes(9).unwrap();
        assert_eq!(msg, b"message2|");
    }

    buffer.mark_consumed(9);

    // Compact
    buffer.compact();
    assert_eq!(buffer.base_offset, 18);
    assert_eq!(buffer.data.len(), 0);
}

#[test]
fn cursor_started_past_its_bytes() {
    let data = b"abc";
    let mut cursor = Cursor::with_context(data, 5, 100, 0);

    assert_eq!(cursor.pos(), 5);
    assert_eq!(cursor.remaining(), 0);
    assert_eq!(cursor.absolute_pos(), 105);
    match cursor.read_bytes(1) {
        Err(Error::Pending(n)) => assert_eq!(n, 3),
        _ => panic!("Expected Pending error"),
    }
    assert_eq!(cursor.pos(), 5);
    cursor.set_pos(1).unwrap();
    assert_eq!(cursor.read_bytes(2).unwrap(), b"bc");
}
