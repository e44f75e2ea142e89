use gap_buffer::BufferError;
use gap_buffer::GapBuffer;

const VERSE: &str = "The quick brown\nfox jumped over\nthe lazy dog.";

#[test]
fn from_text_round_trips_multibyte_text() {
    let text = "na\u{ef}ve caf\u{e9} \u{2713} \u{1f600}";
    let buffer = GapBuffer::from(text.to_string());

    assert_eq!(buffer.len(), text.len());
    assert_eq!(buffer.len(), 21);
    assert_eq!(buffer.capacity(), 21);
    assert_eq!(buffer.to_text(), Ok(text.to_string()));
}

#[test]
fn from_empty_text_holds_nothing() {
    let buffer = GapBuffer::from(String::new());

    assert_eq!(buffer.len(), 0);
    assert_eq!(buffer.capacity(), 0);
    assert_eq!(buffer.to_text(), Ok(String::new()));
}

#[test]
fn from_text_holds_the_encoded_bytes() {
    let mut buffer = GapBuffer::from("h\u{e9}".to_string());

    assert_eq!(buffer.remove_bytes(0..3), Ok(vec![0x68, 0xc3, 0xa9]));
}

#[test]
fn insert_at_length_appends() {
    let mut buffer = GapBuffer::from("abc".to_string());

    assert_eq!(buffer.insert(3, b'd'), Ok(()));
    assert_eq!(buffer.to_text().unwrap(), "abcd");
    assert_eq!(buffer.insert_bytes(4, b"ef".to_vec()), Ok(()));
    assert_eq!(buffer.to_text().unwrap(), "abcdef");
    assert_eq!(buffer.len(), 6);
}

#[test]
fn insert_at_start_and_middle_shifts_later_bytes() {
    let mut buffer = GapBuffer::from("bd".to_string());

    assert_eq!(buffer.insert(0, b'a'), Ok(()));
    assert_eq!(buffer.insert(2, b'c'), Ok(()));
    assert_eq!(buffer.to_text().unwrap(), "abcd");
}

#[test]
fn insert_into_empty_buffer() {
    let mut buffer = GapBuffer::new();

    assert_eq!(buffer.insert(0, b'x'), Ok(()));
    assert_eq!(buffer.len(), 1);
    assert_eq!(buffer.to_text().unwrap(), "x");
}

#[test]
fn insert_bytes_matches_single_insertions() {
    let bytes = b"tan and white ".to_vec();
    let mut at_once = GapBuffer::from(VERSE.to_string());
    let mut one_by_one = GapBuffer::from(VERSE.to_string());

    at_once.insert_bytes(10, bytes.clone()).unwrap();
    for (offset, byte) in bytes.iter().enumerate() {
        one_by_one.insert(10 + offset, *byte).unwrap();
    }

    assert_eq!(at_once.to_text(), one_by_one.to_text());
    assert_eq!(at_once.len(), one_by_one.len());
    assert_eq!(at_once.capacity(), one_by_one.capacity());
    assert_eq!(
        at_once.to_text().unwrap(),
        "The quick tan and white brown\nfox jumped over\nthe lazy dog."
    );
}

#[test]
fn insert_bytes_keeps_order_in_the_middle() {
    let mut buffer = GapBuffer::from(VERSE.to_string());

    buffer.insert_bytes(10, b"tan ".to_vec()).unwrap();

    assert_eq!(
        buffer.to_text().unwrap(),
        "The quick tan brown\nfox jumped over\nthe lazy dog."
    );
    assert_eq!(buffer.len(), VERSE.len() + 4);
}

#[test]
fn insert_empty_bytes_changes_nothing() {
    let mut buffer = GapBuffer::from("abc".to_string());

    assert_eq!(buffer.insert_bytes(1, Vec::new()), Ok(()));
    assert_eq!(buffer.insert_bytes(3, Vec::new()), Ok(()));
    assert_eq!(buffer.to_text().unwrap(), "abc");
    assert_eq!(buffer.capacity(), 3);
}

#[test]
fn insert_empty_bytes_still_checks_the_index() {
    let mut buffer = GapBuffer::from("abc".to_string());

    assert_eq!(
        buffer.insert_bytes(4, Vec::new()),
        Err(BufferError::IndexOutOfBounds)
    );
    assert_eq!(buffer.to_text().unwrap(), "abc");
}

#[test]
fn remove_returns_the_byte_and_shifts_the_rest() {
    let mut buffer = GapBuffer::from("abcde".to_string());

    assert_eq!(buffer.remove(1), Ok(b'b'));
    assert_eq!(buffer.len(), 4);
    assert_eq!(buffer.to_text().unwrap(), "acde");
    assert_eq!(buffer.remove(3), Ok(b'e'));
    assert_eq!(buffer.remove(0), Ok(b'a'));
    assert_eq!(buffer.to_text().unwrap(), "cd");
    assert_eq!(buffer.capacity(), 5);
}

#[test]
fn remove_bytes_returns_the_range_in_order() {
    let mut buffer = GapBuffer::from(VERSE.to_string());

    assert_eq!(buffer.remove_bytes(4..10), Ok(b"quick ".to_vec()));
    assert_eq!(
        buffer.to_text().unwrap(),
        "The brown\nfox jumped over\nthe lazy dog."
    );
    assert_eq!(buffer.len(), VERSE.len() - 6);
    assert_eq!(buffer.capacity(), VERSE.len());
}

#[test]
fn remove_bytes_at_the_ends() {
    let mut buffer = GapBuffer::from("abcdef".to_string());

    assert_eq!(buffer.remove_bytes(0..2), Ok(b"ab".to_vec()));
    assert_eq!(buffer.remove_bytes(2..4), Ok(b"ef".to_vec()));
    assert_eq!(buffer.to_text().unwrap(), "cd");
    assert_eq!(buffer.remove_bytes(0..2), Ok(b"cd".to_vec()));
    assert_eq!(buffer.len(), 0);
}

#[test]
fn remove_empty_range_changes_nothing() {
    let mut buffer = GapBuffer::from("abc".to_string());

    assert_eq!(buffer.remove_bytes(0..0), Ok(Vec::new()));
    assert_eq!(buffer.remove_bytes(2..2), Ok(Vec::new()));
    assert_eq!(buffer.remove_bytes(3..3), Ok(Vec::new()));
    assert_eq!(buffer.to_text().unwrap(), "abc");
    assert_eq!(buffer.len(), 3);
}

#[test]
fn removed_bytes_spliced_back_restore_the_text() {
    let mut buffer = GapBuffer::from(VERSE.to_string());

    let removed = buffer.remove_bytes(16..31).unwrap();
    buffer.insert_bytes(16, removed).unwrap();

    assert_eq!(buffer.to_text().unwrap(), VERSE);
}

#[test]
fn insert_past_the_length_is_rejected() {
    let mut buffer = GapBuffer::from("abc".to_string());

    assert_eq!(buffer.insert(4, b'x'), Err(BufferError::IndexOutOfBounds));
    assert_eq!(
        buffer.insert_bytes(4, b"xy".to_vec()),
        Err(BufferError::IndexOutOfBounds)
    );
    assert_eq!(
        buffer.insert(usize::MAX, b'x'),
        Err(BufferError::IndexOutOfBounds)
    );
    assert_eq!(buffer.len(), 3);
    assert_eq!(buffer.capacity(), 3);
    assert_eq!(buffer.to_text().unwrap(), "abc");
}

#[test]
fn remove_at_the_length_is_rejected() {
    let mut buffer = GapBuffer::from("abc".to_string());

    assert_eq!(buffer.remove(3), Err(BufferError::IndexOutOfBounds));
    assert_eq!(buffer.remove(usize::MAX), Err(BufferError::IndexOutOfBounds));
    assert_eq!(buffer.len(), 3);
    assert_eq!(buffer.to_text().unwrap(), "abc");
}

#[test]
fn remove_from_empty_buffer_is_rejected() {
    let mut buffer = GapBuffer::new();

    assert_eq!(buffer.remove(0), Err(BufferError::IndexOutOfBounds));
    assert_eq!(buffer.len(), 0);
    assert_eq!(buffer.capacity(), 10);
}

#[test]
fn remove_bytes_outside_the_content_is_rejected() {
    let mut buffer = GapBuffer::from("abc".to_string());

    assert_eq!(buffer.remove_bytes(2..1), Err(BufferError::IndexOutOfBounds));
    assert_eq!(buffer.remove_bytes(1..4), Err(BufferError::IndexOutOfBounds));
    assert_eq!(buffer.remove_bytes(4..4), Err(BufferError::IndexOutOfBounds));
    assert_eq!(buffer.remove_bytes(4..5), Err(BufferError::IndexOutOfBounds));
    assert_eq!(buffer.len(), 3);
    assert_eq!(buffer.to_text().unwrap(), "abc");
}

#[test]
fn text_split_inside_a_character_is_invalid() {
    let mut buffer = GapBuffer::from("h\u{e9}llo".to_string());

    assert_eq!(buffer.remove(1), Ok(0xc3));
    assert_eq!(buffer.to_text(), Err(BufferError::InvalidEncoding));
    assert_eq!(buffer.len(), 5);

    assert_eq!(buffer.insert(1, 0xc3), Ok(()));
    assert_eq!(buffer.to_text(), Ok("h\u{e9}llo".to_string()));
}

#[test]
fn lone_continuation_byte_is_invalid() {
    let mut buffer = GapBuffer::new();

    buffer.insert(0, 0x80).unwrap();

    assert_eq!(buffer.to_text(), Err(BufferError::InvalidEncoding));
}

#[test]
fn overlong_and_surrogate_encodings_are_invalid() {
    let mut overlong = GapBuffer::new();
    overlong.insert_bytes(0, vec![0xc0, 0x80]).unwrap();
    assert_eq!(overlong.to_text(), Err(BufferError::InvalidEncoding));

    let mut surrogate = GapBuffer::new();
    surrogate.insert_bytes(0, vec![0xed, 0xa0, 0x80]).unwrap();
    assert_eq!(surrogate.to_text(), Err(BufferError::InvalidEncoding));

    let mut too_large = GapBuffer::new();
    too_large.insert_bytes(0, vec![0xf4, 0x90, 0x80, 0x80]).unwrap();
    assert_eq!(too_large.to_text(), Err(BufferError::InvalidEncoding));
}

#[test]
fn inserted_bytes_read_back_as_text() {
    let mut buffer = GapBuffer::new();

    buffer.insert_bytes(0, "\u{2713} ok".as_bytes().to_vec()).unwrap();

    assert_eq!(buffer.to_text(), Ok("\u{2713} ok".to_string()));
    assert_eq!(buffer.len(), 6);
}
