//! Length-prefixed framing: round trips, partial reads, violations.

use weston_ivi_controller::framing::{
    write_frame, FrameError, FrameReadResult, FrameReader, MemCursor, MAX_MESSAGE_SIZE,
};

#[test]
fn test_write_read_frame() {
    let mut buffer: Vec<u8> = Vec::new();
    let data = b"test message";

    write_frame(&mut buffer, data).unwrap();

    assert_eq!(buffer.len(), 4 + data.len());
    assert_eq!(&buffer[0..4], &(data.len() as u32).to_be_bytes());
    assert_eq!(&buffer[4..], data);

    let mut reader = FrameReader::new();
    let mut cursor = MemCursor::new(buffer);
    let message = reader.read_frame(&mut cursor).unwrap();

    assert_eq!(message, FrameReadResult::Complete(data.to_vec()));
}

#[test]
fn test_partial_header_read() {
    let mut buffer: Vec<u8> = Vec::new();
    write_frame(&mut buffer, b"test").unwrap();

    let mut reader = FrameReader::new();

    let mut cursor = MemCursor::new(buffer[0..2].to_vec());
    assert_eq!(reader.read_frame(&mut cursor).unwrap(), FrameReadResult::Eof);

    let mut cursor = MemCursor::new(buffer[2..].to_vec());
    let message = reader.read_frame(&mut cursor).unwrap();
    assert_eq!(message, FrameReadResult::Complete(b"test".to_vec()));
}

#[test]
fn test_partial_payload_read() {
    let data = b"test message with some length";
    let mut buffer: Vec<u8> = Vec::new();
    write_frame(&mut buffer, data).unwrap();

    let mut reader = FrameReader::new();

    let mut cursor = MemCursor::new(buffer[0..14].to_vec());
    assert_eq!(reader.read_frame(&mut cursor).unwrap(), FrameReadResult::Eof);

    let mut cursor = MemCursor::new(buffer[14..].to_vec());
    let message = reader.read_frame(&mut cursor).unwrap();
    assert_eq!(message, FrameReadResult::Complete(data.to_vec()));
}

#[test]
fn test_multiple_messages() {
    let mut buffer: Vec<u8> = Vec::new();
    write_frame(&mut buffer, b"first").unwrap();
    write_frame(&mut buffer, b"second").unwrap();

    let mut reader = FrameReader::new();
    let mut cursor = MemCursor::new(buffer);

    let msg1 = reader.read_frame(&mut cursor).unwrap();
    assert_eq!(msg1, FrameReadResult::Complete(b"first".to_vec()));

    let msg2 = reader.read_frame(&mut cursor).unwrap();
    assert_eq!(msg2, FrameReadResult::Complete(b"second".to_vec()));

    let msg3 = reader.read_frame(&mut cursor).unwrap();
    assert_eq!(msg3, FrameReadResult::Eof);
}

#[test]
fn test_zero_length_message() {
    let buffer = vec![0u8, 0, 0, 0];
    let mut reader = FrameReader::new();
    let mut cursor = MemCursor::new(buffer);

    let result = reader.read_frame(&mut cursor);
    assert!(result.is_err());
    assert_eq!(result.unwrap_err(), FrameError::ZeroLength);
}

#[test]
fn test_message_too_large() {
    let large_data = vec![0u8; (MAX_MESSAGE_SIZE + 1) as usize];
    let mut buffer: Vec<u8> = Vec::new();

    let result = write_frame(&mut buffer, &large_data);
    assert!(result.is_err());
    assert_eq!(result.unwrap_err(), FrameError::TooLarge);
}

#[test]
fn test_reader_reset() {
    let mut buffer: Vec<u8> = Vec::new();
    write_frame(&mut buffer, b"test").unwrap();

    let mut reader = FrameReader::new();

    let mut cursor = MemCursor::new(buffer[0..2].to_vec());
    assert_eq!(reader.read_frame(&mut cursor).unwrap(), FrameReadResult::Eof);

    reader.reset();

    let mut cursor = MemCursor::new(buffer);
    let message = reader.read_frame(&mut cursor).unwrap();
    assert_eq!(message, FrameReadResult::Complete(b"test".to_vec()));
}

#[test]
fn test_oversized_header_is_fatal_until_reset() {
    // A header announcing five bytes over the bound.
    let too_big: u32 = MAX_MESSAGE_SIZE + 5;
    let mut buffer = too_big.to_be_bytes().to_vec();
    buffer.extend_from_slice(b"xyz");
    let mut reader = FrameReader::new();
    let mut cursor = MemCursor::new(buffer);
    assert_eq!(reader.read_frame(&mut cursor).unwrap_err(), FrameError::TooLarge);

    // The reader stays dead until it is reset.
    let mut good: Vec<u8> = Vec::new();
    write_frame(&mut good, b"ok").unwrap();
    let mut cursor2 = MemCursor::new(good.clone());
    assert_eq!(reader.read_frame(&mut cursor2).unwrap_err(), FrameError::Io);

    reader.reset();
    let mut cursor3 = MemCursor::new(good);
    assert_eq!(
        reader.read_frame(&mut cursor3).unwrap(),
        FrameReadResult::Complete(b"ok".to_vec())
    );
}

#[test]
fn test_resumption_at_every_offset() {
    // Feeding a framed stream split at any offset yields the same
    // frames as feeding it whole.
    let mut stream: Vec<u8> = Vec::new();
    write_frame(&mut stream, b"alpha").unwrap();
    write_frame(&mut stream, b"beta").unwrap();
    for cut in 0..=stream.len() {
        let mut reader = FrameReader::new();
        let mut first = MemCursor::new(stream[..cut].to_vec());
        let mut seen: Vec<Vec<u8>> = Vec::new();
        loop {
            match reader.read_frame(&mut first).unwrap() {
                FrameReadResult::Complete(m) => seen.push(m),
                _ => break,
            }
        }
        let mut second = MemCursor::new(stream[cut..].to_vec());
        loop {
            match reader.read_frame(&mut second).unwrap() {
                FrameReadResult::Complete(m) => seen.push(m),
                _ => break,
            }
        }
        assert_eq!(seen, vec![b"alpha".to_vec(), b"beta".to_vec()]);
    }
}
