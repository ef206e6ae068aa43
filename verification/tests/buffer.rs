use file_transfer::buffer::{collect_body, UploadBuffer};
use file_transfer::error::TransferError;

#[test]
fn a_new_buffer_is_empty() {
    let buffer = UploadBuffer::new();
    assert_eq!(buffer.len(), 0);
    assert_eq!(buffer.finish(), Vec::<u8>::new());
}

#[test]
fn accept_appends_in_the_order_of_arrival() {
    let mut buffer = UploadBuffer::new();
    buffer.accept(b"File ");
    assert_eq!(buffer.len(), 5);
    buffer.accept(b"");
    assert_eq!(buffer.len(), 5);
    buffer.accept(b"contents.");
    assert_eq!(buffer.len(), 14);
    assert_eq!(buffer.finish(), b"File contents.".to_vec());
}

#[test]
fn try_accept_appends_what_fits() {
    let mut buffer = UploadBuffer::new();
    assert!(buffer.try_accept(&[1, 2, 3]));
    assert!(buffer.try_accept(&[4]));
    assert_eq!(buffer.len(), 4);
    assert_eq!(buffer.finish(), vec![1, 2, 3, 4]);
}

#[test]
fn accept_takes_any_byte() {
    let all: Vec<u8> = (0..=255).collect();
    let mut buffer = UploadBuffer::new();
    buffer.accept(&all);
    buffer.accept(&all);
    let content = buffer.finish();
    assert_eq!(content.len(), 512);
    assert_eq!(&content[..256], &all[..]);
    assert_eq!(&content[256..], &all[..]);
}

#[test]
fn collect_body_joins_the_chunks() {
    let chunks: Vec<Result<Vec<u8>, ()>> =
        vec![Ok(b"ab".to_vec()), Ok(Vec::new()), Ok(b"c".to_vec()), Ok(b"def".to_vec())];
    assert_eq!(collect_body(&chunks), Ok(b"abcdef".to_vec()));
}

#[test]
fn collect_body_of_no_chunks_is_empty() {
    let chunks: Vec<Result<Vec<u8>, ()>> = Vec::new();
    assert_eq!(collect_body(&chunks), Ok(Vec::new()));
}

#[test]
fn collect_body_fails_where_a_chunk_failed() {
    let last: Vec<Result<Vec<u8>, &str>> = vec![Ok(b"ab".to_vec()), Err("reset")];
    assert_eq!(collect_body(&last), Err(TransferError::StreamError));
    let first: Vec<Result<Vec<u8>, &str>> = vec![Err("reset"), Ok(b"ab".to_vec())];
    assert_eq!(collect_body(&first), Err(TransferError::StreamError));
    let middle: Vec<Result<Vec<u8>, u8>> = vec![Ok(vec![1]), Err(0), Ok(vec![2])];
    assert_eq!(collect_body(&middle), Err(TransferError::StreamError));
}

#[test]
fn collect_body_keeps_a_single_chunk_as_it_is() {
    let chunks: Vec<Result<Vec<u8>, ()>> = vec![Ok(b"File contents.".to_vec())];
    assert_eq!(collect_body(&chunks), Ok(b"File contents.".to_vec()));
}
