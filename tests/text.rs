use open_jsw::text::{read_compressed_text, TEXT_COMPRESSION_TABLE_OFFSET};
use open_jsw::Error;

fn buffer() -> Vec<u8> {
    vec![0u8; 0xA000]
}

fn put(data: &mut [u8], pos: usize, bytes: &[u8]) {
    data[pos..pos + bytes.len()].copy_from_slice(bytes);
}

#[test]
fn literal_characters_decode() {
    let mut data = buffer();
    put(&mut data, 0x100, &[b'A', b'B', b'C' | 0x80]);
    assert_eq!(read_compressed_text(&data, 0x100).unwrap(), b"ABC".to_vec());
}

#[test]
fn dictionary_reference_is_followed_by_one_space() {
    let mut data = buffer();
    put(&mut data, TEXT_COMPRESSION_TABLE_OFFSET, &[b'H', b'E', b'L', b'L', b'O' | 0x80]);
    put(&mut data, 0x100, &[0x00, b'X' | 0x80]);
    assert_eq!(read_compressed_text(&data, 0x100).unwrap(), b"HELLO X".to_vec());
}

#[test]
fn later_dictionary_words_follow_end_marks() {
    let mut data = buffer();
    put(&mut data, TEXT_COMPRESSION_TABLE_OFFSET, &[0x80, b'H', b'I' | 0x80, b'T', b'H', b'E' | 0x80]);
    put(&mut data, 0x100, &[0x02, 0x01, b'!' | 0x80]);
    assert_eq!(read_compressed_text(&data, 0x100).unwrap(), b"THE HI !".to_vec());
}

#[test]
fn trailing_space_is_trimmed_and_invalid_bytes_dropped() {
    let mut data = buffer();
    put(&mut data, TEXT_COMPRESSION_TABLE_OFFSET, &[b'G', b'O' | 0x80]);
    put(&mut data, 0x100, &[b'A', 0x7f, 0x00 | 0x00, b' ' | 0x80]);
    assert_eq!(read_compressed_text(&data, 0x100).unwrap(), b"AGO".to_vec());
}

#[test]
fn self_referencing_word_is_refused() {
    let mut data = buffer();
    put(&mut data, TEXT_COMPRESSION_TABLE_OFFSET, &[0x00, b'Z' | 0x80]);
    put(&mut data, 0x100, &[0x00, b'X' | 0x80]);
    assert!(matches!(
        read_compressed_text(&data, 0x100),
        Err(Error::TextTooDeep { .. })
    ));
}

#[test]
fn text_running_off_the_end_is_an_error() {
    let data = vec![b'A'; 16];
    assert!(matches!(
        read_compressed_text(&data, 10),
        Err(Error::ReadPastEnd { position: 16 })
    ));
}
