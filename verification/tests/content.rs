use linecount::aggregate::Aggregator;
use linecount::content::{count_file_bytes, prepare_scratch};

#[test]
fn valid_utf8_bytes_are_classified() {
    let buf: Vec<u8> = b"a\nb\n".to_vec();
    assert_eq!(count_file_bytes(&buf), 2);
}

#[test]
fn invalid_utf8_bytes_count_zero() {
    let buf: Vec<u8> = vec![0xff, 0xfe, b'a', b'\n'];
    assert_eq!(count_file_bytes(&buf), 0);
}

#[test]
fn scratch_reuse_never_leaks_earlier_bytes() {
    let mut buf: Vec<u8> = b"leftover\nlines\nfrom\nbefore\n".to_vec();
    prepare_scratch(&mut buf);
    buf.extend_from_slice(b"a\nb\n");
    let reused = count_file_bytes(&buf);
    let fresh = count_file_bytes(&b"a\nb\n".to_vec());
    assert_eq!(reused, fresh);
    assert_eq!(reused, 2);
}

#[test]
fn mixed_entries_sum_to_the_text_count_alone() {
    // One directory's worth of children: a text file, a binary file whose
    // bytes are not UTF-8, and an unreadable file that contributes zero.
    let text: Vec<u8> = b"fn main() {\n}\n".to_vec();
    let binary: Vec<u8> = vec![0xc0, 0x80, 0xff];
    let mut total = Aggregator::new();
    total.add(count_file_bytes(&text));
    total.add(count_file_bytes(&binary));
    total.add(0);
    assert_eq!(total.total(), 2);
}
