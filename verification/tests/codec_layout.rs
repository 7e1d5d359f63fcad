use embedding_str::codec::{
    decode_embedded, decode_heap_words, encode_embedded, encode_heap_words, len_least_significant,
    read_disc, ByteOrder,
};

#[test]
fn test_inline_layout_little() {
    let buf = encode_embedded(b"ab", ByteOrder::Little);
    // Discriminant byte first: length 2, shifted, with the low bit set.
    assert_eq!(buf[0], (2 << 1) | 1);
    assert_eq!(&buf[1..3], &b"ab"[..]);
    assert_eq!(&buf[3..16], &[0u8; 13]);
    assert_eq!(read_disc(&buf, ByteOrder::Little), 5);
    assert_eq!(decode_embedded(&buf, ByteOrder::Little), &b"ab"[..]);
}

#[test]
fn test_inline_layout_big() {
    let buf = encode_embedded(b"ab", ByteOrder::Big);
    // Text first, discriminant byte at the far end.
    assert_eq!(&buf[0..2], &b"ab"[..]);
    assert_eq!(&buf[2..15], &[0u8; 13]);
    assert_eq!(buf[15], (2 << 1) | 1);
    assert_eq!(read_disc(&buf, ByteOrder::Big), 5);
    assert_eq!(decode_embedded(&buf, ByteOrder::Big), &b"ab"[..]);
}

#[test]
fn test_inline_round_trip_all_lengths() {
    let text = b"0123456789abcde";
    for len in 0..16 {
        let le = encode_embedded(&text[..len], ByteOrder::Little);
        assert_eq!(decode_embedded(&le, ByteOrder::Little), &text[..len]);
        let be = encode_embedded(&text[..len], ByteOrder::Big);
        assert_eq!(decode_embedded(&be, ByteOrder::Big), &text[..len]);
    }
}

#[test]
fn test_heap_layout_little() {
    let buf = encode_heap_words(0x1000, 20, ByteOrder::Little);
    // Length word first, least significant byte first: 20 << 1 == 40.
    assert_eq!(&buf[0..8], &[40, 0, 0, 0, 0, 0, 0, 0]);
    assert_eq!(&buf[8..16], &[0, 0x10, 0, 0, 0, 0, 0, 0]);
    // The stolen bit reads 0: the buffer does not look inline.
    assert_eq!(buf[0] & 1, 0);
    assert_eq!(decode_heap_words(&buf, ByteOrder::Little), (0x1000, 20));
}

#[test]
fn test_heap_layout_big() {
    let buf = encode_heap_words(0x1000, 20, ByteOrder::Big);
    // Pointer word first; the length word's least significant byte lands at
    // the far end, where the discriminant sits in this layout.
    assert_eq!(&buf[0..8], &[0, 0, 0, 0, 0, 0, 0x10, 0]);
    assert_eq!(&buf[8..16], &[0, 0, 0, 0, 0, 0, 0, 40]);
    assert_eq!(buf[15] & 1, 0);
    assert_eq!(decode_heap_words(&buf, ByteOrder::Big), (0x1000, 20));
}

#[test]
fn test_heap_round_trip_large_words() {
    let ptr: u64 = 0x7fff_fefd_fcfb_fa00;
    let len: u64 = 0x7fff_ffff_ffff_ffff;
    let le = encode_heap_words(ptr, len, ByteOrder::Little);
    assert_eq!(decode_heap_words(&le, ByteOrder::Little), (ptr, len));
    let be = encode_heap_words(ptr, len, ByteOrder::Big);
    assert_eq!(decode_heap_words(&be, ByteOrder::Big), (ptr, len));
}

#[test]
fn test_len_least_significant() {
    assert_eq!(len_least_significant([1, 2], ByteOrder::Little), [1, 2]);
    assert_eq!(len_least_significant([1, 2], ByteOrder::Big), [2, 1]);
}
