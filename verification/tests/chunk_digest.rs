use sd_flasher::digest::{absorb, absorb_byte, chunk_digest, FNV_OFFSET, FNV_PRIME};

#[test]
fn digest_of_nothing_is_the_offset() {
    assert_eq!(FNV_OFFSET, 0xcbf29ce484222325);
    assert_eq!(FNV_PRIME, 0x100000001b3);
    assert_eq!(chunk_digest(&[]), 0xcbf29ce484222325);
}

#[test]
fn digest_has_the_published_values() {
    assert_eq!(chunk_digest(b"a"), 0xaf63dc4c8601ec8c);
    assert_eq!(chunk_digest(b"b"), 0xaf63df4c8601f1a5);
    assert_eq!(chunk_digest(b"foobar"), 0x85944171f73967e8);
    assert_eq!(chunk_digest(&[0u8]), 0xaf63bd4c8601b7df);
}

#[test]
fn one_step_mixes_and_multiplies() {
    assert_eq!(absorb_byte(FNV_OFFSET, b'a'), 0xaf63dc4c8601ec8c);
    assert_eq!(absorb_byte(0, 0), 0);
    assert_eq!(absorb_byte(0, 1), FNV_PRIME);
    assert_eq!(absorb_byte(u64::MAX, 0), u64::MAX.wrapping_mul(FNV_PRIME));
}

#[test]
fn absorbing_in_pieces_is_absorbing_the_whole() {
    let data: Vec<u8> = (0..=255u8).cycle().take(1000).collect();
    let whole = chunk_digest(&data);
    for cut in [0usize, 1, 7, 500, 999, 1000] {
        let (head, tail) = data.split_at(cut);
        assert_eq!(absorb(absorb(FNV_OFFSET, head), tail), whole);
    }
}

#[test]
fn one_altered_byte_alters_the_digest() {
    let data: Vec<u8> = (0..64u8).collect();
    let intact = chunk_digest(&data);
    for at in 0..data.len() {
        for value in [0u8, 1, 0x80, 0xff] {
            if value == data[at] {
                continue;
            }
            let mut altered = data.clone();
            altered[at] = value;
            assert_ne!(chunk_digest(&altered), intact);
        }
    }
}
