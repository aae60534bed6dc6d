use vr8_core::samples::{append_window, decode_samples, decode_windowed, sample_from_le_bytes};

fn ramp(len: usize) -> Vec<u8> {
    (0..len).map(|i| (i * 7 + 3) as u8).collect()
}

#[test]
fn combines_bytes_low_first() {
    assert_eq!(sample_from_le_bytes(0x00, 0x00), 0);
    assert_eq!(sample_from_le_bytes(0x01, 0x00), 1);
    assert_eq!(sample_from_le_bytes(0x00, 0x01), 256);
    assert_eq!(sample_from_le_bytes(0xff, 0x7f), i16::MAX);
    assert_eq!(sample_from_le_bytes(0x00, 0x80), i16::MIN);
    assert_eq!(sample_from_le_bytes(0xff, 0xff), -1);
    assert_eq!(sample_from_le_bytes(0x34, 0x12), 0x1234);
}

#[test]
fn combines_every_pair_like_the_standard_library() {
    for lo in 0..=255u8 {
        for hi in 0..=255u8 {
            assert_eq!(sample_from_le_bytes(lo, hi), i16::from_le_bytes([lo, hi]));
        }
    }
}

#[test]
fn even_length_gives_half_as_many_samples() {
    for len in [0usize, 2, 4, 10, 1000] {
        assert_eq!(decode_samples(&ramp(len)).len(), len / 2);
    }
}

#[test]
fn odd_length_drops_the_last_byte() {
    for len in [1usize, 3, 11, 1001] {
        let data = ramp(len);
        let samples = decode_samples(&data);
        assert_eq!(samples.len(), (len - 1) / 2);
        assert_eq!(samples, decode_samples(&data[..len - 1]));
    }
}

#[test]
fn decodes_in_arrival_order() {
    let samples = decode_samples(&[0x01, 0x00, 0x02, 0x00, 0xfe, 0xff, 0x09]);
    assert_eq!(samples, vec![1, 2, -2]);
}

#[test]
fn empty_input_has_no_samples() {
    assert_eq!(decode_samples(&[]), Vec::<i16>::new());
    assert_eq!(decode_windowed(&[], 2), Vec::<i16>::new());
}

#[test]
fn windows_give_the_samples_of_the_whole() {
    for len in [0usize, 1, 2, 3, 7, 8, 63, 64, 65, 1000, 1001] {
        let data = ramp(len);
        let whole = decode_samples(&data);
        for window in [2usize, 4, 6, 64, 1024] {
            assert_eq!(decode_windowed(&data, window), whole, "len {} window {}", len, window);
        }
    }
}

#[test]
fn appending_windows_one_by_one_gives_the_samples_of_the_whole() {
    let data = ramp(1001);
    let mut samples = Vec::new();
    for window in data.chunks(64) {
        append_window(&mut samples, window);
    }
    assert_eq!(samples, decode_samples(&data));
}

#[test]
fn appending_keeps_what_was_there() {
    let mut samples = vec![5i16, 6];
    append_window(&mut samples, &[0x07, 0x00, 0x08]);
    assert_eq!(samples, vec![5, 6, 7]);
}
