use oodle_rs::util::vec::Vec4D;
use oodle_rs::{CompressOptions, CompressionLevel, Compressor, Jobify, Profile};

#[test]
fn default_options() {
    let o = CompressOptions::new();
    assert_eq!(o.min_match_len(), 0);
    assert!(!o.seek_chunk_reset());
    assert_eq!(o.seek_chunk_len(), 1 << 18);
    assert_eq!(o.profile(), Profile::Main);
    assert_eq!(o.dictionary_size(), 0);
    assert_eq!(o.space_speed_tradeoff_bytes(), 256);
    assert!(!o.send_quantum_crcs());
    assert_eq!(o.max_local_dictionary_size(), 2 << 20);
    assert!(o.make_long_range_matcher());
    assert_eq!(o.match_table_size_log2(), 0);
    assert_eq!(o.far_match_min_len(), 0);
    assert_eq!(o.far_match_offset_log2(), 0);
    assert_eq!(CompressOptions::default(), o);
    assert_eq!(CompressOptions::builder().build(), o);
}

#[test]
fn builder_sets_each_field() {
    let o = CompressOptions::builder()
        .min_match_len(8)
        .seek_chunk_reset(true)
        .seek_chunk_len(1 << 20)
        .profile(Profile::Reduced)
        .dictionary_size(4096)
        .space_speed_tradeoff_bytes(128)
        .send_quantum_crcs(true)
        .max_local_dictionary_size(1 << 24)
        .make_long_range_matcher(false)
        .match_table_size_log2(19)
        .far_match_min_len(12)
        .far_match_offset_log2(22)
        .build();
    assert_eq!(o.min_match_len(), 8);
    assert!(o.seek_chunk_reset());
    assert_eq!(o.seek_chunk_len(), 1 << 20);
    assert_eq!(o.profile(), Profile::Reduced);
    assert_eq!(o.dictionary_size(), 4096);
    assert_eq!(o.space_speed_tradeoff_bytes(), 128);
    assert!(o.send_quantum_crcs());
    assert_eq!(o.max_local_dictionary_size(), 1 << 24);
    assert!(!o.make_long_range_matcher());
    assert_eq!(o.match_table_size_log2(), 19);
    assert_eq!(o.far_match_min_len(), 12);
    assert_eq!(o.far_match_offset_log2(), 22);
}

#[test]
fn setting_one_field_keeps_the_others() {
    let o = CompressOptions::builder().send_quantum_crcs(true).build();
    let d = CompressOptions::new();
    assert!(o.send_quantum_crcs());
    assert_eq!(o.min_match_len(), d.min_match_len());
    assert_eq!(o.seek_chunk_len(), d.seek_chunk_len());
    assert_eq!(o.space_speed_tradeoff_bytes(), d.space_speed_tradeoff_bytes());
    assert_eq!(o.max_local_dictionary_size(), d.max_local_dictionary_size());
    assert_ne!(o, d);
    // The last setting of a field wins.
    let o = CompressOptions::builder().min_match_len(4).min_match_len(6).build();
    assert_eq!(o.min_match_len(), 6);
}

#[test]
fn enum_defaults_and_levels() {
    assert_eq!(Compressor::default(), Compressor::Kraken);
    assert_eq!(CompressionLevel::default(), CompressionLevel::Normal);
    assert_eq!(Jobify::default(), Jobify::Default);
    assert_eq!(Profile::default(), Profile::Main);
    assert_eq!(CompressionLevel::HYPER_FAST, CompressionLevel::HyperFast1);
    assert_eq!(CompressionLevel::OPTIMAL, CompressionLevel::Optimal2);
    assert_eq!(CompressionLevel::MAX, CompressionLevel::Optimal5);
    assert_eq!(CompressionLevel::MIN, CompressionLevel::HyperFast4);
}

#[test]
fn vec4d_lane_operations() {
    let a = Vec4D::from_array([1u32, 0x8000_0000, u32::MAX, 7]);
    let b = Vec4D::splat(2u32);
    assert_eq!(<[u32; 4]>::from(b), [2, 2, 2, 2]);
    assert_eq!(<[u32; 4]>::from(a.wrapping_add(b)), [3, 0x8000_0002, 1, 9]);
    assert_eq!(
        <[u32; 4]>::from(a.wrapping_sub(b)),
        [u32::MAX, 0x7FFF_FFFE, u32::MAX - 2, 5]
    );
    let mut x = a;
    x ^= b;
    assert_eq!(<[u32; 4]>::from(x), [3, 0x8000_0002, u32::MAX - 2, 5]);
    assert_eq!(
        <[u32; 4]>::from(a.rotate_left(1)),
        [2, 1, u32::MAX, 14]
    );
    assert_eq!(<[u32; 4]>::from(a.rotate_left(32)), [1, 0x8000_0000, u32::MAX, 7]);
    assert_eq!(<[u32; 4]>::from(a.rotate_left(4)), [16, 8, u32::MAX, 112]);
}

#[test]
fn vec4d_other_lane_types() {
    let a = Vec4D::from_array([0x81u8, 1, 0xFF, 0x10]);
    assert_eq!(<[u8; 4]>::from(a.rotate_left(1)), [0x03, 2, 0xFF, 0x20]);
    assert_eq!(<[u8; 4]>::from(a.rotate_left(9)), [0x03, 2, 0xFF, 0x20]);
    assert_eq!(<[u8; 4]>::from(a.wrapping_add(Vec4D::splat(0x80))), [1, 0x81, 0x7F, 0x90]);
    assert_eq!(<[u8; 4]>::from(a.wrapping_sub(Vec4D::splat(2))), [0x7F, 0xFF, 0xFD, 0x0E]);
    let mut x = a;
    x ^= Vec4D::splat(0xFF);
    assert_eq!(<[u8; 4]>::from(x), [0x7E, 0xFE, 0x00, 0xEF]);

    let b = Vec4D::from_array([0x8000u16, 1, 2, 3]);
    assert_eq!(<[u16; 4]>::from(b.rotate_left(1)), [1, 2, 4, 6]);
    let c = Vec4D::from_array([1u64 << 63, 1, 2, 3]);
    assert_eq!(<[u64; 4]>::from(c.rotate_left(1)), [1, 2, 4, 6]);
    let u = Vec4D::from_array([usize::MAX, 0, 1, 2]);
    assert_eq!(<[usize; 4]>::from(u.wrapping_add(Vec4D::splat(1))), [0, 1, 2, 3]);
    assert_eq!(<[usize; 4]>::from(u.rotate_left(1)), [usize::MAX, 0, 2, 4]);

    let s = Vec4D::from_array([-1i8, i8::MIN, 1, 0x40]);
    assert_eq!(<[i8; 4]>::from(s.rotate_left(1)), [-1, 1, 2, i8::MIN]);
    assert_eq!(<[i8; 4]>::from(s.wrapping_sub(Vec4D::splat(1))), [-2, i8::MAX, 0, 0x3F]);
    let t = Vec4D::from_array([i16::MAX, -2, 0, 5]);
    assert_eq!(<[i16; 4]>::from(t.wrapping_add(Vec4D::splat(1))), [i16::MIN, -1, 1, 6]);
    let w = Vec4D::from_array([i32::MIN, -1, 3, 7]);
    assert_eq!(<[i32; 4]>::from(w.rotate_left(1)), [1, -1, 6, 14]);
    let mut y = w;
    y ^= Vec4D::splat(-1);
    assert_eq!(<[i32; 4]>::from(y), [i32::MAX, 0, -4, -8]);
    let v = Vec4D::from_array([i64::MIN, 1, 2, 3]);
    assert_eq!(<[i64; 4]>::from(v.wrapping_sub(Vec4D::splat(1))), [i64::MAX, 0, 1, 2]);
    let z = Vec4D::from_array([isize::MIN, 1, 2, 3]);
    assert_eq!(<[isize; 4]>::from(z.rotate_left(1)), [1, 2, 4, 6]);
}
