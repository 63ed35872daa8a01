use raytracer::{
    pack_rgb, rows_per_chunk, unpack_rgb, DecodedImage, Texture, FALLBACK_SIDE, MISSING_TEXEL,
    PLACEHOLDER_DARK, PLACEHOLDER_LIGHT,
};

#[test]
fn pack_rgb_places_channels() {
    assert_eq!(pack_rgb(0x12, 0x34, 0x56), 0x123456);
    assert_eq!(pack_rgb(255, 255, 255), 0xFFFFFF);
    assert_eq!(pack_rgb(0, 0, 0), 0);
}

#[test]
fn unpack_rgb_splits_channels() {
    assert_eq!(unpack_rgb(0x123456), (0x12, 0x34, 0x56));
    assert_eq!(unpack_rgb(0xFF123456), (0x12, 0x34, 0x56));
}

#[test]
fn pack_unpack_round_trip() {
    for &(r, g, b) in &[(0u8, 0u8, 0u8), (1, 2, 3), (255, 0, 128), (0xD4, 0xAF, 0x37)] {
        assert_eq!(unpack_rgb(pack_rgb(r, g, b)), (r, g, b));
    }
    for &hex in &[0u32, 0x2A2A2A, 0xD4AF37, 0xFFFFFF, 0x010203] {
        let (r, g, b) = unpack_rgb(hex);
        assert_eq!(pack_rgb(r, g, b), hex);
    }
}

#[test]
fn placeholder_has_checkerboard() {
    let t = Texture::placeholder(20, 10);
    assert_eq!(t.width, 20);
    assert_eq!(t.height, 10);
    assert_eq!(t.buffer.len(), 200);
    assert_eq!(t.buffer[0], PLACEHOLDER_LIGHT);
    assert_eq!(t.buffer[7], PLACEHOLDER_LIGHT);
    assert_eq!(t.buffer[8], PLACEHOLDER_DARK);
    assert_eq!(t.buffer[16], PLACEHOLDER_LIGHT);
    assert_eq!(t.buffer[8 * 20], PLACEHOLDER_DARK);
    assert_eq!(t.buffer[8 * 20 + 8], PLACEHOLDER_LIGHT);
    assert_eq!(PLACEHOLDER_LIGHT, 0xD4AF37);
    assert_eq!(PLACEHOLDER_DARK, 0x2A2A2A);
}

#[test]
fn placeholder_of_zero_size_is_empty() {
    let t = Texture::placeholder(0, 5);
    assert_eq!(t.buffer.len(), 0);
    assert_eq!(t.get_pixel(0, 0), MISSING_TEXEL);
    let t = Texture::placeholder(5, 0);
    assert_eq!(t.buffer.len(), 0);
    assert_eq!(t.get_pixel(3, 3), 0xFFFFFF);
}

#[test]
fn get_pixel_clamps_coordinates() {
    let t = Texture { width: 3, height: 2, buffer: vec![1, 2, 3, 4, 5, 6] };
    assert_eq!(t.get_pixel(0, 0), 1);
    assert_eq!(t.get_pixel(2, 0), 3);
    assert_eq!(t.get_pixel(1, 1), 5);
    assert_eq!(t.get_pixel(100, 0), 3);
    assert_eq!(t.get_pixel(0, 100), 4);
    assert_eq!(t.get_pixel(usize::MAX, usize::MAX), 6);
}

#[test]
fn get_pixel_of_blank_texture_is_white() {
    let t = Texture { width: 4, height: 4, buffer: vec![] };
    assert_eq!(t.get_pixel(1, 1), MISSING_TEXEL);
    let t = Texture { width: 0, height: 4, buffer: vec![7] };
    assert_eq!(t.get_pixel(0, 0), MISSING_TEXEL);
}

#[test]
fn placeholder_sampling_follows_checkerboard() {
    let t = Texture::placeholder(16, 16);
    assert_eq!(t.get_pixel(0, 0), PLACEHOLDER_LIGHT);
    assert_eq!(t.get_pixel(8, 0), PLACEHOLDER_DARK);
    assert_eq!(t.get_pixel(8, 8), PLACEHOLDER_LIGHT);
    assert_eq!(t.get_pixel(100, 3), PLACEHOLDER_DARK);
    assert_eq!(t.get_pixel(100, 100), PLACEHOLDER_LIGHT);
}

#[test]
fn decoded_image_is_packed() {
    let img = DecodedImage {
        width: 2,
        height: 2,
        data: vec![255, 0, 0, 0, 255, 0, 0, 0, 255, 1, 2, 3],
    };
    let t = Texture::from_decoded(Some(img));
    assert_eq!(t.width, 2);
    assert_eq!(t.height, 2);
    assert_eq!(t.buffer, vec![0xFF0000, 0x00FF00, 0x0000FF, 0x010203]);
    assert_eq!(unpack_rgb(t.get_pixel(1, 1)), (1, 2, 3));
    assert_eq!(unpack_rgb(t.get_pixel(5, 0)), (0, 255, 0));
}

#[test]
fn missing_image_falls_back_to_placeholder() {
    let t = Texture::from_decoded(None);
    assert_eq!(t.width, FALLBACK_SIDE);
    assert_eq!(t.height, 64);
    assert_eq!(t.buffer.len(), 64 * 64);
    assert_eq!(t.buffer, Texture::placeholder(64, 64).buffer);
}

#[test]
fn describe_reports_size() {
    let t = Texture::placeholder(64, 64);
    assert_eq!(t.describe(), "Texture(64x64, 4096 pixels)");
    let t = Texture { width: 0, height: 10, buffer: vec![] };
    assert_eq!(t.describe(), "Texture(0x10, 0 pixels)");
    let t = Texture { width: 3, height: 2, buffer: vec![1, 2, 3, 4, 5, 6] };
    assert_eq!(t.describe(), "Texture(3x2, 6 pixels)");
}

#[test]
fn push_decimal_writes_digits() {
    let mut s = String::from("n=");
    raytracer::push_decimal(&mut s, 0);
    assert_eq!(s, "n=0");
    let mut s = String::new();
    raytracer::push_decimal(&mut s, 1234567890);
    assert_eq!(s, "1234567890");
}

#[test]
fn rows_per_chunk_rounds_up() {
    assert_eq!(rows_per_chunk(600, 4), 150);
    assert_eq!(rows_per_chunk(600, 7), 86);
    assert_eq!(rows_per_chunk(0, 3), 0);
    assert_eq!(rows_per_chunk(5, 8), 1);
    assert_eq!(rows_per_chunk(1, 1), 1);
}

#[test]
fn chunks_cover_every_row() {
    for &(height, threads) in &[(600usize, 7usize), (600, 4), (5, 8), (13, 3)] {
        let rows = rows_per_chunk(height, threads);
        for y in 0..height {
            assert!(y / rows < threads);
        }
        assert!(rows * threads >= height);
        assert!(rows * threads < height + threads);
    }
}
