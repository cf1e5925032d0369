use engine::resource::ResourceError;
use engine::texture::{decode_texture_image, flip_vertical, prepare_texture_image, Texture};

// A 1x2 RGBA PNG: the top pixel red, the bottom pixel green.
const TINY_PNG: [u8; 71] = [
    137, 80, 78, 71, 13, 10, 26, 10, 0, 0, 0, 13, 73, 72, 68, 82, 0, 0, 0, 1, 0, 0, 0, 2, 8, 6,
    0, 0, 0, 153, 129, 182, 39, 0, 0, 0, 14, 73, 68, 65, 84, 120, 156, 99, 248, 207, 192, 0, 70,
    255, 1, 18, 247, 3, 253, 217, 179, 31, 45, 0, 0, 0, 0, 73, 69, 78, 68, 174, 66, 96, 130,
];

#[test]
fn new_texture_holds_no_image() {
    let t = Texture::new();
    assert_eq!((t.id, t.width, t.height), (0, 0, 0));
}

#[test]
fn decode_flips_rows() {
    let image = match decode_texture_image(&TINY_PNG) {
        Ok(image) => image,
        Err(_) => panic!("the embedded PNG must decode"),
    };
    assert_eq!((image.width, image.height), (1, 2));
    // decoded top-to-bottom as red then green; flipped for sampling
    assert_eq!(image.pixels, vec![0, 255, 0, 255, 255, 0, 0, 255]);
}

#[test]
fn garbage_bytes_fail_to_decode() {
    assert!(matches!(
        decode_texture_image(&[1, 2, 3, 4]),
        Err(ResourceError::DecodeFailed)
    ));
}

#[test]
fn wrong_buffer_length_refused() {
    assert!(matches!(
        prepare_texture_image(2, 2, vec![0; 15]),
        Err(ResourceError::SizeMismatch)
    ));
}

#[test]
fn prepare_accepts_exact_buffer() {
    let pixels: Vec<u8> = (0..16).collect();
    let image = match prepare_texture_image(2, 2, pixels) {
        Ok(image) => image,
        Err(_) => panic!("sixteen bytes are exactly a 2x2 RGBA image"),
    };
    assert_eq!((image.width, image.height), (2, 2));
    assert_eq!(
        image.pixels,
        vec![8, 9, 10, 11, 12, 13, 14, 15, 0, 1, 2, 3, 4, 5, 6, 7]
    );
}

#[test]
fn flip_reverses_rows() {
    let pixels: Vec<u8> = vec![1, 2, 3, 4, 5, 6, 7, 8, 9, 10, 11, 12];
    let flipped = flip_vertical(&pixels, 1, 3);
    assert_eq!(flipped, vec![9, 10, 11, 12, 5, 6, 7, 8, 1, 2, 3, 4]);
}

#[test]
fn flip_twice_restores_the_buffer() {
    let pixels: Vec<u8> = (0..24).collect();
    let twice = flip_vertical(&flip_vertical(&pixels, 2, 3), 2, 3);
    assert_eq!(twice, pixels);
}

#[test]
fn empty_image_flips_to_itself() {
    let flipped = flip_vertical(&Vec::new(), 0, 0);
    assert!(flipped.is_empty());
}
