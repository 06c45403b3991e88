use platform_passer::imaging::{
    decoded_or_error, encoded_or_error, png_to_rgba, rgba_to_png, ImageError, RgbaImage,
};

const PNG_SIGNATURE: [u8; 8] = [0x89, b'P', b'N', b'G', 0x0D, 0x0A, 0x1A, 0x0A];

fn pixels(width: usize, height: usize) -> Vec<u8> {
    (0..width * height * 4).map(|i| (i * 37 % 256) as u8).collect()
}

#[test]
fn an_image_becomes_a_png_file() {
    let png = rgba_to_png(3, 2, pixels(3, 2)).unwrap();
    assert_eq!(&png[..8], &PNG_SIGNATURE);
    assert_eq!(&png[12..16], b"IHDR");
    assert_eq!(&png[16..24], &[0, 0, 0, 3, 0, 0, 0, 2]);
    assert_ne!(png, pixels(3, 2));
}

#[test]
fn an_image_comes_back_from_its_png_file() {
    for (width, height) in [(1, 1), (3, 2), (16, 9), (1, 40)] {
        let image = pixels(width, height);
        let png = rgba_to_png(width, height, image.clone()).unwrap();
        assert_eq!(png_to_rgba(&png), Ok(RgbaImage { width, height, bytes: image }));
    }
}

#[test]
fn the_same_image_gives_the_same_file() {
    assert_eq!(rgba_to_png(4, 4, pixels(4, 4)), rgba_to_png(4, 4, pixels(4, 4)));
}

#[test]
fn bytes_beyond_the_last_pixel_are_not_part_of_the_image() {
    let mut longer = pixels(2, 2);
    longer.extend_from_slice(&[1, 2, 3, 4, 5]);
    assert_eq!(rgba_to_png(2, 2, longer), rgba_to_png(2, 2, pixels(2, 2)));
}

#[test]
fn too_few_pixels_are_an_invalid_buffer() {
    let mut short = pixels(2, 2);
    short.pop();
    assert_eq!(rgba_to_png(2, 2, short), Err(ImageError::InvalidBuffer));
    assert_eq!(rgba_to_png(1, 1, vec![]), Err(ImageError::InvalidBuffer));
    assert_eq!(rgba_to_png(usize::MAX, 1, vec![0; 16]), Err(ImageError::InvalidBuffer));
    assert_eq!(rgba_to_png(1 << 31, 1 << 31, vec![0; 16]), Err(ImageError::InvalidBuffer));
    assert_eq!(rgba_to_png(u32::MAX as usize, u32::MAX as usize, vec![0; 16]), Err(ImageError::InvalidBuffer));
}

#[test]
fn an_image_without_pixels_cannot_be_written() {
    assert_eq!(rgba_to_png(0, 0, vec![]), Err(ImageError::EncodeFailed));
    assert_eq!(rgba_to_png(0, 5, vec![1, 2, 3]), Err(ImageError::EncodeFailed));
}

#[test]
fn bytes_that_are_no_image_cannot_be_read() {
    assert_eq!(png_to_rgba(&[]), Err(ImageError::DecodeFailed));
    assert_eq!(png_to_rgba(b"hello world!"), Err(ImageError::DecodeFailed));
    assert_eq!(png_to_rgba(&PNG_SIGNATURE), Err(ImageError::DecodeFailed));
    let mut cut = rgba_to_png(3, 2, pixels(3, 2)).unwrap();
    cut.truncate(30);
    assert_eq!(png_to_rgba(&cut), Err(ImageError::DecodeFailed));
}

#[test]
fn outcomes_of_the_codec_are_passed_on() {
    assert_eq!(encoded_or_error(Some(vec![1, 2])), Ok(vec![1, 2]));
    assert_eq!(encoded_or_error(None), Err(ImageError::EncodeFailed));
    assert_eq!(
        decoded_or_error(Some((2, 1, vec![0; 8]))),
        Ok(RgbaImage { width: 2, height: 1, bytes: vec![0; 8] })
    );
    assert_eq!(decoded_or_error(None), Err(ImageError::DecodeFailed));
}
