use image::DynamicImage;
use image::ImageBuffer;
use image::ImageFormat;
use physics_sync::texture::byte_count;
use physics_sync::texture::PngTextureLoader;

const RGB_2X1: [u8; 72] = [
    137, 80, 78, 71, 13, 10, 26, 10, 0, 0, 0, 13, 73, 72, 68, 82, 0, 0, 0, 2, 0, 0, 0, 1, 8, 2, 0,
    0, 0, 123, 64, 232, 221, 0, 0, 0, 15, 73, 68, 65, 84, 120, 218, 99, 248, 207, 192, 192, 240,
    159, 1, 0, 7, 255, 1, 255, 184, 4, 53, 224, 0, 0, 0, 0, 73, 69, 78, 68, 174, 66, 96, 130,
];

const RGBA_1X2: [u8; 75] = [
    137, 80, 78, 71, 13, 10, 26, 10, 0, 0, 0, 13, 73, 72, 68, 82, 0, 0, 0, 1, 0, 0, 0, 2, 8, 6, 0,
    0, 0, 153, 129, 182, 39, 0, 0, 0, 18, 73, 68, 65, 84, 120, 218, 99, 96, 100, 98, 102, 97, 96,
    101, 99, 231, 0, 0, 0, 140, 0, 37, 210, 32, 80, 25, 0, 0, 0, 0, 73, 69, 78, 68, 174, 66, 96,
    130,
];

fn decode(data: &[u8]) -> Option<PngTextureLoader> {
    let decoded = image::load_from_memory_with_format(data, ImageFormat::PNG).ok()?;
    PngTextureLoader::from_image(&decoded)
}

#[test]
fn opaque_pixels_gain_a_full_alpha_byte() {
    let t = decode(&RGB_2X1).unwrap();
    assert_eq!(t.width(), 2);
    assert_eq!(t.height(), 1);
    assert_eq!(t.pixels(), &vec![255, 0, 0, 255, 0, 255, 0, 255]);
}

#[test]
fn pixels_with_alpha_come_out_as_they_are() {
    let t = decode(&RGBA_1X2).unwrap();
    assert_eq!(t.width(), 1);
    assert_eq!(t.height(), 2);
    assert_eq!(t.pixels(), &vec![1, 2, 3, 4, 5, 6, 7, 8]);
    assert_eq!(t.into_parts(), (1, 2, vec![1, 2, 3, 4, 5, 6, 7, 8]));
}

#[test]
fn grey_pixels_are_spread_over_three_channels() {
    let grey = DynamicImage::ImageLuma8(ImageBuffer::from_raw(2, 1, vec![7, 9]).unwrap());
    let t = PngTextureLoader::from_image(&grey).unwrap();
    assert_eq!(t.into_parts(), (2, 1, vec![7, 7, 7, 255, 9, 9, 9, 255]));
}

#[test]
fn texture_of_an_image_has_four_bytes_for_each_pixel() {
    let wide = DynamicImage::ImageRgb8(ImageBuffer::new(5, 3));
    let t = PngTextureLoader::from_image(&wide).unwrap();
    assert_eq!((t.width(), t.height()), (5, 3));
    assert_eq!(t.pixels().len(), 60);
    let none = DynamicImage::ImageLumaA8(ImageBuffer::new(0, 9));
    let t = PngTextureLoader::from_image(&none).unwrap();
    assert_eq!(t.into_parts(), (0, 9, vec![]));
}

#[test]
fn image_with_a_longer_buffer_gives_only_its_pixels() {
    let padded =
        DynamicImage::ImageRgba8(ImageBuffer::from_raw(1, 1, vec![1, 2, 3, 4, 5, 6]).unwrap());
    let t = PngTextureLoader::from_image(&padded).unwrap();
    assert_eq!(t.into_parts(), (1, 1, vec![1, 2, 3, 4]));
}

#[test]
fn decoding_twice_gives_the_same_texture() {
    assert_eq!(decode(&RGB_2X1), decode(&RGB_2X1));
}

#[test]
fn bytes_that_are_no_png_give_nothing() {
    assert_eq!(decode(&[]), None);
    assert_eq!(decode(b"not a picture"), None);
    assert_eq!(decode(&RGB_2X1[..40]), None);
}

#[test]
fn from_pixels_wants_four_bytes_for_each_pixel() {
    let t = PngTextureLoader::from_pixels(1, 2, vec![9, 8, 7, 6, 5, 4, 3, 2]).unwrap();
    assert_eq!(t.width(), 1);
    assert_eq!(t.height(), 2);
    assert_eq!(t.pixels(), &vec![9, 8, 7, 6, 5, 4, 3, 2]);
    assert_eq!(PngTextureLoader::from_pixels(3, 5, vec![9, 8, 7]), None);
    assert_eq!(PngTextureLoader::from_pixels(1, 2, vec![0; 7]), None);
    assert_eq!(PngTextureLoader::from_pixels(1, 2, vec![0; 9]), None);
    assert!(PngTextureLoader::from_pixels(0, 7, vec![]).is_some());
    assert!(PngTextureLoader::from_pixels(u32::MAX, 0, vec![]).is_some());
    assert_eq!(PngTextureLoader::from_pixels(u32::MAX, u32::MAX, vec![]), None);
}

#[test]
fn byte_count_is_four_for_each_pixel() {
    assert_eq!(byte_count(0, 0), 0);
    assert_eq!(byte_count(2, 3), 24);
    assert_eq!(byte_count(u32::MAX, u32::MAX), 4 * (u32::MAX as u128) * (u32::MAX as u128));
}
