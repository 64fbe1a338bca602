use snipd::capture::pixels::{
    bgra_to_rgba, decode_any, decode_capture, encode_capture, encode_preview, encode_thumbnail,
    force_opaque, Image,
};
use snipd::config::ImageFormat;

fn picture(width: u32, height: u32) -> Image {
    let count = 4 * width as usize * height as usize;
    let bytes: Vec<u8> = (0..count).map(|i| (i * 37 % 251) as u8).collect();
    Image::from_raw(width, height, bytes).unwrap()
}

#[test]
fn new_pictures_are_clear() {
    let image = Image::new(3, 2);
    assert_eq!(image.dimensions(), (3, 2));
    assert_eq!((image.width(), image.height()), (3, 2));
    assert_eq!(*image.as_raw(), vec![0u8; 24]);
}

#[test]
fn bytes_have_to_suffice() {
    assert!(Image::from_raw(2, 2, vec![0; 15]).is_none());
    assert!(Image::from_raw(2, 2, vec![0; 16]).is_some());
    let more = Image::from_raw(1, 1, vec![1, 2, 3, 4, 5]).unwrap();
    assert_eq!(*more.as_raw(), vec![1, 2, 3, 4]);
}

#[test]
fn parts_are_copied_row_by_row() {
    let image = picture(4, 3);
    let part = image.crop(1, 1, 2, 2);
    for x in 0..2 {
        for y in 0..2 {
            assert_eq!(part.get_pixel(x, y), image.get_pixel(1 + x, 1 + y));
        }
    }
    assert_eq!(image.crop(4, 3, 0, 0).as_raw().len(), 0);
}

#[test]
fn coverage_changes_alpha_alone() {
    let image = Image::from_raw(2, 1, vec![1, 2, 3, 4, 5, 6, 7, 8]).unwrap();
    let masked = image.apply_coverage(&vec![9]);
    // A missing value leaves its pixel alone.
    assert_eq!(*masked.as_raw(), vec![1, 2, 3, 9, 5, 6, 7, 8]);
}

#[test]
fn alpha_is_dropped_for_three_bytes_a_pixel() {
    let image = Image::from_raw(2, 1, vec![1, 2, 3, 4, 5, 6, 7, 8]).unwrap();
    assert_eq!(image.to_rgb(), vec![1, 2, 3, 5, 6, 7]);
}

#[test]
fn screen_bytes_become_opaque() {
    let mut bytes = vec![1, 2, 3, 0, 4, 5, 6, 7, 8];
    force_opaque(&mut bytes);
    assert_eq!(bytes, vec![1, 2, 3, 255, 4, 5, 6, 255, 8]);
    bgra_to_rgba(&mut bytes);
    assert_eq!(bytes, vec![3, 2, 1, 255, 6, 5, 4, 255, 8]);
}

#[test]
fn png_files_read_back() {
    let image = picture(7, 5);
    let file = encode_capture(&image, ImageFormat::Png, 92).unwrap();
    assert_eq!(file[..8], [0x89, 0x50, 0x4e, 0x47, 0x0d, 0x0a, 0x1a, 0x0a]);
    let read = decode_capture(&file, ImageFormat::Png).unwrap();
    assert_eq!(read.dimensions(), (7, 5));
    assert_eq!(read.as_raw(), image.as_raw());
    let told = decode_any(&file).unwrap();
    assert_eq!(told.as_raw(), image.as_raw());
}

#[test]
fn jpeg_files_are_nearly_the_same() {
    let grey = Image::from_raw(8, 8, vec![128; 256]).unwrap();
    let file = encode_capture(&grey, ImageFormat::Jpeg, 92).unwrap();
    assert_eq!(file[..2], [0xff, 0xd8]);
    let read = decode_capture(&file, ImageFormat::Jpeg).unwrap();
    assert_eq!(read.dimensions(), (8, 8));
    let pixel = read.get_pixel(3, 3);
    assert!((126..=130).contains(&pixel[0]));
    assert_eq!(pixel[3], 255);
    assert_eq!(decode_any(&file).unwrap().dimensions(), (8, 8));
}

#[test]
fn quality_changes_the_file() {
    let image = picture(32, 32);
    let fine = encode_capture(&image, ImageFormat::Jpeg, 95).unwrap();
    let coarse = encode_capture(&image, ImageFormat::Jpeg, 5).unwrap();
    assert!(coarse.len() < fine.len());
}

#[test]
fn pictures_without_pixels_are_not_encoded() {
    let empty = Image::new(0, 5);
    let png = encode_capture(&empty, ImageFormat::Png, 92).unwrap_err();
    assert!(png.starts_with("encoding PNG: "), "got {png}");
    let jpeg = encode_capture(&empty, ImageFormat::Jpeg, 92).unwrap_err();
    assert!(jpeg.starts_with("encoding JPEG: "), "got {jpeg}");
    let preview = encode_preview(&empty).unwrap_err();
    assert!(preview.starts_with("encoding overlay backdrop: "), "got {preview}");
    let thumbnail = encode_thumbnail(&Vec::new(), 0, 0).unwrap_err();
    assert!(thumbnail.starts_with("encoding thumbnail: "), "got {thumbnail}");
}

#[test]
fn wide_pictures_are_for_png_only() {
    let wide = Image::new(65_536, 1);
    assert!(encode_capture(&wide, ImageFormat::Png, 92).is_ok());
    assert!(encode_capture(&wide, ImageFormat::Jpeg, 92).is_err());
    let fits = Image::new(65_535, 1);
    assert!(encode_capture(&fits, ImageFormat::Jpeg, 92).is_ok());
}

#[test]
fn previews_and_thumbnails_are_jpeg() {
    let image = picture(16, 9);
    assert_eq!(encode_preview(&image).unwrap()[..2], [0xff, 0xd8]);
    assert_eq!(encode_thumbnail(&image.to_rgb(), 16, 9).unwrap()[..2], [0xff, 0xd8]);
}

#[test]
fn other_bytes_are_no_picture() {
    assert!(decode_capture(&vec![1, 2, 3], ImageFormat::Png).is_err());
    assert!(decode_capture(&Vec::new(), ImageFormat::Jpeg).is_err());
    assert!(decode_any(&vec![0x42; 40]).is_err());
    // A PNG file is none under another format's name.
    let file = encode_capture(&picture(2, 2), ImageFormat::Png, 92).unwrap();
    assert!(decode_capture(&file, ImageFormat::Jpeg).is_err());
}
