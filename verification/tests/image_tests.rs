use veritas::image_io::{
    blur_pixels, crop_pixels, grayscale_pixels, image_to_pixel_vectors, image_to_png_bytes, load_image_from_bytes,
    pixel_vectors_to_image, resize_pixels, ImageError, PixelVectors, RgbBuffer,
};

fn grid(width: u32, height: u32) -> PixelVectors {
    let n = (width * height) as usize;
    PixelVectors {
        r: (0..n).map(|i| i as u8).collect(),
        g: (0..n).map(|i| (i * 2) as u8).collect(),
        b: (0..n).map(|i| (255 - i) as u8).collect(),
        width,
        height,
    }
}

#[test]
fn pixel_count_is_channel_length() {
    assert_eq!(grid(4, 3).pixel_count(), 12);
}

#[test]
fn crop_takes_region_row_by_row() {
    let p = grid(4, 3);
    let c = crop_pixels(&p, 1, 1, 2, 2).unwrap();
    assert_eq!((c.width, c.height), (2, 2));
    assert_eq!(c.r, vec![5, 6, 9, 10]);
    assert_eq!(c.g, vec![10, 12, 18, 20]);
    assert_eq!(c.b, vec![250, 249, 246, 245]);
}

#[test]
fn crop_whole_image_is_identity() {
    let p = grid(3, 2);
    let c = crop_pixels(&p, 0, 0, 3, 2).unwrap();
    assert_eq!(c.r, p.r);
    assert_eq!(c.g, p.g);
    assert_eq!(c.b, p.b);
}

#[test]
fn crop_out_of_bounds_is_refused() {
    let p = grid(4, 3);
    let e = crop_pixels(&p, 3, 0, 2, 1).err().unwrap();
    assert_eq!(
        e,
        ImageError::CropOutOfBounds { x: 3, y: 0, width: 2, height: 1, image_width: 4, image_height: 3 }
    );
    assert_eq!(e.message(), "Crop region (3,0 2x1) exceeds image bounds (4x3)");
}

#[test]
fn image_error_messages() {
    let e = ImageError::BlurOutOfBounds { x: 10, y: 205, width: 7, height: 1, image_width: 12, image_height: 200 };
    assert_eq!(e.message(), "Blur region (10,205 7x1) exceeds image bounds (12x200)");
    let e = ImageError::LengthMismatch { expected: 6, r: 6, g: 5, b: 0 };
    assert_eq!(e.message(), "Pixel vector length mismatch: expected 6, got r=6, g=5, b=0");
    assert_eq!(
        ImageError::Decode.message(),
        "Failed to load image. Supported formats: PNG, JPEG, WebP, GIF. HEIC/HEIF is NOT supported."
    );
    assert_eq!(ImageError::Encode.message(), "Failed to encode image to PNG");
}

#[test]
fn grayscale_uses_photoshop_weights() {
    let p = PixelVectors { r: vec![100, 0, 255], g: vec![150, 2, 255], b: vec![200, 12, 255], width: 3, height: 1 };
    let gray = grayscale_pixels(&p);
    // 0.30*100 + 0.59*150 + 0.11*200 = 140.5 -> 141; 2.5 -> 3 (halves round up); 255 stays 255
    assert_eq!(gray.r, vec![141, 3, 255]);
    assert_eq!(gray.g, gray.r);
    assert_eq!(gray.b, gray.r);
    assert_eq!((gray.width, gray.height), (3, 1));
}

#[test]
fn grayscale_twice_equals_once() {
    let p = grid(5, 2);
    let once = grayscale_pixels(&p);
    let twice = grayscale_pixels(&once);
    assert_eq!(once.r, twice.r);
}

#[test]
fn blur_averages_interior_only() {
    let p = PixelVectors {
        r: vec![0, 0, 0, 0, 90, 0, 0, 0, 0],
        g: vec![9; 9],
        b: vec![1, 2, 3, 4, 5, 6, 7, 8, 9],
        width: 3,
        height: 3,
    };
    let out = blur_pixels(&p, 0, 0, 3, 3).unwrap();
    assert_eq!(out.r, vec![0, 0, 0, 0, 10, 0, 0, 0, 0]);
    assert_eq!(out.g, vec![9; 9]);
    assert_eq!(out.b, vec![1, 2, 3, 4, 5, 6, 7, 8, 9]);
}

#[test]
fn blur_rounds_down() {
    let p = PixelVectors { r: vec![0, 0, 0, 0, 17, 0, 0, 0, 0], g: vec![0; 9], b: vec![0; 9], width: 3, height: 3 };
    let out = blur_pixels(&p, 0, 0, 3, 3).unwrap();
    assert_eq!(out.r[4], 1);
}

#[test]
fn blur_thin_region_changes_nothing() {
    let p = grid(4, 4);
    let out = blur_pixels(&p, 0, 0, 2, 4).unwrap();
    assert_eq!(out.r, p.r);
}

#[test]
fn blur_out_of_bounds_is_refused() {
    let p = grid(3, 3);
    let e = blur_pixels(&p, 1, 1, 3, 1).err().unwrap();
    assert_eq!(
        e,
        ImageError::BlurOutOfBounds { x: 1, y: 1, width: 3, height: 1, image_width: 3, image_height: 3 }
    );
}

#[test]
fn resize_to_same_size_is_identity() {
    let p = grid(4, 3);
    let out = resize_pixels(&p, 4, 3);
    assert_eq!(out.r, p.r);
    assert_eq!(out.g, p.g);
    assert_eq!(out.b, p.b);
}

#[test]
fn resize_interpolates_bilinearly() {
    let p = PixelVectors { r: vec![0, 100], g: vec![0, 101], b: vec![10, 10], width: 2, height: 1 };
    let out = resize_pixels(&p, 3, 1);
    assert_eq!((out.width, out.height), (3, 1));
    assert_eq!(out.r, vec![0, 50, 100]);
    assert_eq!(out.g, vec![0, 51, 101]);
    assert_eq!(out.b, vec![10, 10, 10]);
}

#[test]
fn resize_down_to_one_pixel_takes_top_left() {
    let p = grid(3, 3);
    let out = resize_pixels(&p, 1, 1);
    assert_eq!(out.r, vec![0]);
}

#[test]
fn channels_interleave_into_rgb() {
    let p = PixelVectors { r: vec![1, 2], g: vec![3, 4], b: vec![5, 6], width: 2, height: 1 };
    let img = pixel_vectors_to_image(&p).unwrap();
    assert_eq!(img.raw, vec![1, 3, 5, 2, 4, 6]);
    let back = image_to_pixel_vectors(&img);
    assert_eq!((back.r, back.g, back.b), (p.r, p.g, p.b));
}

#[test]
fn channel_length_mismatch_is_refused() {
    let p = PixelVectors { r: vec![1, 2], g: vec![3], b: vec![5, 6], width: 2, height: 1 };
    let e = pixel_vectors_to_image(&p).err().unwrap();
    assert_eq!(e, ImageError::LengthMismatch { expected: 2, r: 2, g: 1, b: 2 });
}

#[test]
fn png_encoding_roundtrips() {
    let p = grid(5, 4);
    let img = pixel_vectors_to_image(&p).unwrap();
    let png = image_to_png_bytes(&img).unwrap();
    assert_eq!(&png[1..4], b"PNG");
    let loaded: RgbBuffer = load_image_from_bytes(&png).unwrap();
    assert_eq!((loaded.width, loaded.height), (5, 4));
    let back = image_to_pixel_vectors(&loaded);
    assert_eq!((back.r, back.g, back.b), (p.r, p.g, p.b));
}

#[test]
fn garbage_bytes_are_no_image() {
    assert_eq!(load_image_from_bytes(b"not an image").err().unwrap(), ImageError::Decode);
}
