use image_server::{
    decimal_string, derive_image, encode_image, lookup_request, plan_request, resize_image,
    return_image, scale_dimension, target_dimensions, AppConfig, DerivationError,
    Encoded, FileUtils, ImageCache, ImageParams, OutputFormat, PixelLayout, Plan, Raster, Response,
};
use std::io::Cursor;

fn params(name: &str, width: Option<u32>, height: Option<u32>) -> ImageParams {
    ImageParams { file_name: name.to_string(), width, height }
}

fn files() -> FileUtils {
    FileUtils::new(AppConfig {
        input_path: "input".to_string(),
        output_path: "output/".to_string(),
        bind_address: "127.0.0.1:8080".to_string(),
        cache_size: 4,
    })
}

fn jpeg_of(width: u32, height: u32) -> Vec<u8> {
    let img = image::DynamicImage::ImageRgb8(image::RgbImage::from_pixel(width, height, image::Rgb([10, 120, 200])));
    let mut out = Cursor::new(Vec::new());
    img.write_to(&mut out, image::ImageFormat::Jpeg).unwrap();
    out.into_inner()
}

fn body(r: &Response) -> Option<(String, Vec<u8>)> {
    match r {
        Response::Image { content_type, body } => Some((content_type.clone(), body.clone())),
        _ => None,
    }
}

#[test]
fn formats_follow_the_extension() {
    assert_eq!(params("a.png", None, None).get_format(), Some(OutputFormat::Png));
    assert_eq!(params("a.jpg", None, None).get_format(), Some(OutputFormat::Jpeg));
    assert_eq!(params("a.b.jpeg", None, None).get_format(), Some(OutputFormat::Jpeg));
    assert_eq!(params("a.webp", None, None).get_format(), Some(OutputFormat::WebP));
    assert_eq!(params("a.gif", None, None).get_format(), Some(OutputFormat::Gif));
    assert_eq!(params("a.bmp", None, None).get_format(), None);
    assert_eq!(params("a.PNG", None, None).get_format(), None);
    assert_eq!(params("png", None, None).get_format(), None);
    assert_eq!(params(".png", None, None).get_format(), None);
    assert_eq!(params("a.png/b", None, None).get_format(), None);
    assert_eq!(params("dir/a.png/", None, None).get_format(), Some(OutputFormat::Png));
    assert_eq!(params("dir/.gif//", None, None).get_format(), None);
    assert_eq!(params("/", None, None).get_format(), None);
    assert_eq!(params("a.png/.", None, None).get_format(), Some(OutputFormat::Png));
    assert_eq!(params("a.webp/./", None, None).get_format(), Some(OutputFormat::WebP));
    assert_eq!(params("a.gif/././", None, None).get_format(), Some(OutputFormat::Gif));
    assert_eq!(params("a/.", None, None).get_format(), None);
    assert_eq!(params(".", None, None).get_format(), None);
    assert_eq!(params("a.png/..", None, None).get_format(), None);
}

#[test]
fn content_types_follow_the_format() {
    assert_eq!(params("a.png", None, None).get_content_type(), Some("image/png".to_string()));
    assert_eq!(params("a.jpeg", None, None).get_content_type(), Some("image/jpeg".to_string()));
    assert_eq!(params("a.webp", None, None).get_content_type(), Some("image/webp".to_string()));
    assert_eq!(params("a.gif", None, None).get_content_type(), Some("image/gif".to_string()));
    assert_eq!(params("a.xyz", None, None).get_content_type(), None);
    assert_eq!(params("a.png/.", None, None).get_content_type(), Some("image/png".to_string()));
}

#[test]
fn decimal_writing() {
    assert_eq!(decimal_string(0), "0");
    assert_eq!(decimal_string(7), "7");
    assert_eq!(decimal_string(200), "200");
    assert_eq!(decimal_string(4294967295), "4294967295");
}

#[test]
fn cache_ids_normalise_absent_to_zero() {
    let absent = ImageCache::get_cache_id(&params("photo.jpg", None, None));
    let zero = ImageCache::get_cache_id(&params("photo.jpg", Some(0), Some(0)));
    assert_eq!(absent, "photo.jpg_0_0");
    assert_eq!(absent, zero);
    assert_eq!(ImageCache::get_cache_id(&params("photo.jpg", Some(200), None)), "photo.jpg_200_0");
    assert_eq!(ImageCache::get_cache_id(&params("p.png", Some(3), Some(45))), "p.png_3_45");
}

#[test]
fn paths_are_joined_with_one_separator() {
    let f = files();
    assert_eq!(f.build_path("a", "b.png"), "a/b.png");
    assert_eq!(f.build_path("a/", "b.png"), "a/b.png");
    assert_eq!(f.build_path("", "b.png"), "/b.png");
    assert_eq!(f.build_input_path(&params("photo.jpg", Some(200), None)), "input/photo.jpg");
    assert_eq!(f.build_output_path(&params("photo.jpg", Some(200), None)), "output/200/0");
    assert_eq!(f.build_output_path(&params("photo.jpg", Some(30), Some(40))), "output/30/40");
    assert_eq!(f.build_target_path(&params("photo.jpg", Some(200), None)), "output/200/0/photo.jpg");
}

#[test]
fn missing_dimension_keeps_aspect_ratio() {
    assert_eq!(target_dimensions(1000, 500, 200, 0), (200, 100));
    assert_eq!(target_dimensions(1000, 500, 0, 100), (200, 100));
    assert_eq!(target_dimensions(1000, 500, 300, 300), (300, 300));
    assert_eq!(target_dimensions(3, 2, 10, 0), (10, 6));
    assert_eq!(target_dimensions(0, 0, 10, 0), (10, 0));
    assert_eq!(scale_dimension(4294967295, 2, 1), 4294967295);
    assert_eq!(scale_dimension(7, 1, 0), 0);
}

#[test]
fn cache_evicts_least_recently_used() {
    let mut c = ImageCache::new(2);
    c.insert("a".to_string(), vec![1]);
    c.insert("b".to_string(), vec![2]);
    c.insert("c".to_string(), vec![3]);
    assert_eq!(c.get("a"), None);
    assert_eq!(c.get("b"), Some(vec![2]));
    assert_eq!(c.get("c"), Some(vec![3]));
}

#[test]
fn cache_get_promotes_and_put_overwrites() {
    let mut c = ImageCache::new(2);
    c.insert("a".to_string(), vec![1]);
    c.insert("b".to_string(), vec![2]);
    assert_eq!(c.get("a"), Some(vec![1]));
    c.insert("c".to_string(), vec![3]);
    assert_eq!(c.get("b"), None);
    c.insert("a".to_string(), vec![9]);
    assert_eq!(c.get("a"), Some(vec![9]));
    assert_eq!(c.get("c"), Some(vec![3]));
}

#[test]
fn unsupported_extension_is_not_found_even_when_cached() {
    let mut c = ImageCache::new(2);
    let p = params("photo.xyz", None, None);
    c.insert(ImageCache::get_cache_id(&p), vec![1, 2, 3]);
    assert!(matches!(lookup_request(&mut c, &p), Some(Response::NotFound)));
    assert!(matches!(plan_request(&files(), &p, true), Plan::Respond(Response::NotFound)));
    assert!(matches!(plan_request(&files(), &params("photo.bmp", Some(5), None), true), Plan::Respond(Response::NotFound)));
}

#[test]
fn missing_source_is_not_found() {
    let mut c = ImageCache::new(2);
    let p = params("missing.png", None, None);
    assert!(lookup_request(&mut c, &p).is_none());
    assert!(matches!(plan_request(&files(), &p, false), Plan::Respond(Response::NotFound)));
}

#[test]
fn original_requests_read_the_source() {
    match plan_request(&files(), &params("photo.jpg", Some(0), Some(0)), true) {
        Plan::ReadSource { path } => assert_eq!(path, "input/photo.jpg"),
        _ => panic!("expected the source to be read"),
    }
    match plan_request(&files(), &params("photo.jpg", None, None), true) {
        Plan::ReadSource { path } => assert_eq!(path, "input/photo.jpg"),
        _ => panic!("expected the source to be read"),
    }
}

#[test]
fn failed_read_is_an_internal_error() {
    let mut c = ImageCache::new(2);
    let p = params("photo.jpg", Some(10), None);
    assert!(matches!(return_image(&mut c, &p, None), Response::InternalError));
    assert!(lookup_request(&mut c, &p).is_none());
}

#[test]
fn undecodable_source_fails_to_derive() {
    assert!(matches!(resize_image(&[1, 2, 3], 10, 10), Err(DerivationError::DecodeFailed)));
    assert!(matches!(derive_image(&[], 10, 0, OutputFormat::Png), Err(DerivationError::DecodeFailed)));
}

#[test]
fn rasters_that_do_not_fit_the_encoders_are_refused() {
    let other = Raster { width: 1, height: 1, layout: PixelLayout::Other, pixels: vec![0; 16] };
    assert_eq!(encode_image(other, OutputFormat::Png).err(), Some(DerivationError::EncodeFailed));
    let short = Raster { width: 2, height: 2, layout: PixelLayout::Rgb8, pixels: vec![0; 11] };
    assert_eq!(encode_image(short, OutputFormat::Png).err(), Some(DerivationError::EncodeFailed));
    let long = Raster { width: 1, height: 1, layout: PixelLayout::Rgb8, pixels: vec![0; 4] };
    assert_eq!(encode_image(long, OutputFormat::Png).err(), Some(DerivationError::EncodeFailed));
    let long_jpeg = Raster { width: 1, height: 1, layout: PixelLayout::Rgb8, pixels: vec![0; 4] };
    assert_eq!(encode_image(long_jpeg, OutputFormat::Jpeg).err(), Some(DerivationError::EncodeFailed));
    let empty = Raster { width: 0, height: 3, layout: PixelLayout::Rgba8, pixels: vec![] };
    assert_eq!(encode_image(empty, OutputFormat::Gif).err(), Some(DerivationError::EncodeFailed));
}

#[test]
fn exact_rasters_encode_in_each_format() {
    for format in [OutputFormat::Png, OutputFormat::Jpeg, OutputFormat::Gif] {
        let r = Raster { width: 2, height: 2, layout: PixelLayout::Rgb8, pixels: vec![90; 12] };
        let bytes = encode_image(r, format).unwrap();
        let back = image::load_from_memory(&bytes).unwrap();
        assert_eq!((back.width(), back.height()), (2, 2));
    }
    let rgba = Raster { width: 3, height: 1, layout: PixelLayout::Rgba8, pixels: vec![200; 12] };
    let png = encode_image(rgba, OutputFormat::Png).unwrap();
    assert_eq!(image::load_from_memory(&png).unwrap().width(), 3);
}

#[test]
fn scale_by_width_truncates_height() {
    let raster = resize_image(&jpeg_of(30, 7), 10, 0).unwrap();
    assert_eq!((raster.width, raster.height), (10, 2));
    assert_eq!(raster.layout, PixelLayout::Rgb8);
    assert_eq!(raster.pixels.len(), 10 * 2 * 3);
}

#[test]
fn png_round_trip_keeps_requested_size() {
    let raster = resize_image(&jpeg_of(40, 20), 8, 8).unwrap();
    assert_eq!((raster.width, raster.height), (8, 8));
    let png = encode_image(raster, OutputFormat::Png).unwrap();
    let back = image::load_from_memory(&png).unwrap();
    assert_eq!((back.width(), back.height()), (8, 8));
}

#[test]
fn webp_requests_hand_back_the_raster() {
    match derive_image(&jpeg_of(40, 20), 0, 10, OutputFormat::WebP) {
        Ok(Encoded::WebP(r)) => {
            assert_eq!((r.width, r.height), (20, 10));
            assert_eq!(r.layout, PixelLayout::Rgb8);
            assert_eq!(r.pixels.len(), 20 * 10 * 3);
        }
        _ => panic!("expected a raster"),
    }
}

#[test]
fn scaled_jpeg_is_derived_once_and_served_identically() {
    let f = files();
    let p = params("photo.jpg", Some(200), None);
    let mut c = ImageCache::new(4);
    assert!(lookup_request(&mut c, &p).is_none());
    let (source, target, w, h, format) = match plan_request(&f, &p, true) {
        Plan::Derive { source, output_dir, target, width, height, format } => {
            assert_eq!(output_dir, "output/200/0");
            (source, target, width, height, format)
        }
        _ => panic!("expected a derivation"),
    };
    assert_eq!(source, "input/photo.jpg");
    assert_eq!(target, "output/200/0/photo.jpg");
    assert_eq!((w, h, format), (200, 0, OutputFormat::Jpeg));
    let bytes = match derive_image(&jpeg_of(1000, 500), w, h, format) {
        Ok(Encoded::Bytes(b)) => b,
        _ => panic!("expected encoded bytes"),
    };
    let decoded = image::load_from_memory(&bytes).unwrap();
    assert_eq!((decoded.width(), decoded.height()), (200, 100));
    let first = return_image(&mut c, &p, Some(bytes.clone()));
    assert_eq!(body(&first), Some(("image/jpeg".to_string(), bytes.clone())));
    let second = lookup_request(&mut c, &p).expect("served from memory");
    assert_eq!(body(&second), Some(("image/jpeg".to_string(), bytes)));
}

#[test]
fn grayscale_and_deep_sources_are_derived_as_rgba() {
    let gray = image::DynamicImage::ImageLuma8(image::GrayImage::from_pixel(40, 20, image::Luma([77])));
    let mut out = Cursor::new(Vec::new());
    gray.write_to(&mut out, image::ImageFormat::Png).unwrap();
    let gray_png = out.into_inner();
    for format in [OutputFormat::Png, OutputFormat::Jpeg, OutputFormat::Gif] {
        match derive_image(&gray_png, 10, 0, format) {
            Ok(Encoded::Bytes(b)) => {
                let back = image::load_from_memory(&b).unwrap();
                assert_eq!((back.width(), back.height()), (10, 5));
            }
            _ => panic!("expected encoded bytes"),
        }
    }
    let deep = image::DynamicImage::ImageRgb16(image::ImageBuffer::from_pixel(8, 8, image::Rgb([1000u16, 2000, 3000])));
    let mut out = Cursor::new(Vec::new());
    deep.write_to(&mut out, image::ImageFormat::Png).unwrap();
    let raster = resize_image(&out.into_inner(), 4, 4).unwrap();
    assert_eq!(raster.layout, PixelLayout::Rgba8);
    assert_eq!(raster.pixels.len(), 4 * 4 * 4);
}
