use analyze_screen::picture::{needs_downscale, prepare_file, prepare_image, ImageFailure};

fn png(width: u32, height: u32) -> Vec<u8> {
    let mut buf = std::io::Cursor::new(Vec::new());
    image::DynamicImage::new_rgb8(width, height)
        .write_to(&mut buf, image::ImageFormat::Png)
        .unwrap();
    buf.into_inner()
}

fn size(bytes: &[u8]) -> (u32, u32) {
    let img = image::load_from_memory(bytes).unwrap();
    (img.width(), img.height())
}

fn ready(r: Result<Vec<u8>, ImageFailure>) -> Vec<u8> {
    match r {
        Ok(bytes) => bytes,
        Err(_) => panic!("not ready"),
    }
}

#[test]
fn the_long_edge_decides() {
    assert!(!needs_downscale(1280, 720, 1280));
    assert!(needs_downscale(1281, 720, 1280));
    assert!(needs_downscale(720, 1281, 1280));
    assert!(!needs_downscale(0, 0, 0));
}

#[test]
fn a_large_image_is_downscaled() {
    let raw = png(64, 32);
    assert_eq!(size(&ready(prepare_image(raw.clone(), true, 16))), (16, 8));
    assert_eq!(size(&ready(prepare_file(raw, "/x/shot.png", true, 16))), (16, 8));
    assert_eq!(size(&ready(prepare_image(png(10, 40), true, 20))), (5, 20));
}

#[test]
fn the_shape_is_kept_up_to_rounding() {
    assert_eq!(size(&ready(prepare_image(png(100, 33), true, 10))), (10, 3));
    assert_eq!(size(&ready(prepare_image(png(33, 100), true, 15))), (5, 15));
    assert_eq!(size(&ready(prepare_image(png(100, 1), true, 10))), (10, 1));
    assert_eq!(size(&ready(prepare_image(png(7, 7), true, 3))), (3, 3));
}

#[test]
fn a_downscaled_image_is_a_png() {
    let bytes = ready(prepare_image(png(9, 3), true, 3));
    assert_eq!(&bytes[..4], b"\x89PNG");
    assert_eq!(size(&bytes), (3, 1));
}

#[test]
fn a_small_image_stays_as_it_is() {
    let raw = png(16, 8);
    assert_eq!(ready(prepare_image(raw.clone(), true, 16)), raw);
    assert_eq!(ready(prepare_file(raw.clone(), "shot.png", true, 16)), raw);
}

#[test]
fn without_downscaling_anything_passes() {
    let raw = b"no image at all".to_vec();
    assert_eq!(ready(prepare_image(raw.clone(), false, 1)), raw);
    assert_eq!(ready(prepare_file(raw.clone(), "x", false, 1)), raw);
}

#[test]
fn what_is_no_image_cannot_be_decoded() {
    let raw = b"no image at all".to_vec();
    assert!(matches!(prepare_image(raw.clone(), true, 16), Err(ImageFailure::Decode(_))));
    assert!(matches!(prepare_file(raw, "x.png", true, 16), Err(ImageFailure::Decode(_))));
}

#[test]
fn the_extension_of_a_file_names_its_format() {
    assert!(matches!(prepare_file(png(2, 2), "x.dat", true, 16), Err(ImageFailure::Decode(_))));
    assert!(matches!(prepare_file(png(2, 2), "x", true, 16), Err(ImageFailure::Decode(_))));
}

#[test]
fn a_failure_says_what_is_wrong() {
    let said = |path: &str| match prepare_file(png(2, 2), path, true, 16) {
        Err(ImageFailure::Decode(problem)) => problem,
        _ => panic!("decoded"),
    };
    assert_eq!(
        said("x.dat").message,
        "The file extension `.\"dat\"` was not recognized as an image format"
    );
    for path in ["x", "x.", "a.png/x.", ".png"] {
        assert_eq!(said(path).message, "The image format could not be determined", "{path}");
        assert_eq!(said(path).chain, "The image format could not be determined", "{path}");
    }
}

#[test]
fn a_failure_comes_with_its_cause() {
    let mut broken = png(40, 40);
    broken[30] ^= 0xff;
    let expected = anyhow::Error::from(image::load_from_memory(&broken).unwrap_err());
    match prepare_image(broken, true, 16) {
        Err(ImageFailure::Decode(problem)) => {
            assert_eq!(problem.message, format!("{expected}"));
            assert_eq!(problem.chain, format!("{expected:#}"));
            assert!(problem.chain.len() > problem.message.len());
        }
        _ => panic!("decoded"),
    }
}
