use lynxrdp_client::icon;
use lynxrdp_client::imageclip::{
    check_size, decode_png, encode_png, expand, from_samples, Colour, Picture, Rgba,
    MAX_READABLE_WIDTH,
};

fn gradient(w: usize, h: usize) -> Rgba {
    let mut bytes = Vec::with_capacity(w * h * 4);
    for y in 0..h {
        for x in 0..w {
            bytes.extend_from_slice(&[
                (x % 256) as u8,
                (y % 256) as u8,
                ((x + y) % 256) as u8,
                0xFF,
            ]);
        }
    }
    Rgba::new(w, h, bytes).unwrap()
}

#[test]
fn png_roundtrip_is_lossless() {
    for (w, h) in [(1, 1), (7, 3), (64, 64), (200, 137)] {
        let img = gradient(w, h);
        let png = encode_png(&img).unwrap();
        assert_eq!(&png[1..4], b"PNG");
        let back = decode_png(&png).unwrap();
        assert_eq!(back, img, "{w}x{h}");
    }
}

/// A picture of one row.
fn row(width: usize) -> Rgba {
    Rgba::new(width, 1, vec![7; width * 4]).unwrap()
}

#[test]
fn the_widest_row_is_read_back() {
    let img = row(MAX_READABLE_WIDTH as usize);
    let back = decode_png(&encode_png(&img).unwrap()).unwrap();
    assert!(back == img);
}

#[test]
fn a_row_wider_than_that_is_more_than_the_decoder_allocates() {
    let png = encode_png(&row(MAX_READABLE_WIDTH as usize + 1)).unwrap();
    assert_eq!(decode_png(&png), Err("reading PNG header".to_string()));
}

#[test]
fn alpha_survives_the_roundtrip() {
    let bytes = vec![10, 20, 30, 0, 40, 50, 60, 128, 70, 80, 90, 255, 1, 2, 3, 77];
    let img = Rgba::new(2, 2, bytes).unwrap();
    let back = decode_png(&encode_png(&img).unwrap()).unwrap();
    assert_eq!(back, img);
}

fn written(colour: png::ColorType, depth: png::BitDepth, w: u32, h: u32, data: &[u8]) -> Vec<u8> {
    let mut bytes = Vec::new();
    {
        let mut enc = png::Encoder::new(&mut bytes, w, h);
        enc.set_color(colour);
        enc.set_depth(depth);
        let mut w = enc.write_header().unwrap();
        w.write_image_data(data).unwrap();
    }
    bytes
}

#[test]
fn rgb_and_grayscale_sources_expand_to_rgba() {
    // An RGB PNG (no alpha channel) must come back fully opaque.
    let png_bytes = written(
        png::ColorType::Rgb,
        png::BitDepth::Eight,
        2,
        1,
        &[1, 2, 3, 4, 5, 6],
    );
    let img = decode_png(&png_bytes).unwrap();
    assert_eq!(img.bytes, vec![1, 2, 3, 255, 4, 5, 6, 255]);

    let gray = written(
        png::ColorType::Grayscale,
        png::BitDepth::Eight,
        2,
        1,
        &[9, 200],
    );
    let img = decode_png(&gray).unwrap();
    assert_eq!(img.bytes, vec![9, 9, 9, 255, 200, 200, 200, 255]);
}

#[test]
fn deep_samples_are_narrowed() {
    // Sixteen bits a sample come back as eight.
    let deep = written(
        png::ColorType::GrayscaleAlpha,
        png::BitDepth::Sixteen,
        1,
        1,
        &[0x80, 0x00, 0x40, 0x00],
    );
    assert_eq!(
        decode_png(&deep).unwrap().bytes,
        vec![0x80, 0x80, 0x80, 0x40]
    );
}

#[test]
fn malformed_input_is_rejected_cleanly() {
    assert!(decode_png(b"").is_err());
    assert!(decode_png(b"not a png at all").is_err());
    // A truncated but well-signed PNG must error, not panic.
    let img = gradient(16, 16);
    let png = encode_png(&img).unwrap();
    assert!(decode_png(&png[..png.len() / 2]).is_err());
}

#[test]
fn dimension_mismatch_is_rejected() {
    assert!(Rgba::new(2, 2, vec![0; 8]).is_err());
    assert!(Rgba::new(2, 2, vec![0; 16]).is_ok());
    assert!(encode_png(&Rgba {
        width: 0,
        height: 5,
        bytes: Vec::new()
    })
    .is_err());
}

#[test]
fn an_image_that_cannot_be_encoded_says_why() {
    let failure = |width: usize, height: usize, bytes: Vec<u8>| {
        encode_png(&Rgba {
            width,
            height,
            bytes,
        })
        .unwrap_err()
    };
    assert_eq!(failure(0, 5, vec![]), "refusing to encode an empty image");
    assert_eq!(failure(5, 0, vec![]), "refusing to encode an empty image");
    assert_eq!(failure(2, 2, vec![0; 15]), "writing PNG data");
    assert_eq!(failure(2, 2, vec![0; 20]), "writing PNG data");
    // A size of which the format's thirty-two bits keep nothing, or too little.
    let beyond = u32::MAX as usize + 1;
    assert_eq!(failure(beyond, 1, vec![]), "writing PNG header");
    assert_eq!(failure(beyond + 1, 1, vec![0; 8]), "writing PNG data");
}

#[test]
fn an_absurd_image_is_refused_by_its_size() {
    assert!(check_size(8192, 8192).is_ok());
    assert!(check_size(8193, 8192).is_err());
    assert!(check_size(0, 5).is_err());
    assert!(check_size(u32::MAX, u32::MAX).is_err());
}

#[test]
fn samples_expand_by_their_colour() {
    assert_eq!(
        expand(Colour::GrayscaleAlpha, &vec![7, 8]),
        Some(vec![7, 7, 7, 8])
    );
    assert_eq!(
        expand(Colour::Rgba, &vec![1, 2, 3, 4]),
        Some(vec![1, 2, 3, 4])
    );
    assert_eq!(expand(Colour::Indexed, &vec![1]), None);
    // Fewer samples than the size promises.
    assert!(from_samples(2, 1, Colour::Rgba, &vec![1, 2, 3, 4]).is_err());
    assert!(from_samples(1, 1, Colour::Indexed, &vec![1]).is_err());
}

#[test]
fn an_icon_is_opaque_where_it_has_no_alpha() {
    let png = written(
        png::ColorType::Rgb,
        png::BitDepth::Eight,
        1,
        2,
        &[1, 2, 3, 4, 5, 6],
    );
    let icon = icon::load(&png).expect("the icon did not decode");
    assert_eq!((icon.width, icon.height), (1, 2));
    assert_eq!(icon.rgba, vec![1, 2, 3, 255, 4, 5, 6, 255]);
    assert!(icon::load(b"not a png").is_none());
    assert!(icon::from_picture(&Picture {
        colour: Colour::Grayscale,
        width: 1,
        height: 1,
        samples: vec![1],
    })
    .is_none());
}
