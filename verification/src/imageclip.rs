//! PNG encoding and decoding for clipboard images.
//!
//! The wire format for clipboard images is PNG, because it is lossless and
//! compact. The local clipboard APIs work in raw RGBA instead, so this module
//! converts between the two.

use vstd::prelude::*;

use crate::text;

verus! {

/// Largest image accepted in either direction, in pixels. Bounds the memory a
/// malformed or hostile PNG can make us allocate.
pub const MAX_PIXELS: usize = 67_108_864;

/// Widest image that is sure to be read back: its rows fit what the decoder
/// lets itself allocate.
pub const MAX_READABLE_WIDTH: u32 = 16_777_216;

/// An image as the clipboard APIs want it: 8-bit RGBA, row major.
#[derive(Clone, Debug, PartialEq, Eq)]
pub struct Rgba {
    /// Width in pixels.
    pub width: usize,
    /// Height in pixels.
    pub height: usize,
    /// `width * height * 4` bytes.
    pub bytes: Vec<u8>,
}

/// What the samples of a decoded picture are.
#[derive(Clone, Copy, Debug, PartialEq, Eq, Structural)]
pub enum Colour {
    Grayscale,
    Rgb,
    Indexed,
    GrayscaleAlpha,
    Rgba,
}

/// A decoded picture.
#[derive(Clone, Debug, PartialEq, Eq)]
pub struct Picture {
    pub colour: Colour,
    /// Width in pixels.
    pub width: u32,
    /// Height in pixels.
    pub height: u32,
    /// The samples, row major.
    pub samples: Vec<u8>,
}

// ---------------------------------------------------------------------------
// The codec
// ---------------------------------------------------------------------------

/// The error of the `png` crate's decoder.
#[verifier::external_type_specification]
#[verifier::external_body]
pub struct ExDecodingError(png::DecodingError);

/// The error of the `png` crate's encoder.
#[verifier::external_type_specification]
#[verifier::external_body]
pub struct ExEncodingError(png::EncodingError);

/// The size that the `png` crate reads from the header of a file, if all up to
/// the picture can be read. `steps` holds the bits of the transformations that
/// the decoder is set to.
pub uninterp spec fn png_size(file: Seq<u8>, steps: u32) -> Option<(u32, u32)>;

/// The first picture that the `png` crate decodes from a file, if it can: what
/// its samples are, its width, its height and the samples.
pub uninterp spec fn png_picture(file: Seq<u8>, steps: u32) -> Option<(Colour, u32, u32, Seq<u8>)>;

/// The file that the `png` crate writes for RGBA samples of eight bits.
pub uninterp spec fn png_file(width: u32, height: u32, samples: Seq<u8>) -> Seq<u8>;

/// The samples as the file has them: `png::Transformations::IDENTITY`.
pub const AS_STORED: u32 = 0;

/// Samples of eight bits, palettes and transparency expanded:
/// `png::Transformations::normalize_to_color8`.
pub const NORMALISED: u32 = 0x11;

/// `png::Decoder::read_info`, set to transformations given by their bits, and
/// the size in the header it read. A picture without rows or columns is refused
/// while reading the header.
#[verifier::external_body]
pub(crate) fn read_size(file: &[u8], steps: u32) -> (r: Result<(u32, u32), png::DecodingError>)
    ensures
        match r {
            Ok(size) => png_size(file@, steps) == Some(size) && size.0 > 0 && size.1 > 0,
            Err(_) => png_size(file@, steps) is None,
        },
{
    let mut decoder = png::Decoder::new(file);
    decoder.set_transformations(png::Transformations::from_bits_truncate(steps));
    let reader = decoder.read_info()?;
    Ok((reader.info().width, reader.info().height))
}

/// `png::Reader::next_frame` on the first picture of a file, with the decoder
/// set to transformations given by their bits. What it decodes is named, not
/// stated. A sample takes at most two bytes and a pixel four samples, so that
/// a picture within the bound can be held in memory.
#[verifier::external_body]
pub(crate) fn read_picture(file: &[u8], steps: u32) -> (r: Result<Picture, png::DecodingError>)
    requires
        png_size(file@, steps) matches Some((w, h)) && w * h * 8 <= isize::MAX,
    ensures
        match r {
            Ok(p) => png_picture(file@, steps) == Some((p.colour, p.width, p.height, p.samples@)),
            Err(_) => png_picture(file@, steps) is None,
        },
{
    let mut decoder = png::Decoder::new(file);
    decoder.set_transformations(png::Transformations::from_bits_truncate(steps));
    let mut reader = decoder.read_info()?;
    let mut samples = vec![0u8; reader.output_buffer_size()];
    let frame = reader.next_frame(&mut samples)?;
    samples.truncate(frame.buffer_size());
    let colour = match frame.color_type {
        png::ColorType::Grayscale => Colour::Grayscale,
        png::ColorType::Rgb => Colour::Rgb,
        png::ColorType::Indexed => Colour::Indexed,
        png::ColorType::GrayscaleAlpha => Colour::GrayscaleAlpha,
        png::ColorType::Rgba => Colour::Rgba,
    };
    Ok(Picture { colour, width: frame.width, height: frame.height, samples })
}

/// `png::Writer::write_image_data` on RGBA samples of eight bits, into memory.
///
/// What it writes is named, not stated. Writing to memory does not fail where
/// the samples are as many as the size says. Where a row fits what the decoder
/// lets itself allocate, it reads the same picture back: the format is lossless
/// and normalising leaves RGBA of eight bits alone.
#[verifier::external_body]
fn write_picture(width: u32, height: u32, samples: &Vec<u8>) -> (r: Result<
    Vec<u8>,
    png::EncodingError,
>)
    requires
        width > 0,
        height > 0,
        samples@.len() == width * height * 4,
    ensures
        match r {
            Ok(file) => file@ == png_file(width, height, samples@) && (width <= MAX_READABLE_WIDTH
                ==> png_size(file@, NORMALISED) == Some((width, height)) && png_picture(
                file@,
                NORMALISED,
            ) == Some((Colour::Rgba, width, height, samples@))),
            Err(_) => false,
        },
{
    let mut file = Vec::new();
    let mut encoder = png::Encoder::new(&mut file, width, height);
    encoder.set_color(png::ColorType::Rgba);
    encoder.set_depth(png::BitDepth::Eight);
    let mut writer = encoder.write_header()?;
    writer.write_image_data(samples)?;
    writer.finish()?;
    Ok(file)
}

// ---------------------------------------------------------------------------
// Images
// ---------------------------------------------------------------------------

/// `{width}x{height}`.
pub open spec fn size_text(width: nat, height: nat) -> Seq<char> {
    text::decimal(width) + "x"@ + text::decimal(height)
}

/// What a wrong number of bytes is answered.
pub open spec fn length_text(width: nat, height: nat, got: nat) -> Seq<char> {
    "image is "@ + text::decimal(got) + " bytes, expected "@ + text::decimal(width * height * 4)
        + " for "@ + size_text(width, height)
}

fn push_size(s: &mut String, width: usize, height: usize)
    ensures
        final(s)@ == old(s)@ + size_text(width as nat, height as nat),
{
    let w = text::decimal_of(width as u64);
    s.push_str(w.as_str());
    s.push_str("x");
    let h = text::decimal_of(height as u64);
    s.push_str(h.as_str());
    assert(s@ =~= old(s)@ + size_text(width as nat, height as nat));
}

impl Rgba {
    /// The length matches the dimensions.
    pub open spec fn wf(self) -> bool {
        self.bytes@.len() == self.width * self.height * 4
    }

    /// Build from raw RGBA, checking the length matches the dimensions.
    pub fn new(width: usize, height: usize, bytes: Vec<u8>) -> (r: Result<Rgba, String>)
        ensures
            match r {
                Ok(image) => image.wf() && image == (Rgba { width, height, bytes }),
                Err(e) => if width * height * 4 > usize::MAX {
                    e@ == "image dimensions overflow"@
                } else {
                    bytes@.len() != width * height * 4 && e@ == length_text(
                        width as nat,
                        height as nat,
                        bytes@.len(),
                    )
                },
            },
            r is Ok <==> bytes@.len() == width * height * 4,
    {
        let got: usize = bytes.len();
        let pixels = match width.checked_mul(height) {
            Some(n) => n,
            None => {
                assert(width * height * 4 > usize::MAX);
                return Err(text::copy("image dimensions overflow"));
            },
        };
        let expected = match pixels.checked_mul(4) {
            Some(n) => n,
            None => {
                return Err(text::copy("image dimensions overflow"));
            },
        };
        if got != expected {
            let mut s = text::copy("image is ");
            let count = text::decimal_of(got as u64);
            s.push_str(count.as_str());
            s.push_str(" bytes, expected ");
            let want = text::decimal_of(expected as u64);
            s.push_str(want.as_str());
            s.push_str(" for ");
            push_size(&mut s, width, height);
            return Err(s);
        }
        Ok(Rgba { width, height, bytes })
    }
}

/// `file` is what RGBA samples are encoded as, and the decoder reads them back.
pub open spec fn encodes(file: Seq<u8>, width: u32, height: u32, samples: Seq<u8>) -> bool {
    &&& file == png_file(width, height, samples)
    &&& width <= MAX_READABLE_WIDTH ==> {
        &&& png_size(file, NORMALISED) == Some((width, height))
        &&& png_picture(file, NORMALISED) == Some((Colour::Rgba, width, height, samples))
    }
}

/// A size as the format holds it: in thirty-two bits.
pub open spec fn held(n: usize) -> u32 {
    (n as int % 0x1_0000_0000) as u32
}

fn narrow(n: usize) -> (r: u32)
    ensures
        r == held(n),
{
    (n as u64 % 0x1_0000_0000) as u32
}

/// Encode RGBA pixels as PNG.
///
/// The format holds sizes of thirty-two bits and a size is cut to them, so a
/// larger image is refused: its bytes are too many for what is left of its size.
pub fn encode_png(image: &Rgba) -> (r: Result<Vec<u8>, String>)
    ensures
        match r {
            Ok(file) => {
                &&& held(image.width) > 0
                &&& held(image.height) > 0
                &&& image.bytes@.len() == held(image.width) * held(image.height) * 4
                &&& encodes(file@, held(image.width), held(image.height), image.bytes@)
            },
            Err(e) => if image.width == 0 || image.height == 0 {
                e@ == "refusing to encode an empty image"@
            } else if held(image.width) == 0 || held(image.height) == 0 {
                e@ == "writing PNG header"@
            } else {
                &&& image.bytes@.len() != held(image.width) * held(image.height) * 4
                &&& e@ == "writing PNG data"@
            },
        },
{
    if image.width == 0 || image.height == 0 {
        return Err(text::copy("refusing to encode an empty image"));
    }
    let width: u32 = narrow(image.width);
    let height: u32 = narrow(image.height);
    if width == 0 || height == 0 {
        return Err(text::copy("writing PNG header"));
    }
    assert(width * height <= 0xffff_ffff * 0xffff_ffff) by (nonlinear_arith)
        requires
            width <= 0xffff_ffff,
            height <= 0xffff_ffff,
    ;
    let expected: u128 = width as u128 * height as u128 * 4;
    if image.bytes.len() as u128 != expected {
        return Err(text::copy("writing PNG data"));
    }
    match write_picture(width, height, &image.bytes) {
        Ok(file) => Ok(file),
        Err(_) => Err(text::copy("writing PNG data")),
    }
}

/// An image whose bytes match its size is encoded if it is not empty and its
/// size is one the format can hold.
pub proof fn lemma_encodable(image: Rgba)
    requires
        image.wf(),
    ensures
        (held(image.width) > 0 && held(image.height) > 0 && image.bytes@.len() == held(image.width)
            * held(image.height) * 4) <==> (0 < image.width <= u32::MAX && 0 < image.height
            <= u32::MAX),
{
    let (w, h) = (image.width as int, image.height as int);
    let (a, b) = (held(image.width) as int, held(image.height) as int);
    if a > 0 && b > 0 {
        assert(a * b <= w * h && (a * b == w * h ==> a == w && b == h)) by (nonlinear_arith)
            requires
                0 < a <= w,
                0 < b <= h,
        ;
    }
}

// ---------------------------------------------------------------------------
// Expanding
// ---------------------------------------------------------------------------

/// The samples of a picture as RGBA: greyscale and RGB sources are expanded,
/// and those without an alpha channel are opaque. There is nothing for a
/// picture of palette indices.
pub open spec fn expanded(colour: Colour, data: Seq<u8>) -> Option<Seq<u8>> {
    match colour {
        Colour::Rgba => Some(data),
        Colour::Rgb => Some(
            Seq::new(
                (data.len() / 3 * 4) as nat,
                |i: int|
                    if i % 4 == 3 {
                        255u8
                    } else {
                        data[i / 4 * 3 + i % 4]
                    },
            ),
        ),
        Colour::Grayscale => Some(
            Seq::new(
                (data.len() * 4) as nat,
                |i: int|
                    if i % 4 == 3 {
                        255u8
                    } else {
                        data[i / 4]
                    },
            ),
        ),
        Colour::GrayscaleAlpha => Some(
            Seq::new(
                (data.len() / 2 * 4) as nat,
                |i: int|
                    if i % 4 == 3 {
                        data[i / 4 * 2 + 1]
                    } else {
                        data[i / 4 * 2]
                    },
            ),
        ),
        Colour::Indexed => None,
    }
}

fn push_pixel(v: &mut Vec<u8>, r: u8, g: u8, b: u8, a: u8)
    ensures
        final(v)@ == old(v)@ + seq![r, g, b, a],
{
    v.push(r);
    v.push(g);
    v.push(b);
    v.push(a);
    assert(v@ =~= old(v)@ + seq![r, g, b, a]);
}

/// The samples of a picture as RGBA.
pub fn expand(colour: Colour, data: &Vec<u8>) -> (r: Option<Vec<u8>>)
    ensures
        match r {
            Some(v) => expanded(colour, data@) == Some(v@),
            None => expanded(colour, data@) is None,
        },
{
    match colour {
        Colour::Rgba => {
            let v = data.clone();
            assert(v@ =~= data@);
            Some(v)
        },
        Colour::Rgb => {
            let n: usize = data.len() / 3;
            let ghost want = expanded(colour, data@)->0;
            let mut v: Vec<u8> = Vec::new();
            let mut i: usize = 0;
            while i < n
                invariant
                    i <= n,
                    n == data.len() / 3,
                    want == expanded(Colour::Rgb, data@)->0,
                    v@ == want.take(i * 4),
                decreases n - i,
            {
                push_pixel(&mut v, data[i * 3], data[i * 3 + 1], data[i * 3 + 2], 255);
                assert(v@ =~= want.take((i + 1) * 4));
                i = i + 1;
            }
            assert(v@ =~= want);
            Some(v)
        },
        Colour::Grayscale => {
            let ghost want = expanded(colour, data@)->0;
            let mut v: Vec<u8> = Vec::new();
            let mut i: usize = 0;
            while i < data.len()
                invariant
                    i <= data.len(),
                    want == expanded(Colour::Grayscale, data@)->0,
                    v@ == want.take(i * 4),
                decreases data.len() - i,
            {
                let g: u8 = data[i];
                push_pixel(&mut v, g, g, g, 255);
                assert(v@ =~= want.take((i + 1) * 4));
                i = i + 1;
            }
            assert(v@ =~= want);
            Some(v)
        },
        Colour::GrayscaleAlpha => {
            let n: usize = data.len() / 2;
            let ghost want = expanded(colour, data@)->0;
            let mut v: Vec<u8> = Vec::new();
            let mut i: usize = 0;
            while i < n
                invariant
                    i <= n,
                    n == data.len() / 2,
                    want == expanded(Colour::GrayscaleAlpha, data@)->0,
                    v@ == want.take(i * 4),
                decreases n - i,
            {
                let g: u8 = data[i * 2];
                push_pixel(&mut v, g, g, g, data[i * 2 + 1]);
                assert(v@ =~= want.take((i + 1) * 4));
                i = i + 1;
            }
            assert(v@ =~= want);
            Some(v)
        },
        Colour::Indexed => None,
    }
}

// ---------------------------------------------------------------------------
// Decoding
// ---------------------------------------------------------------------------

/// Why a picture of that size is not decoded, if it is not.
pub open spec fn size_fault(width: u32, height: u32) -> Option<Seq<char>> {
    if width * height == 0 {
        Some("PNG has zero pixels"@)
    } else if width * height > MAX_PIXELS {
        Some(
            "PNG is "@ + size_text(width as nat, height as nat)
                + ", larger than this client will decode"@,
        )
    } else {
        None
    }
}

/// Refuse a picture that is empty or larger than this client will decode.
pub fn check_size(width: u32, height: u32) -> (r: Result<(), String>)
    ensures
        match r {
            Ok(_) => size_fault(width, height) is None,
            Err(e) => size_fault(width, height) == Some(e@),
        },
{
    assert(width * height <= 0xffff_ffff * 0xffff_ffff) by (nonlinear_arith)
        requires
            width <= 0xffff_ffff,
            height <= 0xffff_ffff,
    ;
    let pixels: u64 = width as u64 * height as u64;
    if pixels == 0 {
        return Err(text::copy("PNG has zero pixels"));
    }
    if pixels > MAX_PIXELS as u64 {
        let mut s = text::copy("PNG is ");
        let w = text::decimal_of(width as u64);
        s.push_str(w.as_str());
        s.push_str("x");
        let h = text::decimal_of(height as u64);
        s.push_str(h.as_str());
        s.push_str(", larger than this client will decode");
        assert(s@ =~= "PNG is "@ + size_text(width as nat, height as nat)
            + ", larger than this client will decode"@);
        return Err(s);
    }
    Ok(())
}

/// The RGBA bytes that the samples of a picture make, or why they make no
/// image of that size.
pub open spec fn image_bytes(width: u32, height: u32, colour: Colour, data: Seq<u8>) -> Result<
    Seq<u8>,
    Seq<char>,
> {
    match expanded(colour, data) {
        None => Err("unsupported PNG colour type Indexed"@),
        Some(rgba) => if rgba.len() == width * height * 4 {
            Ok(rgba)
        } else {
            Err(length_text(width as nat, height as nat, rgba.len()))
        },
    }
}

/// The image that the samples of a picture make.
pub fn from_samples(width: u32, height: u32, colour: Colour, data: &Vec<u8>) -> (r: Result<
    Rgba,
    String,
>)
    requires
        width * height <= MAX_PIXELS,
    ensures
        match r {
            Ok(image) => {
                &&& image_bytes(width, height, colour, data@) == Ok::<Seq<u8>, Seq<char>>(
                    image.bytes@,
                )
                &&& image.width == width
                &&& image.height == height
                &&& image.wf()
            },
            Err(e) => image_bytes(width, height, colour, data@) == Err::<Seq<u8>, Seq<char>>(e@),
        },
{
    match expand(colour, data) {
        None => Err(text::copy("unsupported PNG colour type Indexed")),
        Some(rgba) => Rgba::new(width as usize, height as usize, rgba),
    }
}

/// What a file is decoded as, or why it is not, when the decoder reads this
/// size and this picture from it.
pub open spec fn decoded(
    size: Option<(u32, u32)>,
    picture: Option<(Colour, u32, u32, Seq<u8>)>,
) -> Result<(u32, u32, Seq<u8>), Seq<char>> {
    match size {
        None => Err("reading PNG header"@),
        Some((w, h)) => match size_fault(w, h) {
            Some(e) => Err(e),
            None => match picture {
                None => Err("decoding PNG"@),
                Some((colour, _, _, data)) => match image_bytes(w, h, colour, data) {
                    Ok(bytes) => Ok((w, h, bytes)),
                    Err(e) => Err(e),
                },
            },
        },
    }
}

/// Decode a PNG into RGBA, expanding greyscale and RGB sources.
pub fn decode_png(bytes: &[u8]) -> (r: Result<Rgba, String>)
    ensures
        match r {
            Ok(image) => {
                &&& decoded(png_size(bytes@, NORMALISED), png_picture(bytes@, NORMALISED)) == Ok::<
                    (u32, u32, Seq<u8>),
                    Seq<char>,
                >((image.width as u32, image.height as u32, image.bytes@))
                &&& image.width <= u32::MAX
                &&& image.height <= u32::MAX
                &&& image.wf()
            },
            Err(e) => decoded(png_size(bytes@, NORMALISED), png_picture(bytes@, NORMALISED))
                == Err::<(u32, u32, Seq<u8>), Seq<char>>(e@),
        },
{
    let (width, height) = match read_size(bytes, NORMALISED) {
        Ok(size) => size,
        Err(_) => {
            return Err(text::copy("reading PNG header"));
        },
    };
    match check_size(width, height) {
        Ok(_) => {},
        Err(e) => {
            return Err(e);
        },
    }
    match read_picture(bytes, NORMALISED) {
        Ok(p) => from_samples(width, height, p.colour, &p.samples),
        Err(_) => Err(text::copy("decoding PNG")),
    }
}

/// An image of no more pixels than are accepted survives the round trip
/// through PNG: what it was encoded as decodes to the same size and the same
/// bytes.
pub proof fn law_png_round_trip(file: Seq<u8>, width: u32, height: u32, bytes: Seq<u8>)
    requires
        0 < width <= MAX_READABLE_WIDTH,
        0 < height,
        width * height <= MAX_PIXELS,
        bytes.len() == width * height * 4,
        encodes(file, width, height, bytes),
    ensures
        decoded(png_size(file, NORMALISED), png_picture(file, NORMALISED)) == Ok::<
            (u32, u32, Seq<u8>),
            Seq<char>,
        >((width, height, bytes)),
{
    assert(width * height > 0) by (nonlinear_arith)
        requires
            width > 0,
            height > 0,
    ;
}

/// Every picture is made of red, green, blue and how opaque it is, pixel by
/// pixel: colours without the last are wholly opaque, and a shade of grey is the
/// same in all three.
pub proof fn law_pixels_are_made_whole(data: Seq<u8>, k: int)
    requires
        0 <= k,
    ensures
        expanded(Colour::Rgba, data) == Some(data),
        expanded(Colour::Rgb, data) matches Some(v) && v.len() == 4 * (data.len() / 3) && (3 * k + 2
            < data.len() ==> v[4 * k] == data[3 * k] && v[4 * k + 1] == data[3 * k + 1] && v[4 * k
            + 2] == data[3 * k + 2] && v[4 * k + 3] == 255),
        expanded(Colour::Grayscale, data) matches Some(v) && v.len() == 4 * data.len() && (k
            < data.len() ==> v[4 * k] == data[k] && v[4 * k + 1] == data[k] && v[4 * k + 2]
            == data[k] && v[4 * k + 3] == 255),
        expanded(Colour::GrayscaleAlpha, data) matches Some(v) && v.len() == 4 * (data.len() / 2) && (
        2 * k + 1 < data.len() ==> v[4 * k] == data[2 * k] && v[4 * k + 1] == data[2 * k] && v[4 * k
            + 2] == data[2 * k] && v[4 * k + 3] == data[2 * k + 1]),
        expanded(Colour::Indexed, data) is None,
{
}

/// A picture is taken where it has pixels, no more than 64 mebi of them, and as
/// many samples as its size asks for; its size and its pixels are then those of
/// the file.
pub proof fn law_whole_pictures_are_taken(
    w: u32,
    h: u32,
    colour: Colour,
    a: u32,
    b: u32,
    data: Seq<u8>,
)
    ensures
        ({
            let r = decoded(Some((w, h)), Some((colour, a, b, data)));
            let fits = w * h > 0 && w * h <= 64 * 1024 * 1024;
            &&& r is Ok <==> fits && (expanded(colour, data) matches Some(v) && v.len() == w * h * 4)
            &&& r matches Ok((x, y, v)) ==> x == w && y == h && expanded(colour, data) == Some(v)
            &&& w * h == 0 ==> r == Err::<(u32, u32, Seq<u8>), Seq<char>>("PNG has zero pixels"@)
            &&& w * h > 64 * 1024 * 1024 ==> r == Err::<(u32, u32, Seq<u8>), Seq<char>>(
                "PNG is "@ + (text::decimal(w as nat) + "x"@ + text::decimal(h as nat))
                    + ", larger than this client will decode"@,
            )
            &&& fits && expanded(colour, data) is None ==> r == Err::<
                (u32, u32, Seq<u8>),
                Seq<char>,
            >("unsupported PNG colour type Indexed"@)
            &&& fits && (expanded(colour, data) matches Some(v) && v.len() != w * h * 4) ==> r
                == Err::<(u32, u32, Seq<u8>), Seq<char>>(
                "image is "@ + text::decimal(expanded(colour, data)->0.len()) + " bytes, expected "@
                    + text::decimal(w as nat * h as nat * 4) + " for "@ + (text::decimal(w as nat)
                    + "x"@ + text::decimal(h as nat)),
            )
        }),
        decoded(None, Some((colour, a, b, data))) == Err::<(u32, u32, Seq<u8>), Seq<char>>(
            "reading PNG header"@,
        ),
        w * h > 0 && w * h <= 64 * 1024 * 1024 ==> decoded(Some((w, h)), None) == Err::<
            (u32, u32, Seq<u8>),
            Seq<char>,
        >("decoding PNG"@),
{
}

/// A side that fits in 32 bits is written as it is.
pub proof fn law_sides_are_held(n: usize)
    ensures
        n < 0x1_0000_0000 ==> held(n) == n,
{
}

} // verus!
