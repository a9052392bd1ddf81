//! The application icon.
//!
//! One PNG serves every window. The bytes of that file are handed in, from
//! wherever the client is installed, and what they decode to is decided here.

use vstd::prelude::*;

use crate::imageclip;
use crate::imageclip::{Colour, Picture};

verus! {

/// A decoded icon: RGBA8, row-major, `width * height * 4` bytes.
#[derive(Clone, Debug, PartialEq, Eq)]
pub struct Icon {
    pub rgba: Vec<u8>,
    pub width: u32,
    pub height: u32,
}

/// The RGBA bytes of an icon that is stored with these samples, if they make
/// one: a picture with an alpha channel as it is, one without made opaque, and
/// no other.
pub open spec fn icon_bytes(colour: Colour, width: u32, height: u32, samples: Seq<u8>) -> Option<
    Seq<u8>,
> {
    if colour is Rgba || colour is Rgb {
        match imageclip::expanded(colour, samples) {
            Some(rgba) => if rgba.len() == width * height * 4 {
                Some(rgba)
            } else {
                None
            },
            None => None,
        }
    } else {
        None
    }
}

/// The icon that a decoded picture makes.
///
/// The committed icon has an alpha channel, but one that lost it in a
/// re-export still makes a window icon rather than noise.
pub fn from_picture(p: &Picture) -> (r: Option<Icon>)
    ensures
        match r {
            Some(icon) => {
                &&& icon_bytes(p.colour, p.width, p.height, p.samples@) == Some(icon.rgba@)
                &&& icon.width == p.width
                &&& icon.height == p.height
            },
            None => icon_bytes(p.colour, p.width, p.height, p.samples@) is None,
        },
{
    match p.colour {
        Colour::Rgba | Colour::Rgb => {},
        _ => {
            return None;
        },
    }
    match imageclip::expand(p.colour, &p.samples) {
        Some(rgba) => {
            assert(p.width * p.height <= 0xffff_ffff * 0xffff_ffff) by (nonlinear_arith)
                requires
                    p.width <= 0xffff_ffff,
                    p.height <= 0xffff_ffff,
            ;
            if rgba.len() as u128 != p.width as u128 * p.height as u128 * 4 {
                return None;
            }
            Some(Icon { rgba, width: p.width, height: p.height })
        },
        None => None,
    }
}

/// A picture of that size can be held in memory, whatever its samples are.
pub open spec fn holdable(size: (u32, u32)) -> bool {
    size.0 * size.1 * 8 <= isize::MAX
}

/// The width, height and bytes of the icon in a file, if there is one, when the
/// decoder reads this size and this picture from it.
pub open spec fn loaded(
    size: Option<(u32, u32)>,
    picture: Option<(Colour, u32, u32, Seq<u8>)>,
) -> Option<(u32, u32, Seq<u8>)> {
    match (size, picture) {
        (Some(header), Some((colour, width, height, samples))) => if holdable(header) {
            match icon_bytes(colour, width, height, samples) {
                Some(rgba) => Some((width, height, rgba)),
                None => None,
            }
        } else {
            None
        },
        _ => None,
    }
}

/// Decode the icon, or `None` if it cannot be read.
///
/// A window with no icon is a cosmetic loss and nothing more, so every failure
/// here is silent.
pub fn load(png: &[u8]) -> (r: Option<Icon>)
    ensures
        match r {
            Some(icon) => loaded(
                imageclip::png_size(png@, imageclip::AS_STORED),
                imageclip::png_picture(png@, imageclip::AS_STORED),
            ) == Some((icon.width, icon.height, icon.rgba@)),
            None => loaded(
                imageclip::png_size(png@, imageclip::AS_STORED),
                imageclip::png_picture(png@, imageclip::AS_STORED),
            ) is None,
        },
{
    let (width, height) = match imageclip::read_size(png, imageclip::AS_STORED) {
        Ok(size) => size,
        Err(_) => {
            return None;
        },
    };
    assert(width * height <= 0xffff_ffff * 0xffff_ffff) by (nonlinear_arith)
        requires
            width <= 0xffff_ffff,
            height <= 0xffff_ffff,
    ;
    if width as u128 * height as u128 * 8 > isize::MAX as u128 {
        return None;
    }
    match imageclip::read_picture(png, imageclip::AS_STORED) {
        Ok(p) => from_picture(&p),
        Err(_) => None,
    }
}

/// An icon is a picture in colour with as many samples as its size asks for, and
/// has its size and its pixels.
pub proof fn law_icon_is_its_picture(header: (u32, u32), colour: Colour, w: u32, h: u32, samples: Seq<u8>)
    ensures
        ({
            let r = loaded(Some(header), Some((colour, w, h, samples)));
            let small = header.0 * header.1 * 8 <= isize::MAX;
            &&& colour is Rgba && small && samples.len() == w * h * 4 ==> r == Some((w, h, samples))
            &&& colour is Rgba && samples.len() != w * h * 4 ==> r is None
            &&& colour is Rgb && small && samples.len() == w * h * 3 ==> (r matches Some((a, b, v))
                && a == w && b == h && v.len() == w * h * 4 && forall|k: int|
                0 <= k < w * h ==> #[trigger] v[4 * k] == samples[3 * k] && v[4 * k + 1] == samples[3
                    * k + 1] && v[4 * k + 2] == samples[3 * k + 2] && v[4 * k + 3] == 255)
            &&& !(colour is Rgba) && !(colour is Rgb) ==> r is None
            &&& !small ==> r is None
        }),
        loaded(None, Some((colour, w, h, samples))) is None,
        loaded(Some(header), None) is None,
{
    if colour is Rgb && samples.len() == w * h * 3 {
        let v = imageclip::expanded(colour, samples)->0;
        assert(samples.len() / 3 == w * h);
        assert forall|k: int| 0 <= k < w * h implies #[trigger] v[4 * k] == samples[3 * k] && v[4 * k
            + 1] == samples[3 * k + 1] && v[4 * k + 2] == samples[3 * k + 2] && v[4 * k + 3] == 255 by {
            imageclip::law_pixels_are_made_whole(samples, k);
        }
    }
}

} // verus!
