//! Pixels of application and tray icons.

use vstd::prelude::*;

verus! {

/// Raw 32-bit pixels of an icon, blue-green-red-alpha, row by row.
#[derive(Debug)]
pub struct IconPixels {
    pub width: i32,
    pub height: i32,
    pub bgra_bytes: Vec<u8>,
}

/// The pixels with blue and red exchanged in every complete 4-byte pixel;
/// trailing bytes that make no whole pixel stay as they are.
pub open spec fn swap_red_blue(b: Seq<u8>) -> Seq<u8> {
    let whole = b.len() - b.len() % 4;
    Seq::new(
        b.len(),
        |i: int|
            if i < whole && i % 4 == 0 {
                b[i + 2]
            } else if i < whole && i % 4 == 2 {
                b[i - 2]
            } else {
                b[i]
            },
    )
}

/// The four bytes of a whole pixel after the exchange.
proof fn lemma_swap_pixel(b: Seq<u8>, p: int)
    requires
        0 <= p,
        p % 4 == 0,
        p + 4 <= b.len() - b.len() % 4,
    ensures
        swap_red_blue(b)[p] == b[p + 2],
        swap_red_blue(b)[p + 1] == b[p + 1],
        swap_red_blue(b)[p + 2] == b[p],
        swap_red_blue(b)[p + 3] == b[p + 3],
{
    assert((p + 1) % 4 == 1);
    assert((p + 2) % 4 == 2);
    assert((p + 3) % 4 == 3);
}

/// Bytes past the whole pixels are not exchanged.
proof fn lemma_swap_tail(b: Seq<u8>, i: int)
    requires
        b.len() - b.len() % 4 <= i < b.len(),
    ensures
        swap_red_blue(b)[i] == b[i],
{
}

impl IconPixels {
    /// The pixels in red-green-blue-alpha order, as images and terminals expect.
    pub fn rgba_bytes(&self) -> (rgba: Vec<u8>)
        ensures
            rgba@ == swap_red_blue(self.bgra_bytes@),
    {
        let mut rgba = self.bgra_bytes.clone();
        let n = rgba.len();
        let whole = n - n % 4;
        let mut p: usize = 0;
        while p < whole
            invariant
                n == self.bgra_bytes@.len(),
                rgba@.len() == n,
                whole == n - n % 4,
                p % 4 == 0,
                p <= whole,
                forall|i: int| 0 <= i < p ==> rgba@[i] == swap_red_blue(self.bgra_bytes@)[i],
                forall|i: int| p <= i < n ==> rgba@[i] == self.bgra_bytes@[i],
            decreases whole - p,
        {
            proof {
                lemma_swap_pixel(self.bgra_bytes@, p as int);
            }
            let blue = rgba[p];
            let red = rgba[p + 2];
            rgba.set(p, red);
            rgba.set(p + 2, blue);
            p = p + 4;
        }
        assert forall|i: int| 0 <= i < n implies rgba@[i] == swap_red_blue(self.bgra_bytes@)[i] by {
            if i >= whole {
                lemma_swap_tail(self.bgra_bytes@, i);
            }
        }
        assert(rgba@ =~= swap_red_blue(self.bgra_bytes@));
        rgba
    }
}

/// Exchanging blue and red twice gives back the pixels it started from.
pub proof fn law_swap_involution(b: Seq<u8>)
    ensures
        swap_red_blue(swap_red_blue(b)) == b,
{
    assert(swap_red_blue(swap_red_blue(b)) =~= b);
}

/// The pixels that the `image` crate gives for bytes read as a PNG image and
/// converted to 8-bit red-green-blue-alpha: the pixel bytes, width and height;
/// none when the bytes are not a PNG image that it can decode. The name stands
/// for the composition of `image::load_from_memory_with_format` with the PNG
/// format and `DynamicImage::into_rgba8`.
pub uninterp spec fn decoded_rgba8(encoded: Seq<u8>) -> Option<(Seq<u8>, u32, u32)>;

/// Decodes PNG bytes with `image::load_from_memory_with_format` (the format
/// is fixed, so no format guessing or registered decoding hook takes part) and
/// converts the image with `DynamicImage::into_rgba8`; the result is what
/// `decoded_rgba8` names for these bytes.
#[verifier::external_body]
fn load_rgba8(encoded: &[u8]) -> (r: Option<(Vec<u8>, u32, u32)>)
    ensures
        match r {
            Some(t) => decoded_rgba8(encoded@) == Some((t.0@, t.1, t.2)),
            None => decoded_rgba8(encoded@) is None,
        },
{
    match image::load_from_memory_with_format(encoded, image::ImageFormat::Png) {
        Ok(decoded) => {
            let rgba = decoded.into_rgba8();
            let (width, height) = rgba.dimensions();
            Some((rgba.into_raw(), width, height))
        },
        Err(_) => None,
    }
}

/// An icon as 8-bit red-green-blue-alpha pixels with its size.
#[derive(Debug)]
pub struct RgbaIcon {
    pub rgba: Vec<u8>,
    pub width: u32,
    pub height: u32,
}

/// The tray icon's pixels, decoded from the embedded PNG image; none when it
/// cannot be decoded.
pub fn icon_rgba(encoded: &[u8]) -> (icon: Option<RgbaIcon>)
    ensures
        match icon {
            Some(i) => decoded_rgba8(encoded@) == Some((i.rgba@, i.width, i.height)),
            None => decoded_rgba8(encoded@) is None,
        },
{
    match load_rgba8(encoded) {
        Some((rgba, width, height)) => Some(RgbaIcon { rgba, width, height }),
        None => None,
    }
}

} // verus!
