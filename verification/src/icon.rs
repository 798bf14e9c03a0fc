//! Images: the tray icon, and shortcut icons as PNG data URLs.
use vstd::prelude::*;
use base64::Engine;
use crate::text::{owned, push_text};

verus! {

broadcast use vstd::string::group_string_axioms;

/// The bytes that `png` writes for an 8-bit RGBA image of the given size,
/// encoded with the encoder's default settings.
pub uninterp spec fn png_rgba8(width: u32, height: u32, rgba: Seq<u8>) -> Seq<u8>;

/// Encodes an 8-bit RGBA image with `png::Encoder` (default filter and
/// compression) into memory, the pixel data holding four bytes per pixel.
/// `Encoder::write_header` fails only for a zero width or height (its other
/// errors come from the writer, and writing to a `Vec` does not fail); then
/// the result is none. Otherwise the result is the name `png_rgba8` applied
/// to the arguments. What the bytes are is not stated.
#[verifier::external_body]
fn encode_png_rgba8(width: u32, height: u32, rgba: &[u8]) -> (r: Option<Vec<u8>>)
    requires
        rgba@.len() == 4 * width * height,
    ensures
        r is Some <==> (width != 0 && height != 0),
        r matches Some(b) ==> b@ == png_rgba8(width, height, rgba@),
{
    let mut buf: Vec<u8> = Vec::new();
    {
        let mut enc = png::Encoder::new(&mut buf, width, height);
        enc.set_color(png::ColorType::Rgba);
        enc.set_depth(png::BitDepth::Eight);
        match enc.write_header() {
            Ok(mut w) => {
                let _ = w.write_image_data(rgba);
            },
            Err(_) => return None,
        }
    }
    Some(buf)
}

/// The character of a 6-bit value in the standard Base64 alphabet
/// (RFC 4648): `A`-`Z`, `a`-`z`, `0`-`9`, `+`, `/`.
pub open spec fn base64_char(v: int) -> char {
    if v < 26 {
        (65 + v) as char
    } else if v < 52 {
        (97 + v - 26) as char
    } else if v < 62 {
        (48 + v - 52) as char
    } else if v == 62 {
        '+'
    } else {
        '/'
    }
}

/// The standard Base64 text (RFC 4648 alphabet, with `=` padding) of some
/// bytes: each group of three bytes gives four characters, a last group of
/// one or two bytes gives two or three, padded to four.
pub open spec fn base64_standard(b: Seq<u8>) -> Seq<char>
    decreases b.len(),
{
    if b.len() == 0 {
        Seq::empty()
    } else if b.len() == 1 {
        let n = b[0] as int;
        seq![base64_char(n / 4), base64_char((n % 4) * 16), '=', '=']
    } else if b.len() == 2 {
        let n = b[0] as int * 256 + b[1] as int;
        seq![base64_char(n / 1024), base64_char((n / 16) % 64), base64_char((n % 16) * 4), '=']
    } else {
        let n = b[0] as int * 65536 + b[1] as int * 256 + b[2] as int;
        seq![
            base64_char(n / 262144),
            base64_char((n / 4096) % 64),
            base64_char((n / 64) % 64),
            base64_char(n % 64),
        ] + base64_standard(b.skip(3))
    }
}

/// `base64::engine::general_purpose::STANDARD.encode`: the standard Base64
/// text of the bytes, with padding.
#[verifier::external_body]
fn encode_base64(bytes: &[u8]) -> (r: String)
    ensures
        r@ == base64_standard(bytes@),
{
    base64::engine::general_purpose::STANDARD.encode(bytes)
}

/// Each pixel's first and third byte swapped: blue-green-red-alpha pixels
/// turned into red-green-blue-alpha ones, and back.
pub open spec fn swapped_red_blue(v: Seq<u8>, r: Seq<u8>) -> bool {
    &&& r.len() == v.len()
    &&& forall|p: int|
        0 <= p < v.len() / 4 ==> {
            &&& #[trigger] r[4 * p] == v[4 * p + 2]
            &&& r[4 * p + 1] == v[4 * p + 1]
            &&& r[4 * p + 2] == v[4 * p]
            &&& r[4 * p + 3] == v[4 * p + 3]
        }
}

/// Turns the 64 x 64 pixels that Windows gives (blue, green, red, alpha)
/// into the order PNG wants (red, green, blue, alpha).
pub fn bgra_to_rgba(pixels: &Vec<u8>) -> (r: Vec<u8>)
    requires
        pixels@.len() == 64 * 64 * 4,
    ensures
        swapped_red_blue(pixels@, r@),
{
    let mut rgba: Vec<u8> = vec![0u8; 16384];
    let mut i: usize = 0;
    while i < 4096
        invariant
            pixels@.len() == 16384,
            rgba@.len() == 16384,
            i <= 4096,
            forall|p: int|
                0 <= p < i ==> {
                    &&& #[trigger] rgba@[4 * p] == pixels@[4 * p + 2]
                    &&& rgba@[4 * p + 1] == pixels@[4 * p + 1]
                    &&& rgba@[4 * p + 2] == pixels@[4 * p]
                    &&& rgba@[4 * p + 3] == pixels@[4 * p + 3]
                },
        decreases 4096 - i,
    {
        let o = i * 4;
        let ghost before = rgba@;
        rgba.set(o, pixels[o + 2]);
        rgba.set(o + 1, pixels[o + 1]);
        rgba.set(o + 2, pixels[o]);
        rgba.set(o + 3, pixels[o + 3]);
        assert forall|p: int|
            0 <= p < i + 1 implies {
            &&& #[trigger] rgba@[4 * p] == pixels@[4 * p + 2]
            &&& rgba@[4 * p + 1] == pixels@[4 * p + 1]
            &&& rgba@[4 * p + 2] == pixels@[4 * p]
            &&& rgba@[4 * p + 3] == pixels@[4 * p + 3]
        } by {
            if p < i {
                assert(4 * p + 3 < o);
                assert(before[4 * p] == pixels@[4 * p + 2]);
            }
        }
        i = i + 1;
    }
    rgba
}

/// Law: swapping the first and third byte of each pixel twice gives the
/// pixels back.
pub proof fn law_swap_twice_is_identity(v: Seq<u8>, w: Seq<u8>, x: Seq<u8>)
    requires
        v.len() % 4 == 0,
        swapped_red_blue(v, w),
        swapped_red_blue(w, x),
    ensures
        x == v,
{
    assert forall|j: int| 0 <= j < v.len() implies x[j] == v[j] by {
        let p = j / 4;
        assert(0 <= p < v.len() / 4);
        assert(x[4 * p] == w[4 * p + 2]);
        if j % 4 == 0 {
            assert(j == 4 * p);
        } else if j % 4 == 1 {
            assert(j == 4 * p + 1);
        } else if j % 4 == 2 {
            assert(j == 4 * p + 2);
        } else {
            assert(j == 4 * p + 3);
        }
    }
    assert(x =~= v);
}

/// The data URL of a PNG image.
pub open spec fn png_data_url(png: Seq<u8>) -> Seq<char> {
    "data:image/png;base64,"@ + base64_standard(png)
}

/// The icon of a shortcut as a data URL, from the 64 x 64 thumbnail that
/// Windows gives for the file (blue, green, red, alpha bytes), or none where
/// there is no thumbnail (the file is missing, Windows could not make one,
/// or the system is not Windows).
pub fn get_file_icon_data_url(thumbnail: Option<Vec<u8>>) -> (r: Option<String>)
    requires
        thumbnail matches Some(p) ==> p@.len() == 64 * 64 * 4,
    ensures
        match thumbnail {
            None => r is None,
            Some(p) => r matches Some(url) && exists|rgba: Seq<u8>|
                swapped_red_blue(p@, rgba) && url@ == png_data_url(png_rgba8(64, 64, rgba)),
        },
{
    match thumbnail {
        None => None,
        Some(p) => {
            let rgba = bgra_to_rgba(&p);
            match encode_png_rgba8(64, 64, rgba.as_slice()) {
                Some(png) => {
                    let b64 = encode_base64(png.as_slice());
                    let mut url = owned("data:image/png;base64,");
                    push_text(&mut url, b64.as_str());
                    Some(url)
                },
                None => None,
            }
        },
    }
}

/// The square of a number.
pub open spec fn sq(d: int) -> int {
    d * d
}

/// `a` is the alpha of the tray icon's edge at squared distance `s` from the
/// centre: `floor(255 * (12 - sqrt(s)))`, said without roots:
/// `3059 - a < 255 * sqrt(s) <= 3060 - a`.
pub open spec fn is_edge_alpha(s: int, a: int) -> bool {
    &&& 0 <= a <= 255
    &&& sq(3059 - a) < 65025 * s <= sq(3060 - a)
}

/// The tray icon's pixel `p` (row `p / 32`, column `p % 32`) in `v`: white
/// inside the circle of radius 12 about (16, 16), fading out over its outer
/// pixel, transparent black outside.
pub open spec fn tray_pixel_ok(v: Seq<u8>, p: int) -> bool {
    let s = sq(p % 32 - 16) + sq(p / 32 - 16);
    if s <= 144 {
        &&& v[4 * p] == 255
        &&& v[4 * p + 1] == 255
        &&& v[4 * p + 2] == 255
        &&& if s > 121 {
            is_edge_alpha(s, v[4 * p + 3] as int)
        } else {
            v[4 * p + 3] == 255
        }
    } else {
        &&& v[4 * p] == 0
        &&& v[4 * p + 1] == 0
        &&& v[4 * p + 2] == 0
        &&& v[4 * p + 3] == 0
    }
}

fn square(d: i64) -> (r: i64)
    requires
        -4000 <= d <= 4000,
    ensures
        r == sq(d as int),
        0 <= r <= 16_000_000,
{
    assert(0 <= d * d <= 16_000_000) by (nonlinear_arith)
        requires
            -4000 <= d <= 4000,
    ;
    d * d
}

fn edge_alpha(s: u32) -> (a: u8)
    requires
        122 <= s <= 144,
    ensures
        is_edge_alpha(s as int, a as int),
{
    let s64 = s as i64;
    let mut a: i64 = 255;
    while a > 0 && 65025 * s64 > square(3060 - a)
        invariant
            0 <= a <= 255,
            122 <= s64 <= 144,
            s64 == s,
            forall|b: int| a < b <= 255 ==> 65025 * s > #[trigger] sq(3060 - b),
        decreases a,
    {
        a = a - 1;
    }
    assert(65025 * s <= sq(3060 - a)) by {
        if a == 0 {
            assert(sq(3060) == 9363600);
        }
    }
    if a < 255 {
        assert(65025 * s > sq(3060 - (a + 1)));
        assert(3060 - (a + 1) == 3059 - a);
    } else {
        assert(sq(3059 - 255) == 7862416);
    }
    a as u8
}

/// The 32 x 32 RGBA image of the tray icon: a white disc of radius 12 about
/// the centre (16, 16), anti-aliased over its outer pixel.
pub fn create_tray_icon() -> (r: Vec<u8>)
    ensures
        r@.len() == 32 * 32 * 4,
        forall|p: int| 0 <= p < 1024 ==> #[trigger] tray_pixel_ok(r@, p),
{
    let mut rgba: Vec<u8> = vec![0u8; 4096];
    let mut p: usize = 0;
    while p < 1024
        invariant
            rgba@.len() == 4096,
            p <= 1024,
            forall|q: int| 0 <= q < p ==> #[trigger] tray_pixel_ok(rgba@, q),
            forall|j: int| 4 * p <= j < 4096 ==> rgba@[j] == 0,
        decreases 1024 - p,
    {
        let x = (p % 32) as i32;
        let y = (p / 32) as i32;
        let dx = (x - 16) as i64;
        let dy = (y - 16) as i64;
        let s = (square(dx) + square(dy)) as u32;
        let ghost before = rgba@;
        let idx = p * 4;
        if s <= 144 {
            let a: u8 = if s > 121 {
                edge_alpha(s)
            } else {
                255
            };
            rgba.set(idx, 255);
            rgba.set(idx + 1, 255);
            rgba.set(idx + 2, 255);
            rgba.set(idx + 3, a);
        }
        assert(s == sq(p as int % 32 - 16) + sq(p as int / 32 - 16));
        assert(tray_pixel_ok(rgba@, p as int));
        assert forall|q: int| 0 <= q < p + 1 implies #[trigger] tray_pixel_ok(rgba@, q) by {
            if q < p {
                assert(tray_pixel_ok(before, q));
                assert(4 * q + 3 < idx);
            }
        }
        p = p + 1;
    }
    rgba
}

} // verus!
