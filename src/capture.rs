//! The area to cut out of a captured screen image.
use vstd::prelude::*;
use crate::text::{chars_of, has_prefix, starts_with};

verus! {

broadcast use vstd::string::group_string_axioms;

/// A selection on a monitor, in image pixels.
#[derive(Debug)]
pub struct SelectionCoords {
    pub x: u32,
    pub y: u32,
    pub width: u32,
    pub height: u32,
}

pub open spec fn min(a: int, b: int) -> int {
    if a <= b {
        a
    } else {
        b
    }
}

/// The selection clamped into a `w` by `h` image: the origin is moved
/// inside the image, the size cut to what remains.
pub open spec fn clamped(c: SelectionCoords, w: int, h: int) -> (int, int, int, int) {
    let x = min(c.x as int, if w >= 1 { w - 1 } else { 0 });
    let y = min(c.y as int, if h >= 1 { h - 1 } else { 0 });
    (x, y, min(c.width as int, w - x), min(c.height as int, h - y))
}

/// The region to crop as (x, y, width, height); an empty selection is
/// refused.
pub fn crop_region(coords: &SelectionCoords, img_width: u32, img_height: u32) -> (r: Result<
    (u32, u32, u32, u32),
    String,
>)
    ensures
        (coords.width == 0 || coords.height == 0) <==> r is Err,
        r matches Err(e) ==> e@ == "Invalid selection dimensions"@,
        r matches Ok(q) ==> (q.0 as int, q.1 as int, q.2 as int, q.3 as int) == clamped(
            *coords,
            img_width as int,
            img_height as int,
        ),
{
    if coords.width == 0 || coords.height == 0 {
        return Err(String::from_str("Invalid selection dimensions"));
    }
    let max_x = if img_width >= 1 { img_width - 1 } else { 0 };
    let max_y = if img_height >= 1 { img_height - 1 } else { 0 };
    let x = if coords.x <= max_x { coords.x } else { max_x };
    let y = if coords.y <= max_y { coords.y } else { max_y };
    let rest_w = img_width - x;
    let rest_h = img_height - y;
    let width = if coords.width <= rest_w { coords.width } else { rest_w };
    let height = if coords.height <= rest_h { coords.height } else { rest_h };
    Ok((x, y, width, height))
}

/// Whether a window label names a capture overlay.
pub fn is_overlay_label(label: &str) -> (r: bool)
    ensures
        r == has_prefix(label@, "capture-overlay-"@),
{
    let v = chars_of(label);
    let p = chars_of("capture-overlay-");
    starts_with(&v, &p)
}

} // verus!
