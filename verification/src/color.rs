//! Colours as egui stores them: four bytes, the colour channels multiplied by alpha.
use vstd::prelude::*;

verus! {

/// The four bytes that an egui `Color32` holds: red, green and blue
/// multiplied by alpha, then alpha.
#[derive(Clone, Copy, Debug, PartialEq, Eq, Structural)]
pub struct Color32Bytes {
    pub r: u8,
    pub g: u8,
    pub b: u8,
    pub a: u8,
}

/// What `Color32::from_rgba_unmultiplied(r, g, b, a)` stores, as
/// `(r, g, b, a)` bytes; it depends on the four arguments alone.
pub uninterp spec fn premultiplied_of(r: u8, g: u8, b: u8, a: u8) -> (u8, u8, u8, u8);

/// Calls `eframe::egui::Color32::from_rgba_unmultiplied` and reads the stored
/// bytes back with `to_array`. Claimed, as ecolor's source shows: alpha is kept;
/// alpha 0 gives transparent black; alpha 255 keeps the channels. For other
/// alphas the channels come from a lookup table that is not stated here.
#[verifier::external_body]
pub(crate) fn from_rgba_unmultiplied(r: u8, g: u8, b: u8, a: u8) -> (c: Color32Bytes)
    ensures
        (c.r, c.g, c.b, c.a) == premultiplied_of(r, g, b, a),
        c.a == a,
        a == 0 ==> c.r == 0 && c.g == 0 && c.b == 0,
        a == 255 ==> c.r == r && c.g == g && c.b == b,
{
    let [r2, g2, b2, a2] = eframe::egui::Color32::from_rgba_unmultiplied(r, g, b, a).to_array();
    Color32Bytes { r: r2, g: g2, b: b2, a: a2 }
}

/// Reads `eframe::egui::Color32::BLACK`, which ecolor defines as opaque (0, 0, 0).
#[verifier::external_body]
pub(crate) fn black() -> (c: Color32Bytes)
    ensures
        c == (Color32Bytes { r: 0, g: 0, b: 0, a: 255 }),
{
    let [r, g, b, a] = eframe::egui::Color32::BLACK.to_array();
    Color32Bytes { r, g, b, a }
}

/// Reads `eframe::egui::Color32::LIGHT_GRAY`, which ecolor defines as opaque (220, 220, 220).
#[verifier::external_body]
pub(crate) fn light_gray() -> (c: Color32Bytes)
    ensures
        c == (Color32Bytes { r: 220, g: 220, b: 220, a: 255 }),
{
    let [r, g, b, a] = eframe::egui::Color32::LIGHT_GRAY.to_array();
    Color32Bytes { r, g, b, a }
}

/// Reads `eframe::egui::Color32::DARK_GRAY`, which ecolor defines as opaque (96, 96, 96).
#[verifier::external_body]
pub(crate) fn dark_gray() -> (c: Color32Bytes)
    ensures
        c == (Color32Bytes { r: 96, g: 96, b: 96, a: 255 }),
{
    let [r, g, b, a] = eframe::egui::Color32::DARK_GRAY.to_array();
    Color32Bytes { r, g, b, a }
}

} // verus!
