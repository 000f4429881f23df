//! Colors and marker shapes by which the map tells resources and purities apart.
use vstd::prelude::*;

use crate::resources::{ResourceDescriptor, ResourcePurity};

verus! {

/// The marker shapes a plot can draw; the same set as the plotting crate offers.
#[derive(Clone, Copy, Debug, PartialEq, Eq, Hash, Structural)]
pub enum MarkerKind {
    Circle,
    Diamond,
    Square,
    Cross,
    Plus,
    Up,
    Down,
    Left,
    Right,
    Asterisk,
}

/// Whether `c` is an ASCII hexadecimal digit.
pub open spec fn is_hex_digit(c: char) -> bool {
    ('0' <= c && c <= '9') || ('a' <= c && c <= 'f') || ('A' <= c && c <= 'F')
}

/// The value of a hexadecimal digit.
pub open spec fn hex_digit_value(c: char) -> int {
    if '0' <= c && c <= '9' {
        c as int - '0' as int
    } else if 'a' <= c && c <= 'f' {
        c as int - 'a' as int + 10
    } else {
        c as int - 'A' as int + 10
    }
}

/// `s` is a color written as `#` followed by six hexadecimal digits.
pub open spec fn is_hex6_color(s: Seq<char>) -> bool {
    &&& s.len() == 7
    &&& s[0] == '#'
    &&& is_hex_digit(s[1])
    &&& is_hex_digit(s[2])
    &&& is_hex_digit(s[3])
    &&& is_hex_digit(s[4])
    &&& is_hex_digit(s[5])
    &&& is_hex_digit(s[6])
}

/// The byte written by the two hexadecimal digits at `i` and `i + 1`.
pub open spec fn hex_byte(s: Seq<char>, i: int) -> u8 {
    (hex_digit_value(s[i]) * 16 + hex_digit_value(s[i + 1])) as u8
}

/// The opaque RGBA color that a `#rrggbb` string denotes.
pub open spec fn hex6_rgba(s: Seq<char>) -> Seq<u8> {
    seq![hex_byte(s, 1), hex_byte(s, 3), hex_byte(s, 5), 255u8]
}

/// Parses a color with `egui::Color32::from_hex` and returns its RGBA bytes
/// (`Color32::to_array`). For a `#` followed by six hexadecimal digits the
/// source shows `Color32::from_rgb(r, g, b)`, that is the bytes the digits
/// write and an alpha of 255; of the 3-, 4- and 8-digit forms and of the
/// refusals nothing is stated here.
#[verifier::external_body]
fn color_from_hex(hex: &str) -> (rgba: Option<[u8; 4]>)
    ensures
        is_hex6_color(hex@) ==> rgba.is_some() && rgba.unwrap()@ == hex6_rgba(hex@),
{
    match egui::Color32::from_hex(hex) {
        Ok(color) => Some(color.to_array()),
        Err(_) => None,
    }
}

/// The hex code of a resource's marker color, on a dark or a light background.
pub open spec fn resource_hex(resource: ResourceDescriptor, is_dark_mode: bool) -> Seq<char> {
    if is_dark_mode {
        match resource {
            ResourceDescriptor::OreIron => "#975f6a"@,
            ResourceDescriptor::Coal => "#15008e"@,
            ResourceDescriptor::OreCopper => "#9b4c2b"@,
            ResourceDescriptor::Stone => "#56452d"@,
            ResourceDescriptor::RawQuartz => "#9f6c99"@,
            ResourceDescriptor::SAM => "#502e8e"@,
            ResourceDescriptor::OreBauxite => "#68392d"@,
            ResourceDescriptor::OreGold => "#af9c72"@,
            ResourceDescriptor::Sulfur => "#afaa27"@,
            ResourceDescriptor::OreUranium => "#357336"@,
            ResourceDescriptor::Water => "#4a88ab"@,
            ResourceDescriptor::LiquidOil => "#603560"@,
            ResourceDescriptor::NitrogenGas => "#7d8089"@,
        }
    } else {
        match resource {
            ResourceDescriptor::OreIron => "#bf7887"@,
            ResourceDescriptor::Coal => "#1b00b5"@,
            ResourceDescriptor::OreCopper => "#c46137"@,
            ResourceDescriptor::Stone => "#6e5839"@,
            ResourceDescriptor::RawQuartz => "#c787bf"@,
            ResourceDescriptor::SAM => "#653ab5"@,
            ResourceDescriptor::OreBauxite => "#854839"@,
            ResourceDescriptor::OreGold => "#dec590"@,
            ResourceDescriptor::Sulfur => "#ded831"@,
            ResourceDescriptor::OreUranium => "#439144"@,
            ResourceDescriptor::Water => "#5dabd9"@,
            ResourceDescriptor::LiquidOil => "#7a437a"@,
            ResourceDescriptor::NitrogenGas => "#9ea2ad"@,
        }
    }
}

/// The hex code of a resource's marker color, on a dark or a light background.
fn resource_hex_str(resource: ResourceDescriptor, is_dark_mode: bool) -> (hex: &'static str)
    ensures
        hex@ == resource_hex(resource, is_dark_mode),
        is_hex6_color(hex@),
{
    let hex = if is_dark_mode {
        match resource {
            ResourceDescriptor::OreIron => "#975f6a",
            ResourceDescriptor::Coal => "#15008e",
            ResourceDescriptor::OreCopper => "#9b4c2b",
            ResourceDescriptor::Stone => "#56452d",
            ResourceDescriptor::RawQuartz => "#9f6c99",
            ResourceDescriptor::SAM => "#502e8e",
            ResourceDescriptor::OreBauxite => "#68392d",
            ResourceDescriptor::OreGold => "#af9c72",
            ResourceDescriptor::Sulfur => "#afaa27",
            ResourceDescriptor::OreUranium => "#357336",
            ResourceDescriptor::Water => "#4a88ab",
            ResourceDescriptor::LiquidOil => "#603560",
            ResourceDescriptor::NitrogenGas => "#7d8089",
        }
    } else {
        match resource {
            ResourceDescriptor::OreIron => "#bf7887",
            ResourceDescriptor::Coal => "#1b00b5",
            ResourceDescriptor::OreCopper => "#c46137",
            ResourceDescriptor::Stone => "#6e5839",
            ResourceDescriptor::RawQuartz => "#c787bf",
            ResourceDescriptor::SAM => "#653ab5",
            ResourceDescriptor::OreBauxite => "#854839",
            ResourceDescriptor::OreGold => "#dec590",
            ResourceDescriptor::Sulfur => "#ded831",
            ResourceDescriptor::OreUranium => "#439144",
            ResourceDescriptor::Water => "#5dabd9",
            ResourceDescriptor::LiquidOil => "#7a437a",
            ResourceDescriptor::NitrogenGas => "#9ea2ad",
        }
    };
    proof {
        reveal_strlit("#975f6a");
        reveal_strlit("#15008e");
        reveal_strlit("#9b4c2b");
        reveal_strlit("#56452d");
        reveal_strlit("#9f6c99");
        reveal_strlit("#502e8e");
        reveal_strlit("#68392d");
        reveal_strlit("#af9c72");
        reveal_strlit("#afaa27");
        reveal_strlit("#357336");
        reveal_strlit("#4a88ab");
        reveal_strlit("#603560");
        reveal_strlit("#7d8089");
        reveal_strlit("#bf7887");
        reveal_strlit("#1b00b5");
        reveal_strlit("#c46137");
        reveal_strlit("#6e5839");
        reveal_strlit("#c787bf");
        reveal_strlit("#653ab5");
        reveal_strlit("#854839");
        reveal_strlit("#dec590");
        reveal_strlit("#ded831");
        reveal_strlit("#439144");
        reveal_strlit("#5dabd9");
        reveal_strlit("#7a437a");
        reveal_strlit("#9ea2ad");
    }
    hex
}

/// The RGBA bytes of a resource's marker color, on a dark or a light background.
pub open spec fn resource_rgba(resource: ResourceDescriptor, is_dark_mode: bool) -> Seq<u8> {
    if is_dark_mode {
        match resource {
            ResourceDescriptor::OreIron => seq![151u8, 95u8, 106u8, 255u8],
            ResourceDescriptor::Coal => seq![21u8, 0u8, 142u8, 255u8],
            ResourceDescriptor::OreCopper => seq![155u8, 76u8, 43u8, 255u8],
            ResourceDescriptor::Stone => seq![86u8, 69u8, 45u8, 255u8],
            ResourceDescriptor::RawQuartz => seq![159u8, 108u8, 153u8, 255u8],
            ResourceDescriptor::SAM => seq![80u8, 46u8, 142u8, 255u8],
            ResourceDescriptor::OreBauxite => seq![104u8, 57u8, 45u8, 255u8],
            ResourceDescriptor::OreGold => seq![175u8, 156u8, 114u8, 255u8],
            ResourceDescriptor::Sulfur => seq![175u8, 170u8, 39u8, 255u8],
            ResourceDescriptor::OreUranium => seq![53u8, 115u8, 54u8, 255u8],
            ResourceDescriptor::Water => seq![74u8, 136u8, 171u8, 255u8],
            ResourceDescriptor::LiquidOil => seq![96u8, 53u8, 96u8, 255u8],
            ResourceDescriptor::NitrogenGas => seq![125u8, 128u8, 137u8, 255u8],
        }
    } else {
        match resource {
            ResourceDescriptor::OreIron => seq![191u8, 120u8, 135u8, 255u8],
            ResourceDescriptor::Coal => seq![27u8, 0u8, 181u8, 255u8],
            ResourceDescriptor::OreCopper => seq![196u8, 97u8, 55u8, 255u8],
            ResourceDescriptor::Stone => seq![110u8, 88u8, 57u8, 255u8],
            ResourceDescriptor::RawQuartz => seq![199u8, 135u8, 191u8, 255u8],
            ResourceDescriptor::SAM => seq![101u8, 58u8, 181u8, 255u8],
            ResourceDescriptor::OreBauxite => seq![133u8, 72u8, 57u8, 255u8],
            ResourceDescriptor::OreGold => seq![222u8, 197u8, 144u8, 255u8],
            ResourceDescriptor::Sulfur => seq![222u8, 216u8, 49u8, 255u8],
            ResourceDescriptor::OreUranium => seq![67u8, 145u8, 68u8, 255u8],
            ResourceDescriptor::Water => seq![93u8, 171u8, 217u8, 255u8],
            ResourceDescriptor::LiquidOil => seq![122u8, 67u8, 122u8, 255u8],
            ResourceDescriptor::NitrogenGas => seq![158u8, 162u8, 173u8, 255u8],
        }
    }
}

/// Every resource's hex code writes its RGBA bytes.
pub proof fn lemma_resource_hex_bytes(resource: ResourceDescriptor, is_dark_mode: bool)
    ensures
        hex6_rgba(resource_hex(resource, is_dark_mode)) == resource_rgba(resource, is_dark_mode),
{
    reveal_strlit("#975f6a");
    reveal_strlit("#15008e");
    reveal_strlit("#9b4c2b");
    reveal_strlit("#56452d");
    reveal_strlit("#9f6c99");
    reveal_strlit("#502e8e");
    reveal_strlit("#68392d");
    reveal_strlit("#af9c72");
    reveal_strlit("#afaa27");
    reveal_strlit("#357336");
    reveal_strlit("#4a88ab");
    reveal_strlit("#603560");
    reveal_strlit("#7d8089");
    reveal_strlit("#bf7887");
    reveal_strlit("#1b00b5");
    reveal_strlit("#c46137");
    reveal_strlit("#6e5839");
    reveal_strlit("#c787bf");
    reveal_strlit("#653ab5");
    reveal_strlit("#854839");
    reveal_strlit("#dec590");
    reveal_strlit("#ded831");
    reveal_strlit("#439144");
    reveal_strlit("#5dabd9");
    reveal_strlit("#7a437a");
    reveal_strlit("#9ea2ad");
    assert(hex6_rgba(resource_hex(resource, is_dark_mode)) =~= resource_rgba(resource, is_dark_mode));
}

/// The color of a resource's markers: the one its hex code writes, on a dark or
/// a light background, as RGBA bytes.
pub fn get_resource_color(resource: ResourceDescriptor, is_dark_mode: bool) -> (color: [u8; 4])
    ensures
        color@ == hex6_rgba(resource_hex(resource, is_dark_mode)),
        color@ == resource_rgba(resource, is_dark_mode),
{
    proof {
        lemma_resource_hex_bytes(resource, is_dark_mode);
    }
    let hex = resource_hex_str(resource, is_dark_mode);
    color_from_hex(hex).unwrap()
}

/// The marker shape that stands for a purity.
pub open spec fn purity_marker(purity: ResourcePurity) -> MarkerKind {
    match purity {
        ResourcePurity::Impure => MarkerKind::Up,
        ResourcePurity::Normal => MarkerKind::Diamond,
        ResourcePurity::Pure => MarkerKind::Circle,
    }
}

/// The marker shape that stands for a purity: a triangle for impure, a
/// diamond for normal and a circle for pure nodes.
pub fn get_purity_marker(purity: ResourcePurity) -> (shape: MarkerKind)
    ensures
        shape == purity_marker(purity),
{
    match purity {
        ResourcePurity::Impure => MarkerKind::Up,
        ResourcePurity::Normal => MarkerKind::Diamond,
        ResourcePurity::Pure => MarkerKind::Circle,
    }
}

/// Different resources get different, opaque colors in either mode.
pub proof fn law_resource_colors_distinct(a: ResourceDescriptor, b: ResourceDescriptor, is_dark_mode: bool)
    ensures
        a != b ==> resource_rgba(a, is_dark_mode) != resource_rgba(b, is_dark_mode),
        resource_rgba(a, is_dark_mode).len() == 4,
        resource_rgba(a, is_dark_mode)[3] == 255,
{
    if a != b {
        let x = resource_rgba(a, is_dark_mode);
        let y = resource_rgba(b, is_dark_mode);
        assert(x[0] != y[0] || x[1] != y[1] || x[2] != y[2]);
    }
}

/// Different purities get different marker shapes, none of them the
/// asterisk that marks geysers; the poorest is a triangle, the richest a
/// circle.
pub proof fn law_purity_markers_distinct(a: ResourcePurity, b: ResourcePurity)
    ensures
        a != b ==> purity_marker(a) != purity_marker(b),
        purity_marker(a) != MarkerKind::Asterisk,
        purity_marker(ResourcePurity::Impure) == MarkerKind::Up,
        purity_marker(ResourcePurity::Normal) == MarkerKind::Diamond,
        purity_marker(ResourcePurity::Pure) == MarkerKind::Circle,
{
}

} // verus!
