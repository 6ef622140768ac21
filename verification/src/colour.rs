//! Colour roles and the theme that assigns an optional terminal colour to
//! each of them.  Applying a colour goes through the `colored` crate, whose
//! output depends on the environment (whether the stream is a terminal, the
//! `NO_COLOR` variable), so only what holds of every outcome is stated; a
//! role without a colour leaves the text untouched, which is exact.

use vstd::prelude::*;
use vstd::string::*;
use colored::Colorize;

verus! {

/// A terminal colour a theme can assign to a role.
#[derive(Clone, Copy, Debug, PartialEq, Eq, Structural)]
pub enum Colour {
    Black,
    Red,
    Green,
    Yellow,
    Blue,
    Magenta,
    Cyan,
    White,
    BrightBlack,
    BrightRed,
    BrightGreen,
    BrightYellow,
    BrightBlue,
    BrightMagenta,
    BrightCyan,
    BrightWhite,
}

/// The name under which the `colored` crate knows this colour.
pub open spec fn spec_colour_name(c: Colour) -> Seq<char> {
    match c {
        Colour::Black => "black"@,
        Colour::Red => "red"@,
        Colour::Green => "green"@,
        Colour::Yellow => "yellow"@,
        Colour::Blue => "blue"@,
        Colour::Magenta => "magenta"@,
        Colour::Cyan => "cyan"@,
        Colour::White => "white"@,
        Colour::BrightBlack => "bright black"@,
        Colour::BrightRed => "bright red"@,
        Colour::BrightGreen => "bright green"@,
        Colour::BrightYellow => "bright yellow"@,
        Colour::BrightBlue => "bright blue"@,
        Colour::BrightMagenta => "bright magenta"@,
        Colour::BrightCyan => "bright cyan"@,
        Colour::BrightWhite => "bright white"@,
    }
}

impl Colour {
    /// The name under which the `colored` crate knows this colour.
    pub fn name(&self) -> (r: String)
        ensures
            r@ == spec_colour_name(*self),
    {
        match self {
            Colour::Black => String::from_str("black"),
            Colour::Red => String::from_str("red"),
            Colour::Green => String::from_str("green"),
            Colour::Yellow => String::from_str("yellow"),
            Colour::Blue => String::from_str("blue"),
            Colour::Magenta => String::from_str("magenta"),
            Colour::Cyan => String::from_str("cyan"),
            Colour::White => String::from_str("white"),
            Colour::BrightBlack => String::from_str("bright black"),
            Colour::BrightRed => String::from_str("bright red"),
            Colour::BrightGreen => String::from_str("bright green"),
            Colour::BrightYellow => String::from_str("bright yellow"),
            Colour::BrightBlue => String::from_str("bright blue"),
            Colour::BrightMagenta => String::from_str("bright magenta"),
            Colour::BrightCyan => String::from_str("bright cyan"),
            Colour::BrightWhite => String::from_str("bright white"),
        }
    }
}

/// The colour each semantic role is shown in; a `None` role stays
/// uncoloured.
#[derive(Clone, Copy, Debug, PartialEq, Eq, Structural)]
pub struct ColourTheme {
    /// Colour for device and bus numbers.
    pub number: Option<Colour>,
    /// Colour for location data: bus numbers, branch and tree positions.
    pub location: Option<Colour>,
    /// Colour for port and sys paths.
    pub path: Option<Colour>,
    /// Colour for vendor ids.
    pub vid: Option<Colour>,
    /// Colour for product ids.
    pub pid: Option<Colour>,
    /// Colour for names.
    pub name: Option<Colour>,
    /// Colour for serial strings.
    pub serial: Option<Colour>,
    /// Colour for manufacturer and vendor names.
    pub manufacturer: Option<Colour>,
    /// Colour for drivers.
    pub driver: Option<Colour>,
    /// Colour for speed labels.
    pub speed: Option<Colour>,
    /// Colour for power figures.
    pub power: Option<Colour>,
    /// Colour for class codes.
    pub class_code: Option<Colour>,
    /// Colour for sub-class codes.
    pub sub_code: Option<Colour>,
    /// Colour for protocol codes.
    pub protocol: Option<Colour>,
    /// Colour for configuration attributes.
    pub attributes: Option<Colour>,
    /// Colour for icons.
    pub icon: Option<Colour>,
    /// Colour for the tree prefix itself.
    pub tree: Option<Colour>,
    /// Colour for the bus start glyph.
    pub tree_bus_start: Option<Colour>,
    /// Colour for the device terminator glyph.
    pub tree_bus_terminator: Option<Colour>,
    /// Colour for the configuration terminator glyph.
    pub tree_configuration_terminator: Option<Colour>,
    /// Colour for the interface terminator glyph.
    pub tree_interface_terminator: Option<Colour>,
    /// Colour for the glyph of an endpoint that reads.
    pub tree_endpoint_in: Option<Colour>,
    /// Colour for the glyph of an endpoint that writes.
    pub tree_endpoint_out: Option<Colour>,
}

impl Default for ColourTheme {
    /// A theme that colours nothing.
    fn default() -> (r: Self)
        ensures
            r == ColourTheme::spec_plain(),
    {
        ColourTheme {
            number: None,
            location: None,
            path: None,
            vid: None,
            pid: None,
            name: None,
            serial: None,
            manufacturer: None,
            driver: None,
            speed: None,
            power: None,
            class_code: None,
            sub_code: None,
            protocol: None,
            attributes: None,
            icon: None,
            tree: None,
            tree_bus_start: None,
            tree_bus_terminator: None,
            tree_configuration_terminator: None,
            tree_interface_terminator: None,
            tree_endpoint_in: None,
            tree_endpoint_out: None,
        }
    }
}

impl ColourTheme {
    /// The theme that colours nothing.
    pub open spec fn spec_plain() -> ColourTheme {
        ColourTheme {
            number: None,
            location: None,
            path: None,
            vid: None,
            pid: None,
            name: None,
            serial: None,
            manufacturer: None,
            driver: None,
            speed: None,
            power: None,
            class_code: None,
            sub_code: None,
            protocol: None,
            attributes: None,
            icon: None,
            tree: None,
            tree_bus_start: None,
            tree_bus_terminator: None,
            tree_configuration_terminator: None,
            tree_interface_terminator: None,
            tree_endpoint_in: None,
            tree_endpoint_out: None,
        }
    }
}

/// Relies on `colored`'s `Colorize::color` (through `From<&str> for
/// Color`): the result is the input wrapped in colour escape codes, or the
/// input itself when the environment disables colouring, so it is never
/// shorter than the input.
#[verifier::external_body]
fn colorize(s: &str, colour_name: &str) -> (r: String)
    ensures
        r@.len() >= s@.len(),
{
    s.color(colour_name).to_string()
}

/// Relies on `colored`'s `Colorize::bold` and `Colorize::underline`: the
/// result is the input wrapped in style escape codes, or the input itself
/// when the environment disables styling, so it is never shorter than the
/// input.
#[verifier::external_body]
pub fn bold_underline(s: &str) -> (r: String)
    ensures
        r@.len() >= s@.len(),
{
    s.bold().underline().to_string()
}

/// Colour `s` in the given colour; text without a colour passes through
/// unchanged.
pub fn apply_colour(s: &str, c: &Option<Colour>) -> (r: String)
    ensures
        c is None ==> r@ == s@,
        r@.len() >= s@.len(),
{
    match c {
        Some(col) => {
            let name = col.name();
            colorize(s, name.as_str())
        },
        None => s.to_owned(),
    }
}

} // verus!
