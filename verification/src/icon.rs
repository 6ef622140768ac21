//! Tree-drawing glyphs and the icon theme.  A theme carries its glyphs as
//! plain strings, so what a themed render produces is fully specified; the
//! glyph *content* of a theme is the user's choice.  Without a theme the
//! fixed ASCII glyph set is used.

use vstd::prelude::*;
use vstd::string::*;
use crate::system_profiler::{USBBus, USBDevice};
use crate::usb::Direction;

verus! {

/// A position in the tree drawing that needs a glyph.
#[derive(Clone, Copy, Debug, PartialEq, Eq, Structural)]
pub enum Icon {
    /// Connector of a sibling that is not the last of its batch.
    TreeEdge,
    /// Connector of the last sibling of its batch.
    TreeCorner,
    /// Continuation drawn under an ancestor that has more siblings below.
    TreeLine,
    /// Blank drawn under an ancestor that was the last of its batch.
    TreeBlank,
    /// Glyph that starts a bus line.
    TreeBusStart,
    /// Glyph in front of a device line.
    TreeDeviceTerminator,
    /// Glyph in front of a configuration line.
    TreeConfigurationTerminator,
    /// Glyph in front of an interface line.
    TreeInterfaceTerminator,
    /// Glyph in front of an endpoint line, by its direction.
    Endpoint(Direction),
}

/// The fixed ASCII glyph for each position.
pub open spec fn spec_ascii_tree_icon(i: Icon) -> Seq<char> {
    match i {
        Icon::TreeEdge => "|__ "@,
        Icon::TreeCorner => "\\__ "@,
        Icon::TreeLine => "|   "@,
        Icon::TreeBlank => "    "@,
        Icon::TreeBusStart => "/: "@,
        Icon::TreeDeviceTerminator => "o"@,
        Icon::TreeConfigurationTerminator => "-"@,
        Icon::TreeInterfaceTerminator => "."@,
        Icon::Endpoint(Direction::In) => ">"@,
        Icon::Endpoint(Direction::Out) => "<"@,
    }
}

/// The fixed ASCII glyph for each position, used when no icon theme is
/// active.
pub fn get_ascii_tree_icon(i: &Icon) -> (r: String)
    ensures
        r@ == spec_ascii_tree_icon(*i),
{
    match i {
        Icon::TreeEdge => String::from_str("|__ "),
        Icon::TreeCorner => String::from_str("\\__ "),
        Icon::TreeLine => String::from_str("|   "),
        Icon::TreeBlank => String::from_str("    "),
        Icon::TreeBusStart => String::from_str("/: "),
        Icon::TreeDeviceTerminator => String::from_str("o"),
        Icon::TreeConfigurationTerminator => String::from_str("-"),
        Icon::TreeInterfaceTerminator => String::from_str("."),
        Icon::Endpoint(Direction::In) => String::from_str(">"),
        Icon::Endpoint(Direction::Out) => String::from_str("<"),
    }
}

/// A user-supplied glyph set.  Tree glyphs are looked up by [`Icon`];
/// entity icons stand in for the theme's own lookup of a glyph for a
/// device, a bus or a classifier triple.
#[derive(Clone, Debug)]
pub struct IconTheme {
    /// Glyph for [`Icon::TreeEdge`].
    pub tree_edge: String,
    /// Glyph for [`Icon::TreeCorner`].
    pub tree_corner: String,
    /// Glyph for [`Icon::TreeLine`].
    pub tree_line: String,
    /// Glyph for [`Icon::TreeBlank`].
    pub tree_blank: String,
    /// Glyph for [`Icon::TreeBusStart`].
    pub tree_bus_start: String,
    /// Glyph for [`Icon::TreeDeviceTerminator`].
    pub tree_device_terminator: String,
    /// Glyph for [`Icon::TreeConfigurationTerminator`].
    pub tree_configuration_terminator: String,
    /// Glyph for [`Icon::TreeInterfaceTerminator`].
    pub tree_interface_terminator: String,
    /// Glyph for an endpoint that reads.
    pub tree_endpoint_in: String,
    /// Glyph for an endpoint that writes.
    pub tree_endpoint_out: String,
    /// Icon shown in a device's icon column.
    pub device_icon: String,
    /// Icon shown in a bus's icon column.
    pub bus_icon: String,
    /// Icon shown in an interface's icon column.
    pub classifier_icon: String,
}

/// The glyph a theme assigns to a tree position.
pub open spec fn spec_theme_tree_icon(t: &IconTheme, i: Icon) -> Seq<char> {
    match i {
        Icon::TreeEdge => t.tree_edge@,
        Icon::TreeCorner => t.tree_corner@,
        Icon::TreeLine => t.tree_line@,
        Icon::TreeBlank => t.tree_blank@,
        Icon::TreeBusStart => t.tree_bus_start@,
        Icon::TreeDeviceTerminator => t.tree_device_terminator@,
        Icon::TreeConfigurationTerminator => t.tree_configuration_terminator@,
        Icon::TreeInterfaceTerminator => t.tree_interface_terminator@,
        Icon::Endpoint(Direction::In) => t.tree_endpoint_in@,
        Icon::Endpoint(Direction::Out) => t.tree_endpoint_out@,
    }
}

impl Default for IconTheme {
    /// The ASCII glyph set as a theme.
    fn default() -> (r: Self)
        ensures
            forall|i: Icon| spec_theme_tree_icon(&r, i) == spec_ascii_tree_icon(i),
            r.device_icon@ == "#"@,
            r.bus_icon@ == "="@,
            r.classifier_icon@ == "+"@,
    {
        IconTheme {
            tree_edge: String::from_str("|__ "),
            tree_corner: String::from_str("\\__ "),
            tree_line: String::from_str("|   "),
            tree_blank: String::from_str("    "),
            tree_bus_start: String::from_str("/: "),
            tree_device_terminator: String::from_str("o"),
            tree_configuration_terminator: String::from_str("-"),
            tree_interface_terminator: String::from_str("."),
            tree_endpoint_in: String::from_str(">"),
            tree_endpoint_out: String::from_str("<"),
            device_icon: String::from_str("#"),
            bus_icon: String::from_str("="),
            classifier_icon: String::from_str("+"),
        }
    }
}

impl IconTheme {
    /// The glyph this theme assigns to a tree position.
    pub fn get_tree_icon(&self, i: &Icon) -> (r: String)
        ensures
            r@ == spec_theme_tree_icon(self, *i),
    {
        match i {
            Icon::TreeEdge => self.tree_edge.clone(),
            Icon::TreeCorner => self.tree_corner.clone(),
            Icon::TreeLine => self.tree_line.clone(),
            Icon::TreeBlank => self.tree_blank.clone(),
            Icon::TreeBusStart => self.tree_bus_start.clone(),
            Icon::TreeDeviceTerminator => self.tree_device_terminator.clone(),
            Icon::TreeConfigurationTerminator => self.tree_configuration_terminator.clone(),
            Icon::TreeInterfaceTerminator => self.tree_interface_terminator.clone(),
            Icon::Endpoint(Direction::In) => self.tree_endpoint_in.clone(),
            Icon::Endpoint(Direction::Out) => self.tree_endpoint_out.clone(),
        }
    }

    /// The icon shown for a device; this theme shows one glyph for every
    /// device.
    pub fn get_device_icon(&self, d: &USBDevice) -> (r: String)
        ensures
            r@ == self.device_icon@,
    {
        self.device_icon.clone()
    }

    /// The icon shown for a bus; this theme shows one glyph for every bus.
    pub fn get_bus_icon(&self, b: &USBBus) -> (r: String)
        ensures
            r@ == self.bus_icon@,
    {
        self.bus_icon.clone()
    }

    /// The icon shown for a classifier triple; this theme shows one glyph
    /// for every triple.
    pub fn get_classifier_icon(&self, class: &String, sub_class: u8, protocol: u8) -> (r: String)
        ensures
            r@ == self.classifier_icon@,
    {
        self.classifier_icon.clone()
    }
}

/// A richer glyph set with box-drawing characters, offered as a starting
/// point for a user configuration.
pub fn example_theme() -> (r: IconTheme)
    ensures
        r.tree_edge@ == "\u{251c}\u{2500}\u{2500} "@,
        r.tree_corner@ == "\u{2514}\u{2500}\u{2500} "@,
        r.tree_line@ == "\u{2502}   "@,
        r.tree_blank@ == "    "@,
{
    IconTheme {
        tree_edge: String::from_str("\u{251c}\u{2500}\u{2500} "),
        tree_corner: String::from_str("\u{2514}\u{2500}\u{2500} "),
        tree_line: String::from_str("\u{2502}   "),
        tree_blank: String::from_str("    "),
        tree_bus_start: String::from_str("\u{25cf} "),
        tree_device_terminator: String::from_str("\u{25cb}"),
        tree_configuration_terminator: String::from_str("\u{2022}"),
        tree_interface_terminator: String::from_str("\u{25e6}"),
        tree_endpoint_in: String::from_str("\u{2192}"),
        tree_endpoint_out: String::from_str("\u{2190}"),
        device_icon: String::from_str("\u{25cf}"),
        bus_icon: String::from_str("\u{25a0}"),
        classifier_icon: String::from_str("\u{25c6}"),
    }
}

} // verus!
