//! The configuration aggregate a caller builds the print settings from:
//! user-supplied themes, per-entity column overrides, and the plain flags.
//! Reading a configuration file from disk is the shell's concern; this
//! module only defines the values.

use vstd::prelude::*;
use crate::colour::ColourTheme;
use crate::display::{
    BusBlocks, ConfigurationBlocks, DeviceBlocks, EndpointBlocks, InterfaceBlocks, MaskSerial,
};
use crate::display::Block;
use crate::icon::{example_theme, IconTheme};

verus! {

/// User-facing configuration: themes, column overrides and flags.
#[derive(Debug)]
pub struct Config {
    /// User-supplied icon theme.
    pub icons: IconTheme,
    /// User-supplied colour theme.
    pub colours: ColourTheme,
    /// Device columns to use by default.
    pub blocks: Option<Vec<DeviceBlocks>>,
    /// Bus columns to use by default.
    pub bus_blocks: Option<Vec<BusBlocks>>,
    /// Configuration columns to use by default.
    pub config_blocks: Option<Vec<ConfigurationBlocks>>,
    /// Interface columns to use by default.
    pub interface_blocks: Option<Vec<InterfaceBlocks>>,
    /// Endpoint columns to use by default.
    pub endpoint_blocks: Option<Vec<EndpointBlocks>>,
    /// Whether to mask serial numbers by default, and how.
    pub mask_serials: Option<MaskSerial>,
    /// Attempt to keep compatibility with the classic list output.
    pub lsusb: bool,
    /// Dump the device hierarchy as a tree.
    pub tree: bool,
    /// Verbosity: `1` prints configurations, `2` interfaces, `3`
    /// endpoints, `4` everything with all columns.
    pub verbose: u8,
    /// Print more columns by default at each verbosity.
    pub more: bool,
    /// Hide buses with no devices.
    pub hide_buses: bool,
    /// Hide hubs left without devices.
    pub hide_hubs: bool,
    /// Show ids in decimal instead of hexadecimal.
    pub decimal: bool,
    /// Disable padding to align columns.
    pub no_padding: bool,
    /// Disable icons and non-ASCII characters.
    pub ascii: bool,
    /// Show column headings.
    pub headings: bool,
    /// Force the fallback profiler rather than the system one.
    pub force_libusb: bool,
}

impl Default for Config {
    /// Everything off, themes at their defaults, no column overrides.
    fn default() -> (r: Self)
        ensures
            r.blocks is None,
            r.bus_blocks is None,
            r.config_blocks is None,
            r.interface_blocks is None,
            r.endpoint_blocks is None,
            r.mask_serials is None,
            r.lsusb == false,
            r.tree == false,
            r.verbose == 0,
            r.more == false,
            r.hide_buses == false,
            r.hide_hubs == false,
            r.decimal == false,
            r.no_padding == false,
            r.ascii == false,
            r.headings == false,
            r.force_libusb == false,
            r.colours == ColourTheme::spec_plain(),
    {
        Config {
            icons: Default::default(),
            colours: Default::default(),
            blocks: None,
            bus_blocks: None,
            config_blocks: None,
            interface_blocks: None,
            endpoint_blocks: None,
            mask_serials: None,
            lsusb: false,
            tree: false,
            verbose: 0,
            more: false,
            hide_buses: false,
            hide_hubs: false,
            decimal: false,
            no_padding: false,
            ascii: false,
            headings: false,
            force_libusb: false,
        }
    }
}

impl Config {
    /// A configuration with everything at its default.
    pub fn new() -> (r: Config)
        ensures
            r.blocks is None,
            r.tree == false,
            r.verbose == 0,
            r.mask_serials is None,
    {
        Default::default()
    }

    /// The configuration in force when no file overrides it: the
    /// defaults.  Looking for and reading a configuration file on disk is
    /// the shell's concern; it falls back to this value.
    pub fn sys() -> (r: Config)
        ensures
            r.blocks is None,
            r.tree == false,
            r.verbose == 0,
            r.mask_serials is None,
    {
        Self::new()
    }

    /// An example configuration: the richer glyph set and every column
    /// list filled with its default set.
    pub fn example() -> (r: Config)
        ensures
            r.blocks matches Some(b) && b@ == DeviceBlocks::spec_default_blocks(false),
            r.bus_blocks matches Some(b) && b@ == BusBlocks::spec_default_blocks(false),
            r.config_blocks matches Some(b) && b@ == ConfigurationBlocks::spec_default_blocks(
                false,
            ),
            r.interface_blocks matches Some(b) && b@ == InterfaceBlocks::spec_default_blocks(
                false,
            ),
            r.endpoint_blocks matches Some(b) && b@ == EndpointBlocks::spec_default_blocks(false),
    {
        Config {
            icons: example_theme(),
            blocks: Some(DeviceBlocks::default_blocks(false)),
            bus_blocks: Some(BusBlocks::default_blocks(false)),
            config_blocks: Some(ConfigurationBlocks::default_blocks(false)),
            interface_blocks: Some(InterfaceBlocks::default_blocks(false)),
            endpoint_blocks: Some(EndpointBlocks::default_blocks(false)),
            ..Default::default()
        }
    }
}

} // verus!
