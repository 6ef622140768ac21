//! The rendering engine: a closed set of display columns ("blocks") per
//! entity type sharing one formatting contract, the per-batch padding
//! calculator, the tree-draw state, the recursive printers that produce the
//! output lines, and the sort / group / mask policies applied before
//! printing.

use vstd::prelude::*;
use vstd::string::*;
use rand::RngExt;
use rand::seq::IteratorRandom;
use crate::colour::{apply_colour, bold_underline, Colour, ColourTheme};
use crate::icon::{
    get_ascii_tree_icon, spec_ascii_tree_icon, spec_theme_tree_icon, Icon, IconTheme,
};
use crate::system_profiler::{
    spec_branch_position, spec_port_path, USBBus, USBDevice, USBFilter, SPUSBDataType,
    spec_bus_path, spec_filtered_bus, spec_flattened_bus, spec_bus_has_devices,
    spec_all_buses, spec_bus_has_empty_hubs, spec_children, spec_dev_height, spec_forest_height,
    lemma_forest_height_elem,
};
use crate::text::{
    centre, dec_pad_left, dec_u64, hex_digits, join_with, pad_left, pad_right, spec_centre,
    spec_dec, spec_hex, spec_join, spec_max, spec_pad_left, spec_pad_right, spec_repeat,
    spec_seq_max,
};
use crate::usb::{
    spec_attributes_str, spec_direction_str, spec_max_packet_str, spec_sync_str,
    spec_transfer_str, spec_usage_str, ConfigAttributes, Direction, SyncType, TransferType,
    UsageType, USBConfiguration, USBEndpoint, USBInterface,
};

verus! {

/// Verbosity level at and above which every level of the tree is shown
/// with its verbose column set.
pub const MAX_VERBOSITY: u8 = 4;

/// Columns that can be shown for a device.
#[derive(Clone, Copy, Debug, PartialEq, Eq, Structural)]
pub enum DeviceBlocks {
    /// Number of the bus the device is attached to.
    BusNumber,
    /// Bus issued device number.
    DeviceNumber,
    /// Position of the device in its parent branch.
    BranchPosition,
    /// Port path of the device.
    PortPath,
    /// Syspath reported by the platform.
    SysPath,
    /// Driver loaded for the device.
    Driver,
    /// Icon from the active theme.
    Icon,
    /// Vendor identifier.
    VendorId,
    /// Product identifier.
    ProductId,
    /// The device name as reported in the descriptor.
    Name,
    /// The manufacturer as provided in the descriptor.
    Manufacturer,
    /// The product name from the id lookup.
    ProductName,
    /// The vendor name from the id lookup.
    VendorName,
    /// Serial string as reported by the descriptor.
    Serial,
    /// Advertised device speed.
    Speed,
    /// Position along all branches back to the trunk device.
    TreePositions,
    /// Bus current in mA.
    BusPower,
    /// Bus current used in mA.
    BusPowerUsed,
    /// Extra current used in mA.
    ExtraCurrentUsed,
    /// The device version.
    BcdDevice,
    /// The supported USB version.
    BcdUsb,
    /// Class code of the device.
    ClassCode,
    /// Sub-class code of the device.
    SubClass,
    /// Protocol code of the device.
    Protocol,
}

/// Columns that can be shown for a bus.
#[derive(Clone, Copy, Debug, PartialEq, Eq, Structural)]
pub enum BusBlocks {
    /// System bus number.
    BusNumber,
    /// Icon from the active theme.
    Icon,
    /// Bus name from the descriptor.
    Name,
    /// Host controller label.
    HostController,
    /// PCI vendor id of the controller.
    PciVendor,
    /// PCI device id of the controller.
    PciDevice,
    /// PCI hardware revision.
    PciRevision,
    /// Syspath-style port path of the bus.
    PortPath,
}

/// Columns that can be shown for a configuration.
#[derive(Clone, Copy, Debug, PartialEq, Eq, Structural)]
pub enum ConfigurationBlocks {
    /// Name from the string descriptor.
    Name,
    /// `bConfigurationValue`.
    Number,
    /// Number of interfaces available under the configuration.
    NumInterfaces,
    /// Attribute flags of `bmAttributes`, as labels.
    Attributes,
    /// Attribute flags of `bmAttributes`, as icons.
    IconAttributes,
    /// Maximum current consumption in mA.
    MaxPower,
}

/// Columns that can be shown for an interface.
#[derive(Clone, Copy, Debug, PartialEq, Eq, Structural)]
pub enum InterfaceBlocks {
    /// Name from the string descriptor.
    Name,
    /// Interface number.
    Number,
    /// Port path of the interface.
    PortPath,
    /// Class name of the interface.
    ClassCode,
    /// Sub-class code.
    SubClass,
    /// Protocol code.
    Protocol,
    /// Alternate setting number.
    AltSetting,
    /// Driver loaded for the interface.
    Driver,
    /// Syspath of the interface.
    SysPath,
    /// Number of endpoints of the interface.
    NumEndpoints,
    /// Icon from the active theme.
    Icon,
}

/// Columns that can be shown for an endpoint.
#[derive(Clone, Copy, Debug, PartialEq, Eq, Structural)]
pub enum EndpointBlocks {
    /// Endpoint number on the interface.
    Number,
    /// Direction of data into the endpoint.
    Direction,
    /// Transfer kind the endpoint accepts.
    TransferType,
    /// Synchronisation type.
    SyncType,
    /// Usage type.
    UsageType,
    /// Maximum packet size in bytes.
    MaxPacketSize,
    /// Polling interval in frame counts.
    Interval,
}

/// How devices are ordered before printing.
#[derive(Clone, Copy, Debug, PartialEq, Eq, Structural)]
pub enum Sort {
    /// Sort by position in the parent branch.
    BranchPosition,
    /// Sort by bus issued device number.
    DeviceNumber,
    /// No sorting; keep the order the tree came in.
    NoSort,
}

impl Default for Sort {
    /// Devices sort by branch position unless asked otherwise.
    fn default() -> (r: Self)
        ensures
            r == Sort::BranchPosition,
    {
        Sort::BranchPosition
    }
}

/// How devices are grouped before printing.
#[derive(Clone, Copy, Debug, PartialEq, Eq, Structural)]
pub enum Group {
    /// No grouping.
    NoGroup,
    /// Group into buses, each bus heading its own block.
    Bus,
}

impl Default for Group {
    /// Devices are not grouped unless asked otherwise.
    fn default() -> (r: Self)
        ensures
            r == Group::NoGroup,
    {
        Group::NoGroup
    }
}

/// Character-set choices for printing.
#[derive(Clone, Copy, Debug, PartialEq, Eq, Structural)]
pub enum Printing {
    /// Draw with the full character set.
    Utf8,
    /// Draw with ASCII characters only.
    Ascii,
    /// Show icons.
    Icons,
    /// Show no icons.
    NoIcons,
}

/// How a serial string is masked before sharing output.
#[derive(Clone, Copy, Debug, PartialEq, Eq, Structural)]
pub enum MaskSerial {
    /// Replace every character with `'*'`.
    Hide,
    /// Replace every character with one drawn from the serial itself.
    Scramble,
    /// Replace the serial with fresh upper-case alphanumeric characters of
    /// the same length.
    Replace,
}

impl Default for MaskSerial {
    /// Serials are hidden with `'*'` unless asked otherwise.
    fn default() -> (r: Self)
        ensures
            r == MaskSerial::Hide,
    {
        MaskSerial::Hide
    }
}

/// Settings of one render pass, read-only throughout it.
#[derive(Debug)]
pub struct PrintSettings {
    /// Do not pad to align columns.
    pub no_padding: bool,
    /// Show numeric ids in decimal instead of hexadecimal.
    pub decimal: bool,
    /// Draw the tree; otherwise print flat.
    pub tree: bool,
    /// Hide buses without devices.
    pub hide_buses: bool,
    /// How devices are ordered.
    pub sort_devices: Sort,
    /// Sort buses by bus number.
    pub sort_buses: bool,
    /// How devices are grouped.
    pub group_devices: Group,
    /// Print a heading row for each batch.
    pub headings: bool,
    /// Verbosity: `1` adds configurations, `2` interfaces, `3` endpoints,
    /// `4` everything with the verbose column sets.
    pub verbosity: u8,
    /// Use the verbose column sets at every verbosity.
    pub more: bool,
    /// Ask for serialized output instead of formatted text.
    pub json: bool,
    /// Mask serial strings before printing.
    pub mask_serials: Option<MaskSerial>,
    /// Device columns to use instead of the default set.
    pub device_blocks: Option<Vec<DeviceBlocks>>,
    /// Bus columns to use instead of the default set.
    pub bus_blocks: Option<Vec<BusBlocks>>,
    /// Configuration columns to use instead of the default set.
    pub config_blocks: Option<Vec<ConfigurationBlocks>>,
    /// Interface columns to use instead of the default set.
    pub interface_blocks: Option<Vec<InterfaceBlocks>>,
    /// Endpoint columns to use instead of the default set.
    pub endpoint_blocks: Option<Vec<EndpointBlocks>>,
    /// Icon theme; `None` prints no icons.
    pub icons: Option<IconTheme>,
    /// Colour theme; `None` prints without colour.
    pub colours: Option<ColourTheme>,
}

impl Default for PrintSettings {
    /// The quiet defaults: flat, hexadecimal, padded, no headings, nothing
    /// masked, every column set and theme left to its default.
    fn default() -> (r: Self)
        ensures
            r.no_padding == false,
            r.decimal == false,
            r.tree == false,
            r.hide_buses == false,
            r.sort_devices == Sort::BranchPosition,
            r.sort_buses == false,
            r.group_devices == Group::NoGroup,
            r.headings == false,
            r.verbosity == 0,
            r.more == false,
            r.json == false,
            r.mask_serials is None,
            r.device_blocks is None,
            r.bus_blocks is None,
            r.config_blocks is None,
            r.interface_blocks is None,
            r.endpoint_blocks is None,
            r.icons is None,
            r.colours is None,
    {
        PrintSettings {
            no_padding: false,
            decimal: false,
            tree: false,
            hide_buses: false,
            sort_devices: Sort::BranchPosition,
            sort_buses: false,
            group_devices: Group::NoGroup,
            headings: false,
            verbosity: 0,
            more: false,
            json: false,
            mask_serials: None,
            device_blocks: None,
            bus_blocks: None,
            config_blocks: None,
            interface_blocks: None,
            endpoint_blocks: None,
            icons: None,
            colours: None,
        }
    }
}

/// The width stored for column `b`, `0` when the table has no entry.
pub open spec fn spec_pad_get<B>(pad: Seq<(B, usize)>, b: B) -> usize
    decreases pad.len(),
{
    if pad.len() == 0 {
        0usize
    } else if pad[0].0 == b {
        pad[0].1
    } else {
        spec_pad_get(pad.drop_first(), b)
    }
}

/// The values a sequence of references points at.
pub open spec fn derefs<T>(s: Seq<&T>) -> Seq<T> {
    s.map_values(|p: &T| *p)
}

/// A lookup in a table whose earlier entries are for other columns lands
/// on the entry at `k`.
proof fn lemma_pad_get_at<B>(pad: Seq<(B, usize)>, b: B, k: int)
    requires
        0 <= k < pad.len(),
        pad[k].0 == b,
        forall|j: int| 0 <= j < k ==> pad[j].0 != b,
    ensures
        spec_pad_get(pad, b) == pad[k].1,
    decreases k,
{
    if k > 0 {
        assert(pad.drop_first()[k - 1] == pad[k]);
        assert(forall|j: int| 0 <= j < k - 1 ==> pad.drop_first()[j] == pad[j + 1]);
        lemma_pad_get_at(pad.drop_first(), b, k - 1);
    }
}

/// The views of a sequence of strings.
pub open spec fn str_views(s: Seq<String>) -> Seq<Seq<char>> {
    s.map_values(|x: String| x@)
}

/// A 16-bit id in the shared numeric format: `0x` and four zero-padded
/// lower-case hex digits, or a six-character right-aligned decimal when
/// decimal mode is on.
pub open spec fn spec_format_base_u16(v: u16, decimal: bool) -> Seq<char> {
    if decimal {
        spec_pad_left(spec_dec(v as nat), 6)
    } else {
        "0x"@ + spec_hex(v as nat, 4)
    }
}

/// An 8-bit code in the shared numeric format: `0x` and two zero-padded
/// lower-case hex digits, or a three-character right-aligned decimal when
/// decimal mode is on.
pub open spec fn spec_format_base_u8(v: u8, decimal: bool) -> Seq<char> {
    if decimal {
        spec_pad_left(spec_dec(v as nat), 3)
    } else {
        "0x"@ + spec_hex(v as nat, 2)
    }
}

/// The shared formatting contract of one column set over one entity type.
pub trait Block<B, T>: Sized {
    /// The canonical ordered column set; richer when `verbose`.
    spec fn spec_default_blocks(verbose: bool) -> Seq<Self>;

    /// The padding table computed for a sibling batch: for each column
    /// with variable-width text, the width of its widest cell or heading.
    spec fn spec_padding_table(items: Seq<T>) -> Seq<(B, usize)>;

    /// Whether this column holds variable-width text, so takes part in
    /// padding.
    spec fn spec_is_string(&self) -> bool;

    /// The heading row cell of this column.
    spec fn spec_heading(&self, pad: Seq<(B, usize)>) -> Seq<char>;

    /// The cell of this column for one entity, `None` when the column does
    /// not apply.
    spec fn spec_value(&self, d: &T, pad: Seq<(B, usize)>, settings: &PrintSettings) -> Option<
        Seq<char>,
    >;

    /// The colour the theme assigns to this column's role.
    spec fn spec_colour(&self, ct: &ColourTheme) -> Option<Colour>;

    /// The canonical ordered column set; richer when `verbose`.
    fn default_blocks(verbose: bool) -> (r: Vec<Self>)
        ensures
            r@ == Self::spec_default_blocks(verbose),
    ;

    /// Compute the padding table over the sibling batch `d`.
    fn generate_padding(d: &Vec<&T>) -> (r: Vec<(B, usize)>)
        ensures
            r@ == Self::spec_padding_table(derefs(d@)),
    ;

    /// Whether this column holds variable-width text.
    fn value_is_string(&self) -> (r: bool)
        ensures
            r == self.spec_is_string(),
    ;

    /// Render the heading row cell of this column.
    fn heading(&self, pad: &Vec<(B, usize)>) -> (r: String)
        ensures
            r@ == self.spec_heading(pad@),
    ;

    /// Render the cell of this column for the entity `d`.
    fn format_value(&self, d: &T, pad: &Vec<(B, usize)>, settings: &PrintSettings) -> (r: Option<
        String,
    >)
        ensures
            r.deep_view() == self.spec_value(d, pad@, settings),
    ;

    /// Colour a rendered cell by this column's role; without a colour for
    /// the role the cell passes through unchanged.
    fn colour(&self, s: &String, ct: &ColourTheme) -> (r: String)
        ensures
            self.spec_colour(ct) is None ==> r@ == s@,
            r@.len() >= s@.len(),
    ;

    /// Format a 16-bit id in the shared numeric format.
    fn format_base_u16(v: u16, settings: &PrintSettings) -> (r: String)
        ensures
            r@ == spec_format_base_u16(v, settings.decimal),
    {
        if settings.decimal {
            dec_pad_left(v as u64, 6)
        } else {
            let mut s = String::from_str("0x");
            let digits = hex_digits(v as u64, 4);
            s.append(digits.as_str());
            s
        }
    }

    /// Format an 8-bit code in the shared numeric format.
    fn format_base_u8(v: u8, settings: &PrintSettings) -> (r: String)
        ensures
            r@ == spec_format_base_u8(v, settings.decimal),
    {
        if settings.decimal {
            dec_pad_left(v as u64, 3)
        } else {
            let mut s = String::from_str("0x");
            let digits = hex_digits(v as u64, 2);
            s.append(digits.as_str());
            s
        }
    }
}

/// The length of an optional string, `0` when absent.
pub open spec fn spec_opt_str_len(s: Option<String>) -> nat {
    match s {
        Some(x) => x@.len(),
        None => 0,
    }
}

/// Twice `n`, capped at the largest width a column can take.
pub open spec fn spec_double_capped(n: nat) -> usize {
    if 2 * n <= usize::MAX {
        (2 * n) as usize
    } else {
        usize::MAX
    }
}

fn opt_str_len(s: &Option<String>) -> (r: usize)
    ensures
        r as nat == spec_opt_str_len(*s),
{
    match s {
        Some(x) => x.as_str().unicode_len(),
        None => 0,
    }
}

fn device_pad_get(pad: &Vec<(DeviceBlocks, usize)>, b: DeviceBlocks) -> (r: usize)
    ensures
        r == spec_pad_get(pad@, b),
{
    proof {
        assert(pad@.skip(0) =~= pad@);
    }
    let mut i: usize = 0;
    while i < pad.len()
        invariant
            i <= pad.len(),
            spec_pad_get(pad@, b) == spec_pad_get(pad@.skip(i as int), b),
        decreases pad.len() - i,
    {
        proof {
            assert(pad@.skip(i as int)[0] == pad@[i as int]);
            assert(pad@.skip(i as int).drop_first() =~= pad@.skip(i as int + 1));
        }
        let (bb, w) = pad[i];
        if bb == b {
            return w;
        }
        i = i + 1;
    }
    proof {
        assert(pad@.skip(i as int) =~= Seq::<(DeviceBlocks, usize)>::empty());
    }
    0
}

/// The heading row cell for a device column.
pub open spec fn spec_device_heading(b: DeviceBlocks, pad: Seq<(DeviceBlocks, usize)>) -> Seq<
    char,
> {
    match b {
        DeviceBlocks::BusNumber => "Bus"@,
        DeviceBlocks::DeviceNumber => " # "@,
        DeviceBlocks::BranchPosition => "Prt"@,
        DeviceBlocks::PortPath => spec_centre("PPath"@, spec_pad_get(pad, b) as nat),
        DeviceBlocks::SysPath => spec_centre("SPath"@, spec_pad_get(pad, b) as nat),
        DeviceBlocks::Driver => spec_centre("Driver"@, spec_pad_get(pad, b) as nat),
        DeviceBlocks::Icon => "I"@,
        DeviceBlocks::VendorId => spec_centre("VID"@, 6),
        DeviceBlocks::ProductId => spec_centre("PID"@, 6),
        DeviceBlocks::Name => spec_centre("Name"@, spec_pad_get(pad, b) as nat),
        DeviceBlocks::Manufacturer => spec_centre("Manufacturer"@, spec_pad_get(pad, b) as nat),
        DeviceBlocks::ProductName => spec_centre("PName"@, spec_pad_get(pad, b) as nat),
        DeviceBlocks::VendorName => spec_centre("VName"@, spec_pad_get(pad, b) as nat),
        DeviceBlocks::Serial => spec_centre("Serial"@, spec_pad_get(pad, b) as nat),
        DeviceBlocks::Speed => spec_centre("Speed"@, 10),
        DeviceBlocks::TreePositions => spec_centre("TPos"@, spec_pad_get(pad, b) as nat),
        DeviceBlocks::BusPower => "PBus"@,
        DeviceBlocks::BusPowerUsed => "PUsd"@,
        DeviceBlocks::ExtraCurrentUsed => "PExr"@,
        DeviceBlocks::BcdDevice => "Dev V"@,
        DeviceBlocks::BcdUsb => "USB V"@,
        DeviceBlocks::ClassCode => spec_centre("Class"@, spec_pad_get(pad, b) as nat),
        DeviceBlocks::SubClass => "SubC"@,
        DeviceBlocks::Protocol => "Pcol"@,
    }
}

/// The cell for a device column: text columns left-aligned to the column
/// width, ids in the shared numeric format, absent attributes as a dash.
pub open spec fn spec_device_value(
    b: DeviceBlocks,
    d: &USBDevice,
    pad: Seq<(DeviceBlocks, usize)>,
    settings: &PrintSettings,
) -> Option<Seq<char>> {
    match b {
        DeviceBlocks::BusNumber => Some(spec_pad_left(spec_dec(d.location_id.bus as nat), 3)),
        DeviceBlocks::DeviceNumber => Some(
            spec_pad_left(spec_dec(d.location_id.number as nat), 3),
        ),
        DeviceBlocks::BranchPosition => Some(
            spec_pad_left(spec_dec(spec_branch_position(d) as nat), 3),
        ),
        DeviceBlocks::PortPath => Some(
            spec_pad_right(spec_port_path(d), spec_pad_get(pad, b) as nat),
        ),
        DeviceBlocks::SysPath => Some(
            spec_pad_right(
                match d.extra {
                    Some(e) => match e.syspath {
                        Some(s) => s@,
                        None => "-"@,
                    },
                    None => "-"@,
                },
                spec_pad_get(pad, b) as nat,
            ),
        ),
        DeviceBlocks::Driver => Some(
            spec_pad_right(
                match d.extra {
                    Some(e) => match e.driver {
                        Some(s) => s@,
                        None => "-"@,
                    },
                    None => "-"@,
                },
                spec_pad_get(pad, b) as nat,
            ),
        ),
        DeviceBlocks::ProductName => Some(
            spec_pad_right(
                match d.extra {
                    Some(e) => match e.product_name {
                        Some(s) => s@,
                        None => "-"@,
                    },
                    None => "-"@,
                },
                spec_pad_get(pad, b) as nat,
            ),
        ),
        DeviceBlocks::VendorName => Some(
            spec_pad_right(
                match d.extra {
                    Some(e) => match e.vendor {
                        Some(s) => s@,
                        None => "-"@,
                    },
                    None => "-"@,
                },
                spec_pad_get(pad, b) as nat,
            ),
        ),
        DeviceBlocks::Icon => match settings.icons {
            Some(t) => Some(t.device_icon@),
            None => None,
        },
        DeviceBlocks::VendorId => Some(
            match d.vendor_id {
                Some(v) => spec_format_base_u16(v, settings.decimal),
                None => spec_pad_left("-"@, 6),
            },
        ),
        DeviceBlocks::ProductId => Some(
            match d.product_id {
                Some(v) => spec_format_base_u16(v, settings.decimal),
                None => spec_pad_left("-"@, 6),
            },
        ),
        DeviceBlocks::Name => Some(spec_pad_right(d.name@, spec_pad_get(pad, b) as nat)),
        DeviceBlocks::Manufacturer => Some(
            spec_pad_right(
                match d.manufacturer {
                    Some(s) => s@,
                    None => "-"@,
                },
                spec_pad_get(pad, b) as nat,
            ),
        ),
        DeviceBlocks::Serial => Some(
            spec_pad_right(
                match d.serial_num {
                    Some(s) => s@,
                    None => "-"@,
                },
                spec_pad_get(pad, b) as nat,
            ),
        ),
        DeviceBlocks::Speed => Some(
            spec_pad_left(
                match d.device_speed {
                    Some(s) => s@,
                    None => "-"@,
                },
                10,
            ),
        ),
        DeviceBlocks::TreePositions => Some(
            spec_pad_right(
                spec_join(
                    d.location_id.tree_positions@.map_values(|p: u8| spec_dec(p as nat)),
                    "-"@,
                ),
                spec_pad_get(pad, b) as nat,
            ),
        ),
        DeviceBlocks::BusPower => Some(
            match d.bus_power {
                Some(v) => spec_pad_left(spec_dec(v as nat), 3) + " mA"@,
                None => spec_pad_left("-"@, 6),
            },
        ),
        DeviceBlocks::BusPowerUsed => Some(
            match d.bus_power_used {
                Some(v) => spec_pad_left(spec_dec(v as nat), 3) + " mA"@,
                None => spec_pad_left("-"@, 6),
            },
        ),
        DeviceBlocks::ExtraCurrentUsed => Some(
            match d.extra_current_used {
                Some(v) => spec_pad_left(spec_dec(v as nat), 3) + " mA"@,
                None => spec_pad_left("-"@, 6),
            },
        ),
        DeviceBlocks::BcdDevice => Some(
            match d.bcd_device {
                Some(s) => spec_pad_right(s@, 5),
                None => spec_pad_left("-"@, 5),
            },
        ),
        DeviceBlocks::BcdUsb => Some(
            match d.bcd_usb {
                Some(s) => spec_pad_right(s@, 5),
                None => spec_pad_left("-"@, 5),
            },
        ),
        DeviceBlocks::ClassCode => Some(
            spec_pad_right(
                match d.class {
                    Some(s) => s@,
                    None => "-"@,
                },
                spec_pad_get(pad, b) as nat,
            ),
        ),
        DeviceBlocks::SubClass => Some(
            match d.sub_class {
                Some(v) => spec_format_base_u8(v, settings.decimal),
                None => spec_pad_left("-"@, 4),
            },
        ),
        DeviceBlocks::Protocol => Some(
            match d.protocol {
                Some(v) => spec_format_base_u8(v, settings.decimal),
                None => spec_pad_left("-"@, 4),
            },
        ),
    }
}

/// The padding table for a batch of sibling devices: for each text column,
/// the width of its widest cell or heading.
pub open spec fn spec_device_padding_table(items: Seq<USBDevice>) -> Seq<(DeviceBlocks, usize)> {
    seq![
        (
            DeviceBlocks::Name,
            spec_max(
                "Name"@.len(),
                spec_seq_max(items.map_values(|d: USBDevice| d.name@.len())),
            ) as usize,
        ),
        (
            DeviceBlocks::Serial,
            spec_max(
                "Serial"@.len(),
                spec_seq_max(items.map_values(|d: USBDevice| spec_opt_str_len(d.serial_num))),
            ) as usize,
        ),
        (
            DeviceBlocks::Manufacturer,
            spec_max(
                "Manufacturer"@.len(),
                spec_seq_max(items.map_values(|d: USBDevice| spec_opt_str_len(d.manufacturer))),
            ) as usize,
        ),
        (
            DeviceBlocks::TreePositions,
            spec_max(
                "TPos"@.len(),
                spec_seq_max(
                    items.map_values(
                        |d: USBDevice| spec_double_capped(
                            d.location_id.tree_positions@.len(),
                        ) as nat,
                    ),
                ),
            ) as usize,
        ),
        (
            DeviceBlocks::PortPath,
            spec_max(
                "PPath"@.len(),
                spec_seq_max(items.map_values(|d: USBDevice| spec_port_path(&d).len())),
            ) as usize,
        ),
        (
            DeviceBlocks::SysPath,
            spec_max(
                "SPath"@.len(),
                spec_seq_max(
                    items.map_values(
                        |d: USBDevice| match d.extra {
                            Some(e) => spec_opt_str_len(e.syspath),
                            None => 0nat,
                        },
                    ),
                ),
            ) as usize,
        ),
        (
            DeviceBlocks::Driver,
            spec_max(
                "Driver"@.len(),
                spec_seq_max(
                    items.map_values(
                        |d: USBDevice| match d.extra {
                            Some(e) => spec_opt_str_len(e.driver),
                            None => 0nat,
                        },
                    ),
                ),
            ) as usize,
        ),
        (
            DeviceBlocks::ProductName,
            spec_max(
                "PName"@.len(),
                spec_seq_max(
                    items.map_values(
                        |d: USBDevice| match d.extra {
                            Some(e) => spec_opt_str_len(e.product_name),
                            None => 0nat,
                        },
                    ),
                ),
            ) as usize,
        ),
        (
            DeviceBlocks::VendorName,
            spec_max(
                "VName"@.len(),
                spec_seq_max(
                    items.map_values(
                        |d: USBDevice| match d.extra {
                            Some(e) => spec_opt_str_len(e.vendor),
                            None => 0nat,
                        },
                    ),
                ),
            ) as usize,
        ),
        (
            DeviceBlocks::ClassCode,
            spec_max(
                "Class"@.len(),
                spec_seq_max(items.map_values(|d: USBDevice| spec_opt_str_len(d.class))),
            ) as usize,
        ),
    ]
}

proof fn lemma_width_tight(label_len: nat, lens: Seq<nat>)
    requires
        label_len <= usize::MAX,
        forall|i: int| 0 <= i < lens.len() ==> #[trigger] lens[i] <= usize::MAX,
    ensures
        (spec_max(label_len, spec_seq_max(lens)) as usize) as nat >= label_len,
        forall|i: int|
            0 <= i < lens.len() ==> (spec_max(label_len, spec_seq_max(lens)) as usize) as nat
                >= #[trigger] lens[i],
        (spec_max(label_len, spec_seq_max(lens)) as usize) as nat == label_len || exists|i: int|
            0 <= i < lens.len() && (spec_max(label_len, spec_seq_max(lens)) as usize) as nat
                == lens[i],
{
    crate::text::lemma_seq_max_is_tight(lens);
    let m = spec_seq_max(lens);
    if m > 0 {
        let i = choose|i: int| 0 <= i < lens.len() && lens[i] == m;
        assert(m <= usize::MAX);
    }
    if m >= label_len {
        if m > 0 {
        } else {
            assert(label_len == 0);
        }
    }
}

/// For every sibling batch, the padding width of a text column is at
/// least the column's heading length and at least every sibling's
/// unpadded value length, and it is exactly one of those: the tight
/// maximum, never larger.  Stated here for the device set's four text
/// columns; the other entity types' tables are built from the same
/// maximum.
pub proof fn lemma_device_padding_tight(items: Seq<USBDevice>)
    requires
        forall|i: int|
            0 <= i < items.len() ==> (#[trigger] items[i]).name@.len() <= usize::MAX
                && spec_opt_str_len(items[i].serial_num) <= usize::MAX && spec_opt_str_len(
                items[i].manufacturer,
            ) <= usize::MAX && spec_port_path(&items[i]).len() <= usize::MAX,
    ensures
        spec_pad_get(spec_device_padding_table(items), DeviceBlocks::Name) >= "Name"@.len(),
        forall|i: int|
            0 <= i < items.len() ==> spec_pad_get(
                spec_device_padding_table(items),
                DeviceBlocks::Name,
            ) >= (#[trigger] items[i]).name@.len(),
        spec_pad_get(spec_device_padding_table(items), DeviceBlocks::Name) == "Name"@.len()
            || exists|i: int|
            0 <= i < items.len() && spec_pad_get(
                spec_device_padding_table(items),
                DeviceBlocks::Name,
            ) == (#[trigger] items[i]).name@.len(),
        spec_pad_get(spec_device_padding_table(items), DeviceBlocks::Serial) >= "Serial"@.len(),
        forall|i: int|
            0 <= i < items.len() ==> spec_pad_get(
                spec_device_padding_table(items),
                DeviceBlocks::Serial,
            ) >= spec_opt_str_len((#[trigger] items[i]).serial_num),
        spec_pad_get(spec_device_padding_table(items), DeviceBlocks::Serial) == "Serial"@.len()
            || exists|i: int|
            0 <= i < items.len() && spec_pad_get(
                spec_device_padding_table(items),
                DeviceBlocks::Serial,
            ) == spec_opt_str_len((#[trigger] items[i]).serial_num),
        spec_pad_get(spec_device_padding_table(items), DeviceBlocks::Manufacturer)
            >= "Manufacturer"@.len(),
        forall|i: int|
            0 <= i < items.len() ==> spec_pad_get(
                spec_device_padding_table(items),
                DeviceBlocks::Manufacturer,
            ) >= spec_opt_str_len((#[trigger] items[i]).manufacturer),
        spec_pad_get(spec_device_padding_table(items), DeviceBlocks::Manufacturer)
            == "Manufacturer"@.len() || exists|i: int|
            0 <= i < items.len() && spec_pad_get(
                spec_device_padding_table(items),
                DeviceBlocks::Manufacturer,
            ) == spec_opt_str_len((#[trigger] items[i]).manufacturer),
        spec_pad_get(spec_device_padding_table(items), DeviceBlocks::PortPath) >= "PPath"@.len(),
        forall|i: int|
            0 <= i < items.len() ==> spec_pad_get(
                spec_device_padding_table(items),
                DeviceBlocks::PortPath,
            ) >= spec_port_path(&(#[trigger] items[i])).len(),
        spec_pad_get(spec_device_padding_table(items), DeviceBlocks::PortPath) == "PPath"@.len()
            || exists|i: int|
            0 <= i < items.len() && spec_pad_get(
                spec_device_padding_table(items),
                DeviceBlocks::PortPath,
            ) == spec_port_path(&(#[trigger] items[i])).len(),
{
    reveal_strlit("Name");
    reveal_strlit("Serial");
    reveal_strlit("Manufacturer");
    reveal_strlit("PPath");
    let table = spec_device_padding_table(items);
    let name_lens = items.map_values(|d: USBDevice| d.name@.len());
    let serial_lens = items.map_values(|d: USBDevice| spec_opt_str_len(d.serial_num));
    let manufacturer_lens = items.map_values(|d: USBDevice| spec_opt_str_len(d.manufacturer));
    let ppath_lens = items.map_values(|d: USBDevice| spec_port_path(&d).len());
    lemma_pad_get_at(table, DeviceBlocks::Name, 0);
    lemma_pad_get_at(table, DeviceBlocks::Serial, 1);
    lemma_pad_get_at(table, DeviceBlocks::Manufacturer, 2);
    lemma_pad_get_at(table, DeviceBlocks::PortPath, 4);
    assert(forall|i: int|
        0 <= i < items.len() ==> #[trigger] name_lens[i] == items[i].name@.len() && serial_lens[i]
            == spec_opt_str_len(items[i].serial_num) && manufacturer_lens[i] == spec_opt_str_len(
            items[i].manufacturer,
        ) && ppath_lens[i] == spec_port_path(&items[i]).len());
    lemma_width_tight("Name"@.len(), name_lens);
    lemma_width_tight("Serial"@.len(), serial_lens);
    lemma_width_tight("Manufacturer"@.len(), manufacturer_lens);
    lemma_width_tight("PPath"@.len(), ppath_lens);
    assert forall|i: int|
        0 <= i < items.len() implies spec_pad_get(table, DeviceBlocks::Name) >= (
    #[trigger] items[i]).name@.len() && spec_pad_get(table, DeviceBlocks::Serial)
        >= spec_opt_str_len(items[i].serial_num) && spec_pad_get(
        table,
        DeviceBlocks::Manufacturer,
    ) >= spec_opt_str_len(items[i].manufacturer) && spec_pad_get(table, DeviceBlocks::PortPath)
        >= spec_port_path(&items[i]).len() by {
        assert(name_lens[i] == items[i].name@.len());
        assert(serial_lens[i] == spec_opt_str_len(items[i].serial_num));
        assert(manufacturer_lens[i] == spec_opt_str_len(items[i].manufacturer));
        assert(ppath_lens[i] == spec_port_path(&items[i]).len());
    }
    if spec_pad_get(table, DeviceBlocks::Name) != "Name"@.len() {
        let i = choose|i: int|
            0 <= i < name_lens.len() && spec_pad_get(table, DeviceBlocks::Name) == name_lens[i];
        assert(spec_pad_get(table, DeviceBlocks::Name) == (#[trigger] items[i]).name@.len());
    }
    if spec_pad_get(table, DeviceBlocks::Serial) != "Serial"@.len() {
        let i = choose|i: int|
            0 <= i < serial_lens.len() && spec_pad_get(table, DeviceBlocks::Serial)
                == serial_lens[i];
        assert(spec_pad_get(table, DeviceBlocks::Serial) == spec_opt_str_len(
            (#[trigger] items[i]).serial_num,
        ));
    }
    if spec_pad_get(table, DeviceBlocks::Manufacturer) != "Manufacturer"@.len() {
        let i = choose|i: int|
            0 <= i < manufacturer_lens.len() && spec_pad_get(table, DeviceBlocks::Manufacturer)
                == manufacturer_lens[i];
        assert(spec_pad_get(table, DeviceBlocks::Manufacturer) == spec_opt_str_len(
            (#[trigger] items[i]).manufacturer,
        ));
    }
    if spec_pad_get(table, DeviceBlocks::PortPath) != "PPath"@.len() {
        let i = choose|i: int|
            0 <= i < ppath_lens.len() && spec_pad_get(table, DeviceBlocks::PortPath)
                == ppath_lens[i];
        assert(spec_pad_get(table, DeviceBlocks::PortPath) == spec_port_path(
            &(#[trigger] items[i]),
        ).len());
    }
}

/// The canonical device column set when a tree is drawn.
pub open spec fn spec_device_tree_blocks() -> Seq<DeviceBlocks> {
    seq![
        DeviceBlocks::Icon,
        DeviceBlocks::DeviceNumber,
        DeviceBlocks::VendorId,
        DeviceBlocks::ProductId,
        DeviceBlocks::Name,
        DeviceBlocks::Serial,
    ]
}

impl DeviceBlocks {
    /// The canonical device column set when a tree is drawn, narrower than
    /// the flat-list set.
    pub fn default_device_tree_blocks() -> (r: Vec<DeviceBlocks>)
        ensures
            r@ == spec_device_tree_blocks(),
    {
        let mut r: Vec<DeviceBlocks> = Vec::new();
        r.push(DeviceBlocks::Icon);
        r.push(DeviceBlocks::DeviceNumber);
        r.push(DeviceBlocks::VendorId);
        r.push(DeviceBlocks::ProductId);
        r.push(DeviceBlocks::Name);
        r.push(DeviceBlocks::Serial);
        proof {
            assert(r@ =~= spec_device_tree_blocks());
        }
        r
    }
}

impl Block<DeviceBlocks, USBDevice> for DeviceBlocks {
    open spec fn spec_default_blocks(verbose: bool) -> Seq<DeviceBlocks> {
        if verbose {
            seq![
                DeviceBlocks::BusNumber,
                DeviceBlocks::DeviceNumber,
                DeviceBlocks::TreePositions,
                DeviceBlocks::PortPath,
                DeviceBlocks::Icon,
                DeviceBlocks::VendorId,
                DeviceBlocks::ProductId,
                DeviceBlocks::BcdDevice,
                DeviceBlocks::BcdUsb,
                DeviceBlocks::ClassCode,
                DeviceBlocks::SubClass,
                DeviceBlocks::Protocol,
                DeviceBlocks::Name,
                DeviceBlocks::Manufacturer,
                DeviceBlocks::Serial,
                DeviceBlocks::Driver,
                DeviceBlocks::Speed,
            ]
        } else {
            seq![
                DeviceBlocks::BusNumber,
                DeviceBlocks::DeviceNumber,
                DeviceBlocks::Icon,
                DeviceBlocks::VendorId,
                DeviceBlocks::ProductId,
                DeviceBlocks::Name,
                DeviceBlocks::Serial,
                DeviceBlocks::Speed,
            ]
        }
    }

    open spec fn spec_padding_table(items: Seq<USBDevice>) -> Seq<(DeviceBlocks, usize)> {
        spec_device_padding_table(items)
    }

    open spec fn spec_is_string(&self) -> bool {
        match self {
            DeviceBlocks::Name
            | DeviceBlocks::Serial
            | DeviceBlocks::PortPath
            | DeviceBlocks::Manufacturer => true,
            _ => false,
        }
    }

    open spec fn spec_heading(&self, pad: Seq<(DeviceBlocks, usize)>) -> Seq<char> {
        spec_device_heading(*self, pad)
    }

    open spec fn spec_value(
        &self,
        d: &USBDevice,
        pad: Seq<(DeviceBlocks, usize)>,
        settings: &PrintSettings,
    ) -> Option<Seq<char>> {
        spec_device_value(*self, d, pad, settings)
    }

    open spec fn spec_colour(&self, ct: &ColourTheme) -> Option<Colour> {
        match self {
            DeviceBlocks::BcdUsb | DeviceBlocks::BcdDevice | DeviceBlocks::DeviceNumber => {
                ct.number
            },
            DeviceBlocks::BusNumber
            | DeviceBlocks::BranchPosition
            | DeviceBlocks::TreePositions => ct.location,
            DeviceBlocks::Icon => ct.icon,
            DeviceBlocks::PortPath | DeviceBlocks::SysPath => ct.path,
            DeviceBlocks::VendorId => ct.vid,
            DeviceBlocks::ProductId => ct.pid,
            DeviceBlocks::Name | DeviceBlocks::ProductName => ct.name,
            DeviceBlocks::Serial => ct.serial,
            DeviceBlocks::Manufacturer | DeviceBlocks::VendorName => ct.manufacturer,
            DeviceBlocks::Driver => ct.driver,
            DeviceBlocks::Speed => ct.speed,
            DeviceBlocks::BusPower
            | DeviceBlocks::BusPowerUsed
            | DeviceBlocks::ExtraCurrentUsed => ct.power,
            DeviceBlocks::ClassCode => ct.class_code,
            DeviceBlocks::SubClass => ct.sub_code,
            DeviceBlocks::Protocol => ct.protocol,
        }
    }

    fn default_blocks(verbose: bool) -> (r: Vec<DeviceBlocks>) {
        let mut r: Vec<DeviceBlocks> = Vec::new();
        if verbose {
            r.push(DeviceBlocks::BusNumber);
            r.push(DeviceBlocks::DeviceNumber);
            r.push(DeviceBlocks::TreePositions);
            r.push(DeviceBlocks::PortPath);
            r.push(DeviceBlocks::Icon);
            r.push(DeviceBlocks::VendorId);
            r.push(DeviceBlocks::ProductId);
            r.push(DeviceBlocks::BcdDevice);
            r.push(DeviceBlocks::BcdUsb);
            r.push(DeviceBlocks::ClassCode);
            r.push(DeviceBlocks::SubClass);
            r.push(DeviceBlocks::Protocol);
            r.push(DeviceBlocks::Name);
            r.push(DeviceBlocks::Manufacturer);
            r.push(DeviceBlocks::Serial);
            r.push(DeviceBlocks::Driver);
            r.push(DeviceBlocks::Speed);
        } else {
            r.push(DeviceBlocks::BusNumber);
            r.push(DeviceBlocks::DeviceNumber);
            r.push(DeviceBlocks::Icon);
            r.push(DeviceBlocks::VendorId);
            r.push(DeviceBlocks::ProductId);
            r.push(DeviceBlocks::Name);
            r.push(DeviceBlocks::Serial);
            r.push(DeviceBlocks::Speed);
        }
        proof {
            assert(r@ =~= Self::spec_default_blocks(verbose));
        }
        r
    }

    fn generate_padding(d: &Vec<&USBDevice>) -> (r: Vec<(DeviceBlocks, usize)>) {
        let ghost items = derefs(d@);
        let ghost name_lens = items.map_values(|d: USBDevice| d.name@.len());
        let ghost serial_lens = items.map_values(|d: USBDevice| spec_opt_str_len(d.serial_num));
        let ghost manufacturer_lens = items.map_values(
            |d: USBDevice| spec_opt_str_len(d.manufacturer),
        );
        let ghost tpos_lens = items.map_values(
            |d: USBDevice| spec_double_capped(d.location_id.tree_positions@.len()) as nat,
        );
        let ghost ppath_lens = items.map_values(|d: USBDevice| spec_port_path(&d).len());
        let ghost spath_lens = items.map_values(
            |d: USBDevice| match d.extra {
                Some(e) => spec_opt_str_len(e.syspath),
                None => 0nat,
            },
        );
        let ghost driver_lens = items.map_values(
            |d: USBDevice| match d.extra {
                Some(e) => spec_opt_str_len(e.driver),
                None => 0nat,
            },
        );
        let ghost pname_lens = items.map_values(
            |d: USBDevice| match d.extra {
                Some(e) => spec_opt_str_len(e.product_name),
                None => 0nat,
            },
        );
        let ghost vname_lens = items.map_values(
            |d: USBDevice| match d.extra {
                Some(e) => spec_opt_str_len(e.vendor),
                None => 0nat,
            },
        );
        let ghost class_lens = items.map_values(|d: USBDevice| spec_opt_str_len(d.class));
        let mut name_w: usize = 0;
        let mut serial_w: usize = 0;
        let mut manufacturer_w: usize = 0;
        let mut tpos_w: usize = 0;
        let mut ppath_w: usize = 0;
        let mut spath_w: usize = 0;
        let mut driver_w: usize = 0;
        let mut pname_w: usize = 0;
        let mut vname_w: usize = 0;
        let mut class_w: usize = 0;
        let n = d.len();
        let mut i: usize = 0;
        while i < n
            invariant
                n == d@.len(),
                i <= n,
                items == derefs(d@),
                items.len() == n,
                name_lens == items.map_values(|d: USBDevice| d.name@.len()),
                serial_lens == items.map_values(|d: USBDevice| spec_opt_str_len(d.serial_num)),
                manufacturer_lens == items.map_values(
                    |d: USBDevice| spec_opt_str_len(d.manufacturer),
                ),
                tpos_lens == items.map_values(
                    |d: USBDevice| spec_double_capped(d.location_id.tree_positions@.len()) as nat,
                ),
                ppath_lens == items.map_values(|d: USBDevice| spec_port_path(&d).len()),
                spath_lens == items.map_values(
                    |d: USBDevice| match d.extra {
                        Some(e) => spec_opt_str_len(e.syspath),
                        None => 0nat,
                    },
                ),
                driver_lens == items.map_values(
                    |d: USBDevice| match d.extra {
                        Some(e) => spec_opt_str_len(e.driver),
                        None => 0nat,
                    },
                ),
                pname_lens == items.map_values(
                    |d: USBDevice| match d.extra {
                        Some(e) => spec_opt_str_len(e.product_name),
                        None => 0nat,
                    },
                ),
                vname_lens == items.map_values(
                    |d: USBDevice| match d.extra {
                        Some(e) => spec_opt_str_len(e.vendor),
                        None => 0nat,
                    },
                ),
                class_lens == items.map_values(|d: USBDevice| spec_opt_str_len(d.class)),
                name_w as nat == spec_seq_max(name_lens.take(i as int)),
                serial_w as nat == spec_seq_max(serial_lens.take(i as int)),
                manufacturer_w as nat == spec_seq_max(manufacturer_lens.take(i as int)),
                tpos_w as nat == spec_seq_max(tpos_lens.take(i as int)),
                ppath_w as nat == spec_seq_max(ppath_lens.take(i as int)),
                spath_w as nat == spec_seq_max(spath_lens.take(i as int)),
                driver_w as nat == spec_seq_max(driver_lens.take(i as int)),
                pname_w as nat == spec_seq_max(pname_lens.take(i as int)),
                vname_w as nat == spec_seq_max(vname_lens.take(i as int)),
                class_w as nat == spec_seq_max(class_lens.take(i as int)),
            decreases n - i,
        {
            let dev: &USBDevice = d[i];
            proof {
                assert(items[i as int] == *d@[i as int]);
                crate::text::lemma_seq_max_snoc(name_lens, i as int);
                crate::text::lemma_seq_max_snoc(serial_lens, i as int);
                crate::text::lemma_seq_max_snoc(manufacturer_lens, i as int);
                crate::text::lemma_seq_max_snoc(tpos_lens, i as int);
                crate::text::lemma_seq_max_snoc(ppath_lens, i as int);
                crate::text::lemma_seq_max_snoc(spath_lens, i as int);
                crate::text::lemma_seq_max_snoc(driver_lens, i as int);
                crate::text::lemma_seq_max_snoc(pname_lens, i as int);
                crate::text::lemma_seq_max_snoc(vname_lens, i as int);
                crate::text::lemma_seq_max_snoc(class_lens, i as int);
            }
            let l = dev.name.as_str().unicode_len();
            if l > name_w {
                name_w = l;
            }
            let l = opt_str_len(&dev.serial_num);
            if l > serial_w {
                serial_w = l;
            }
            let l = opt_str_len(&dev.manufacturer);
            if l > manufacturer_w {
                manufacturer_w = l;
            }
            let tp = dev.location_id.tree_positions.len();
            let l = if tp > usize::MAX / 2 {
                usize::MAX
            } else {
                2 * tp
            };
            if l > tpos_w {
                tpos_w = l;
            }
            let pp = dev.port_path();
            let l = pp.as_str().unicode_len();
            if l > ppath_w {
                ppath_w = l;
            }
            let (ls, ld, lp, lv) = match dev.extra.as_ref() {
                Some(e) => (
                    opt_str_len(&e.syspath),
                    opt_str_len(&e.driver),
                    opt_str_len(&e.product_name),
                    opt_str_len(&e.vendor),
                ),
                None => (0, 0, 0, 0),
            };
            if ls > spath_w {
                spath_w = ls;
            }
            if ld > driver_w {
                driver_w = ld;
            }
            if lp > pname_w {
                pname_w = lp;
            }
            if lv > vname_w {
                vname_w = lv;
            }
            let l = opt_str_len(&dev.class);
            if l > class_w {
                class_w = l;
            }
            i = i + 1;
        }
        proof {
            assert(name_lens.take(n as int) =~= name_lens);
            assert(serial_lens.take(n as int) =~= serial_lens);
            assert(manufacturer_lens.take(n as int) =~= manufacturer_lens);
            assert(tpos_lens.take(n as int) =~= tpos_lens);
            assert(ppath_lens.take(n as int) =~= ppath_lens);
            assert(spath_lens.take(n as int) =~= spath_lens);
            assert(driver_lens.take(n as int) =~= driver_lens);
            assert(pname_lens.take(n as int) =~= pname_lens);
            assert(vname_lens.take(n as int) =~= vname_lens);
            assert(class_lens.take(n as int) =~= class_lens);
        }
        let mut r: Vec<(DeviceBlocks, usize)> = Vec::new();
        let w = max_usize("Name".unicode_len(), name_w);
        r.push((DeviceBlocks::Name, w));
        let w = max_usize("Serial".unicode_len(), serial_w);
        r.push((DeviceBlocks::Serial, w));
        let w = max_usize("Manufacturer".unicode_len(), manufacturer_w);
        r.push((DeviceBlocks::Manufacturer, w));
        let w = max_usize("TPos".unicode_len(), tpos_w);
        r.push((DeviceBlocks::TreePositions, w));
        let w = max_usize("PPath".unicode_len(), ppath_w);
        r.push((DeviceBlocks::PortPath, w));
        let w = max_usize("SPath".unicode_len(), spath_w);
        r.push((DeviceBlocks::SysPath, w));
        let w = max_usize("Driver".unicode_len(), driver_w);
        r.push((DeviceBlocks::Driver, w));
        let w = max_usize("PName".unicode_len(), pname_w);
        r.push((DeviceBlocks::ProductName, w));
        let w = max_usize("VName".unicode_len(), vname_w);
        r.push((DeviceBlocks::VendorName, w));
        let w = max_usize("Class".unicode_len(), class_w);
        r.push((DeviceBlocks::ClassCode, w));
        proof {
            assert(r@ =~= spec_device_padding_table(items));
        }
        r
    }

    fn value_is_string(&self) -> (r: bool) {
        match self {
            DeviceBlocks::Name
            | DeviceBlocks::Serial
            | DeviceBlocks::PortPath
            | DeviceBlocks::Manufacturer => true,
            _ => false,
        }
    }

    fn heading(&self, pad: &Vec<(DeviceBlocks, usize)>) -> (r: String) {
        match self {
            DeviceBlocks::BusNumber => String::from_str("Bus"),
            DeviceBlocks::DeviceNumber => String::from_str(" # "),
            DeviceBlocks::BranchPosition => String::from_str("Prt"),
            DeviceBlocks::PortPath => centre("PPath", device_pad_get(pad, *self)),
            DeviceBlocks::SysPath => centre("SPath", device_pad_get(pad, *self)),
            DeviceBlocks::Driver => centre("Driver", device_pad_get(pad, *self)),
            DeviceBlocks::Icon => String::from_str("I"),
            DeviceBlocks::VendorId => centre("VID", 6),
            DeviceBlocks::ProductId => centre("PID", 6),
            DeviceBlocks::Name => centre("Name", device_pad_get(pad, *self)),
            DeviceBlocks::Manufacturer => centre("Manufacturer", device_pad_get(pad, *self)),
            DeviceBlocks::ProductName => centre("PName", device_pad_get(pad, *self)),
            DeviceBlocks::VendorName => centre("VName", device_pad_get(pad, *self)),
            DeviceBlocks::Serial => centre("Serial", device_pad_get(pad, *self)),
            DeviceBlocks::Speed => centre("Speed", 10),
            DeviceBlocks::TreePositions => centre("TPos", device_pad_get(pad, *self)),
            DeviceBlocks::BusPower => String::from_str("PBus"),
            DeviceBlocks::BusPowerUsed => String::from_str("PUsd"),
            DeviceBlocks::ExtraCurrentUsed => String::from_str("PExr"),
            DeviceBlocks::BcdDevice => String::from_str("Dev V"),
            DeviceBlocks::BcdUsb => String::from_str("USB V"),
            DeviceBlocks::ClassCode => centre("Class", device_pad_get(pad, *self)),
            DeviceBlocks::SubClass => String::from_str("SubC"),
            DeviceBlocks::Protocol => String::from_str("Pcol"),
        }
    }

    fn format_value(
        &self,
        d: &USBDevice,
        pad: &Vec<(DeviceBlocks, usize)>,
        settings: &PrintSettings,
    ) -> (r: Option<String>) {
        match self {
            DeviceBlocks::BusNumber => Some(dec_pad_left(d.location_id.bus as u64, 3)),
            DeviceBlocks::DeviceNumber => Some(dec_pad_left(d.location_id.number as u64, 3)),
            DeviceBlocks::BranchPosition => Some(
                dec_pad_left(d.get_branch_position() as u64, 3),
            ),
            DeviceBlocks::PortPath => {
                let pp = d.port_path();
                Some(pad_right(pp.as_str(), device_pad_get(pad, *self)))
            },
            DeviceBlocks::SysPath => {
                let w = device_pad_get(pad, *self);
                Some(
                    match d.extra.as_ref() {
                        Some(e) => match e.syspath.as_ref() {
                            Some(s) => pad_right(s.as_str(), w),
                            None => pad_right("-", w),
                        },
                        None => pad_right("-", w),
                    },
                )
            },
            DeviceBlocks::Driver => {
                let w = device_pad_get(pad, *self);
                Some(
                    match d.extra.as_ref() {
                        Some(e) => match e.driver.as_ref() {
                            Some(s) => pad_right(s.as_str(), w),
                            None => pad_right("-", w),
                        },
                        None => pad_right("-", w),
                    },
                )
            },
            DeviceBlocks::ProductName => {
                let w = device_pad_get(pad, *self);
                Some(
                    match d.extra.as_ref() {
                        Some(e) => match e.product_name.as_ref() {
                            Some(s) => pad_right(s.as_str(), w),
                            None => pad_right("-", w),
                        },
                        None => pad_right("-", w),
                    },
                )
            },
            DeviceBlocks::VendorName => {
                let w = device_pad_get(pad, *self);
                Some(
                    match d.extra.as_ref() {
                        Some(e) => match e.vendor.as_ref() {
                            Some(s) => pad_right(s.as_str(), w),
                            None => pad_right("-", w),
                        },
                        None => pad_right("-", w),
                    },
                )
            },
            DeviceBlocks::Icon => match settings.icons.as_ref() {
                Some(t) => Some(t.get_device_icon(d)),
                None => None,
            },
            DeviceBlocks::VendorId => Some(
                match d.vendor_id {
                    Some(v) => Self::format_base_u16(v, settings),
                    None => pad_left("-", 6),
                },
            ),
            DeviceBlocks::ProductId => Some(
                match d.product_id {
                    Some(v) => Self::format_base_u16(v, settings),
                    None => pad_left("-", 6),
                },
            ),
            DeviceBlocks::Name => Some(
                pad_right(d.name.as_str(), device_pad_get(pad, *self)),
            ),
            DeviceBlocks::Manufacturer => {
                let w = device_pad_get(pad, *self);
                Some(
                    match d.manufacturer.as_ref() {
                        Some(s) => pad_right(s.as_str(), w),
                        None => pad_right("-", w),
                    },
                )
            },
            DeviceBlocks::Serial => {
                let w = device_pad_get(pad, *self);
                Some(
                    match d.serial_num.as_ref() {
                        Some(s) => pad_right(s.as_str(), w),
                        None => pad_right("-", w),
                    },
                )
            },
            DeviceBlocks::Speed => Some(
                match d.device_speed.as_ref() {
                    Some(s) => pad_left(s.as_str(), 10),
                    None => pad_left("-", 10),
                },
            ),
            DeviceBlocks::TreePositions => {
                let ghost views = d.location_id.tree_positions@.map_values(
                    |p: u8| spec_dec(p as nat),
                );
                let mut parts: Vec<String> = Vec::new();
                let mut i: usize = 0;
                while i < d.location_id.tree_positions.len()
                    invariant
                        i <= d.location_id.tree_positions.len(),
                        views == d.location_id.tree_positions@.map_values(
                            |p: u8| spec_dec(p as nat),
                        ),
                        parts@.len() == i as int,
                        forall|j: int| 0 <= j < i ==> parts@[j]@ == views[j],
                    decreases d.location_id.tree_positions.len() - i,
                {
                    parts.push(dec_u64(d.location_id.tree_positions[i] as u64));
                    i = i + 1;
                }
                proof {
                    assert(parts@.map_values(|s: String| s@) =~= views);
                }
                let joined = join_with(&parts, "-");
                Some(pad_right(joined.as_str(), device_pad_get(pad, *self)))
            },
            DeviceBlocks::BusPower => Some(
                match d.bus_power {
                    Some(v) => {
                        let mut s = dec_pad_left(v as u64, 3);
                        s.append(" mA");
                        s
                    },
                    None => pad_left("-", 6),
                },
            ),
            DeviceBlocks::BusPowerUsed => Some(
                match d.bus_power_used {
                    Some(v) => {
                        let mut s = dec_pad_left(v as u64, 3);
                        s.append(" mA");
                        s
                    },
                    None => pad_left("-", 6),
                },
            ),
            DeviceBlocks::ExtraCurrentUsed => Some(
                match d.extra_current_used {
                    Some(v) => {
                        let mut s = dec_pad_left(v as u64, 3);
                        s.append(" mA");
                        s
                    },
                    None => pad_left("-", 6),
                },
            ),
            DeviceBlocks::BcdDevice => Some(
                match d.bcd_device.as_ref() {
                    Some(s) => pad_right(s.as_str(), 5),
                    None => pad_left("-", 5),
                },
            ),
            DeviceBlocks::BcdUsb => Some(
                match d.bcd_usb.as_ref() {
                    Some(s) => pad_right(s.as_str(), 5),
                    None => pad_left("-", 5),
                },
            ),
            DeviceBlocks::ClassCode => {
                let w = device_pad_get(pad, *self);
                Some(
                    match d.class.as_ref() {
                        Some(s) => pad_right(s.as_str(), w),
                        None => pad_right("-", w),
                    },
                )
            },
            DeviceBlocks::SubClass => Some(
                match d.sub_class {
                    Some(v) => Self::format_base_u8(v, settings),
                    None => pad_left("-", 4),
                },
            ),
            DeviceBlocks::Protocol => Some(
                match d.protocol {
                    Some(v) => Self::format_base_u8(v, settings),
                    None => pad_left("-", 4),
                },
            ),
        }
    }

    fn colour(&self, s: &String, ct: &ColourTheme) -> (r: String) {
        match self {
            DeviceBlocks::BcdUsb | DeviceBlocks::BcdDevice | DeviceBlocks::DeviceNumber => {
                apply_colour(s.as_str(), &ct.number)
            },
            DeviceBlocks::BusNumber
            | DeviceBlocks::BranchPosition
            | DeviceBlocks::TreePositions => apply_colour(s.as_str(), &ct.location),
            DeviceBlocks::Icon => apply_colour(s.as_str(), &ct.icon),
            DeviceBlocks::PortPath | DeviceBlocks::SysPath => apply_colour(s.as_str(), &ct.path),
            DeviceBlocks::VendorId => apply_colour(s.as_str(), &ct.vid),
            DeviceBlocks::ProductId => apply_colour(s.as_str(), &ct.pid),
            DeviceBlocks::Name | DeviceBlocks::ProductName => apply_colour(s.as_str(), &ct.name),
            DeviceBlocks::Serial => apply_colour(s.as_str(), &ct.serial),
            DeviceBlocks::Manufacturer | DeviceBlocks::VendorName => {
                apply_colour(s.as_str(), &ct.manufacturer)
            },
            DeviceBlocks::Driver => apply_colour(s.as_str(), &ct.driver),
            DeviceBlocks::Speed => apply_colour(s.as_str(), &ct.speed),
            DeviceBlocks::BusPower
            | DeviceBlocks::BusPowerUsed
            | DeviceBlocks::ExtraCurrentUsed => apply_colour(s.as_str(), &ct.power),
            DeviceBlocks::ClassCode => apply_colour(s.as_str(), &ct.class_code),
            DeviceBlocks::SubClass => apply_colour(s.as_str(), &ct.sub_code),
            DeviceBlocks::Protocol => apply_colour(s.as_str(), &ct.protocol),
        }
    }
}

/// The larger of two widths.
fn max_usize(a: usize, b: usize) -> (r: usize)
    ensures
        r as nat == spec_max(a as nat, b as nat),
{
    if a >= b {
        a
    } else {
        b
    }
}

fn bus_pad_get(pad: &Vec<(BusBlocks, usize)>, b: BusBlocks) -> (r: usize)
    ensures
        r == spec_pad_get(pad@, b),
{
    proof {
        assert(pad@.skip(0) =~= pad@);
    }
    let mut i: usize = 0;
    while i < pad.len()
        invariant
            i <= pad.len(),
            spec_pad_get(pad@, b) == spec_pad_get(pad@.skip(i as int), b),
        decreases pad.len() - i,
    {
        proof {
            assert(pad@.skip(i as int)[0] == pad@[i as int]);
            assert(pad@.skip(i as int).drop_first() =~= pad@.skip(i as int + 1));
        }
        let (bb, w) = pad[i];
        if bb == b {
            return w;
        }
        i = i + 1;
    }
    proof {
        assert(pad@.skip(i as int) =~= Seq::<(BusBlocks, usize)>::empty());
    }
    0
}

/// The heading row cell for a bus column.
pub open spec fn spec_bus_heading(b: BusBlocks, pad: Seq<(BusBlocks, usize)>) -> Seq<char> {
    match b {
        BusBlocks::BusNumber => "Bus"@,
        BusBlocks::PortPath => "PortPath"@,
        BusBlocks::PciDevice => " PID "@,
        BusBlocks::PciVendor => " VID "@,
        BusBlocks::PciRevision => " Rev "@,
        BusBlocks::Name => spec_centre("Name"@, spec_pad_get(pad, b) as nat),
        BusBlocks::HostController => spec_centre(
            "Host Controller"@,
            spec_pad_get(pad, b) as nat,
        ),
        BusBlocks::Icon => "I"@,
    }
}

/// The cell for a bus column.
pub open spec fn spec_bus_value(
    b: BusBlocks,
    bus: &USBBus,
    pad: Seq<(BusBlocks, usize)>,
    settings: &PrintSettings,
) -> Option<Seq<char>> {
    match b {
        BusBlocks::BusNumber => Some(spec_pad_left(spec_dec(bus.bus_number as nat), 3)),
        BusBlocks::Icon => match settings.icons {
            Some(t) => Some(t.bus_icon@),
            None => None,
        },
        BusBlocks::PciVendor => Some(
            match bus.pci_vendor {
                Some(v) => spec_format_base_u16(v, settings.decimal),
                None => spec_pad_left("-"@, 6),
            },
        ),
        BusBlocks::PciDevice => Some(
            match bus.pci_device {
                Some(v) => spec_format_base_u16(v, settings.decimal),
                None => spec_pad_left("-"@, 6),
            },
        ),
        BusBlocks::PciRevision => Some(
            match bus.pci_revision {
                Some(v) => spec_format_base_u16(v, settings.decimal),
                None => spec_pad_left("-"@, 6),
            },
        ),
        BusBlocks::Name => Some(spec_pad_right(bus.name@, spec_pad_get(pad, b) as nat)),
        BusBlocks::HostController => Some(
            spec_pad_right(bus.host_controller@, spec_pad_get(pad, b) as nat),
        ),
        BusBlocks::PortPath => Some(spec_pad_right(spec_bus_path(bus), spec_pad_get(pad, b) as nat)),
    }
}

/// The padding table for a batch of buses.
pub open spec fn spec_bus_padding_table(items: Seq<USBBus>) -> Seq<(BusBlocks, usize)> {
    seq![
        (
            BusBlocks::Name,
            spec_max(
                "Name"@.len(),
                spec_seq_max(items.map_values(|b: USBBus| b.name@.len())),
            ) as usize,
        ),
        (
            BusBlocks::HostController,
            spec_max(
                "Host Controller"@.len(),
                spec_seq_max(items.map_values(|b: USBBus| b.host_controller@.len())),
            ) as usize,
        ),
        (
            BusBlocks::PortPath,
            spec_max(
                "PortPath"@.len(),
                spec_seq_max(items.map_values(|b: USBBus| spec_bus_path(&b).len())),
            ) as usize,
        ),
    ]
}

impl Block<BusBlocks, USBBus> for BusBlocks {
    open spec fn spec_default_blocks(verbose: bool) -> Seq<BusBlocks> {
        if verbose {
            seq![
                BusBlocks::Icon,
                BusBlocks::PortPath,
                BusBlocks::Name,
                BusBlocks::HostController,
                BusBlocks::PciVendor,
                BusBlocks::PciDevice,
                BusBlocks::PciRevision,
            ]
        } else {
            seq![BusBlocks::Name, BusBlocks::HostController]
        }
    }

    open spec fn spec_padding_table(items: Seq<USBBus>) -> Seq<(BusBlocks, usize)> {
        spec_bus_padding_table(items)
    }

    open spec fn spec_is_string(&self) -> bool {
        match self {
            BusBlocks::Name | BusBlocks::HostController => true,
            _ => false,
        }
    }

    open spec fn spec_heading(&self, pad: Seq<(BusBlocks, usize)>) -> Seq<char> {
        spec_bus_heading(*self, pad)
    }

    open spec fn spec_value(
        &self,
        d: &USBBus,
        pad: Seq<(BusBlocks, usize)>,
        settings: &PrintSettings,
    ) -> Option<Seq<char>> {
        spec_bus_value(*self, d, pad, settings)
    }

    open spec fn spec_colour(&self, ct: &ColourTheme) -> Option<Colour> {
        match self {
            BusBlocks::BusNumber => ct.location,
            BusBlocks::PciVendor => ct.vid,
            BusBlocks::PciDevice => ct.pid,
            BusBlocks::Name => ct.name,
            BusBlocks::HostController => ct.serial,
            BusBlocks::PciRevision => ct.number,
            BusBlocks::Icon => ct.icon,
            BusBlocks::PortPath => ct.path,
        }
    }

    fn default_blocks(verbose: bool) -> (r: Vec<BusBlocks>) {
        let mut r: Vec<BusBlocks> = Vec::new();
        if verbose {
            r.push(BusBlocks::Icon);
            r.push(BusBlocks::PortPath);
            r.push(BusBlocks::Name);
            r.push(BusBlocks::HostController);
            r.push(BusBlocks::PciVendor);
            r.push(BusBlocks::PciDevice);
            r.push(BusBlocks::PciRevision);
        } else {
            r.push(BusBlocks::Name);
            r.push(BusBlocks::HostController);
        }
        proof {
            assert(r@ =~= Self::spec_default_blocks(verbose));
        }
        r
    }

    fn generate_padding(d: &Vec<&USBBus>) -> (r: Vec<(BusBlocks, usize)>) {
        let ghost items = derefs(d@);
        let ghost name_lens = items.map_values(|b: USBBus| b.name@.len());
        let ghost hc_lens = items.map_values(|b: USBBus| b.host_controller@.len());
        let ghost path_lens = items.map_values(|b: USBBus| spec_bus_path(&b).len());
        let mut name_w: usize = 0;
        let mut hc_w: usize = 0;
        let mut path_w: usize = 0;
        let n = d.len();
        let mut i: usize = 0;
        while i < n
            invariant
                n == d@.len(),
                i <= n,
                items == derefs(d@),
                items.len() == n,
                name_lens == items.map_values(|b: USBBus| b.name@.len()),
                hc_lens == items.map_values(|b: USBBus| b.host_controller@.len()),
                path_lens == items.map_values(|b: USBBus| spec_bus_path(&b).len()),
                name_w as nat == spec_seq_max(name_lens.take(i as int)),
                hc_w as nat == spec_seq_max(hc_lens.take(i as int)),
                path_w as nat == spec_seq_max(path_lens.take(i as int)),
            decreases n - i,
        {
            let bus: &USBBus = d[i];
            proof {
                assert(items[i as int] == *d@[i as int]);
                crate::text::lemma_seq_max_snoc(name_lens, i as int);
                crate::text::lemma_seq_max_snoc(hc_lens, i as int);
                crate::text::lemma_seq_max_snoc(path_lens, i as int);
            }
            let l = bus.name.as_str().unicode_len();
            if l > name_w {
                name_w = l;
            }
            let l = bus.host_controller.as_str().unicode_len();
            if l > hc_w {
                hc_w = l;
            }
            let p = bus.path();
            let l = p.as_str().unicode_len();
            if l > path_w {
                path_w = l;
            }
            i = i + 1;
        }
        proof {
            assert(name_lens.take(n as int) =~= name_lens);
            assert(hc_lens.take(n as int) =~= hc_lens);
            assert(path_lens.take(n as int) =~= path_lens);
        }
        let mut r: Vec<(BusBlocks, usize)> = Vec::new();
        let w = max_usize("Name".unicode_len(), name_w);
        r.push((BusBlocks::Name, w));
        let w = max_usize("Host Controller".unicode_len(), hc_w);
        r.push((BusBlocks::HostController, w));
        let w = max_usize("PortPath".unicode_len(), path_w);
        r.push((BusBlocks::PortPath, w));
        proof {
            assert(r@ =~= spec_bus_padding_table(items));
        }
        r
    }

    fn value_is_string(&self) -> (r: bool) {
        match self {
            BusBlocks::Name | BusBlocks::HostController => true,
            _ => false,
        }
    }

    fn heading(&self, pad: &Vec<(BusBlocks, usize)>) -> (r: String) {
        match self {
            BusBlocks::BusNumber => String::from_str("Bus"),
            BusBlocks::PortPath => String::from_str("PortPath"),
            BusBlocks::PciDevice => String::from_str(" PID "),
            BusBlocks::PciVendor => String::from_str(" VID "),
            BusBlocks::PciRevision => String::from_str(" Rev "),
            BusBlocks::Name => centre("Name", bus_pad_get(pad, *self)),
            BusBlocks::HostController => centre("Host Controller", bus_pad_get(pad, *self)),
            BusBlocks::Icon => String::from_str("I"),
        }
    }

    fn format_value(
        &self,
        bus: &USBBus,
        pad: &Vec<(BusBlocks, usize)>,
        settings: &PrintSettings,
    ) -> (r: Option<String>) {
        match self {
            BusBlocks::BusNumber => Some(dec_pad_left(bus.get_bus_number() as u64, 3)),
            BusBlocks::Icon => match settings.icons.as_ref() {
                Some(t) => Some(t.get_bus_icon(bus)),
                None => None,
            },
            BusBlocks::PciVendor => Some(
                match bus.pci_vendor {
                    Some(v) => Self::format_base_u16(v, settings),
                    None => pad_left("-", 6),
                },
            ),
            BusBlocks::PciDevice => Some(
                match bus.pci_device {
                    Some(v) => Self::format_base_u16(v, settings),
                    None => pad_left("-", 6),
                },
            ),
            BusBlocks::PciRevision => Some(
                match bus.pci_revision {
                    Some(v) => Self::format_base_u16(v, settings),
                    None => pad_left("-", 6),
                },
            ),
            BusBlocks::Name => Some(pad_right(bus.name.as_str(), bus_pad_get(pad, *self))),
            BusBlocks::HostController => Some(
                pad_right(bus.host_controller.as_str(), bus_pad_get(pad, *self)),
            ),
            BusBlocks::PortPath => {
                let p = bus.path();
                Some(pad_right(p.as_str(), bus_pad_get(pad, *self)))
            },
        }
    }

    fn colour(&self, s: &String, ct: &ColourTheme) -> (r: String) {
        match self {
            BusBlocks::BusNumber => apply_colour(s.as_str(), &ct.location),
            BusBlocks::PciVendor => apply_colour(s.as_str(), &ct.vid),
            BusBlocks::PciDevice => apply_colour(s.as_str(), &ct.pid),
            BusBlocks::Name => apply_colour(s.as_str(), &ct.name),
            BusBlocks::HostController => apply_colour(s.as_str(), &ct.serial),
            BusBlocks::PciRevision => apply_colour(s.as_str(), &ct.number),
            BusBlocks::Icon => apply_colour(s.as_str(), &ct.icon),
            BusBlocks::PortPath => apply_colour(s.as_str(), &ct.path),
        }
    }
}

/// The icon shown for one attribute flag.
pub open spec fn spec_attribute_icon(a: ConfigAttributes) -> Seq<char> {
    match a {
        ConfigAttributes::SelfPowered => "\u{fba4}"@,
        ConfigAttributes::RemoteWakeup => "\u{f654}"@,
    }
}

/// The icon cell of a configuration's attribute flags: the flags' icons
/// joined with one space when icons are shown, empty otherwise.
pub open spec fn spec_attributes_icons(attrs: Seq<ConfigAttributes>, has_icons: bool) -> Seq<
    char,
> {
    if has_icons {
        spec_join(attrs.map_values(|a: ConfigAttributes| spec_attribute_icon(a)), " "@)
    } else {
        Seq::empty()
    }
}

/// Render a configuration's attribute flags as icons.
fn attributes_to_icons(attributes: &Vec<ConfigAttributes>, settings: &PrintSettings) -> (r:
    String)
    ensures
        r@ == spec_attributes_icons(attributes@, settings.icons is Some),
{
    if settings.icons.is_some() {
        let ghost views = attributes@.map_values(|a: ConfigAttributes| spec_attribute_icon(a));
        let mut icon_strs: Vec<String> = Vec::new();
        let mut i: usize = 0;
        while i < attributes.len()
            invariant
                i <= attributes.len(),
                views == attributes@.map_values(|a: ConfigAttributes| spec_attribute_icon(a)),
                icon_strs@.len() == i as int,
                forall|j: int| 0 <= j < i ==> icon_strs@[j]@ == views[j],
            decreases attributes.len() - i,
        {
            match attributes[i] {
                ConfigAttributes::SelfPowered => icon_strs.push(String::from_str("\u{fba4}")),
                ConfigAttributes::RemoteWakeup => icon_strs.push(String::from_str("\u{f654}")),
            }
            i = i + 1;
        }
        proof {
            assert(icon_strs@.map_values(|s: String| s@) =~= views);
        }
        join_with(&icon_strs, " ")
    } else {
        String::new()
    }
}

fn config_pad_get(pad: &Vec<(ConfigurationBlocks, usize)>, b: ConfigurationBlocks) -> (r: usize)
    ensures
        r == spec_pad_get(pad@, b),
{
    proof {
        assert(pad@.skip(0) =~= pad@);
    }
    let mut i: usize = 0;
    while i < pad.len()
        invariant
            i <= pad.len(),
            spec_pad_get(pad@, b) == spec_pad_get(pad@.skip(i as int), b),
        decreases pad.len() - i,
    {
        proof {
            assert(pad@.skip(i as int)[0] == pad@[i as int]);
            assert(pad@.skip(i as int).drop_first() =~= pad@.skip(i as int + 1));
        }
        let (bb, w) = pad[i];
        if bb == b {
            return w;
        }
        i = i + 1;
    }
    proof {
        assert(pad@.skip(i as int) =~= Seq::<(ConfigurationBlocks, usize)>::empty());
    }
    0
}

/// The heading row cell for a configuration column.
pub open spec fn spec_config_heading(
    b: ConfigurationBlocks,
    pad: Seq<(ConfigurationBlocks, usize)>,
) -> Seq<char> {
    match b {
        ConfigurationBlocks::Number => " #"@,
        ConfigurationBlocks::NumInterfaces => "I#"@,
        ConfigurationBlocks::MaxPower => "PMax"@,
        ConfigurationBlocks::Name => spec_centre("Name"@, spec_pad_get(pad, b) as nat),
        ConfigurationBlocks::Attributes => spec_centre("Attributes"@, spec_pad_get(pad, b) as nat),
        ConfigurationBlocks::IconAttributes => spec_centre("I"@, 3),
    }
}

/// The cell for a configuration column.
pub open spec fn spec_config_value(
    b: ConfigurationBlocks,
    c: &USBConfiguration,
    pad: Seq<(ConfigurationBlocks, usize)>,
    settings: &PrintSettings,
) -> Option<Seq<char>> {
    match b {
        ConfigurationBlocks::Number => Some(spec_pad_left(spec_dec(c.number as nat), 2)),
        ConfigurationBlocks::NumInterfaces => Some(
            spec_pad_left(spec_dec(c.interfaces@.len()), 2),
        ),
        ConfigurationBlocks::Name => Some(spec_pad_right(c.name@, spec_pad_get(pad, b) as nat)),
        ConfigurationBlocks::MaxPower => Some(spec_pad_left(spec_dec(c.max_power as nat), 3)),
        ConfigurationBlocks::Attributes => Some(
            spec_pad_right(spec_attributes_str(c), spec_pad_get(pad, b) as nat),
        ),
        ConfigurationBlocks::IconAttributes => Some(
            spec_pad_right(spec_attributes_icons(c.attributes@, settings.icons is Some), 3),
        ),
    }
}

/// The padding table for a batch of sibling configurations.
pub open spec fn spec_config_padding_table(items: Seq<USBConfiguration>) -> Seq<
    (ConfigurationBlocks, usize),
> {
    seq![
        (
            ConfigurationBlocks::Name,
            spec_max(
                "Name"@.len(),
                spec_seq_max(items.map_values(|c: USBConfiguration| c.name@.len())),
            ) as usize,
        ),
        (
            ConfigurationBlocks::Attributes,
            spec_max(
                "Attributes"@.len(),
                spec_seq_max(
                    items.map_values(|c: USBConfiguration| spec_attributes_str(&c).len()),
                ),
            ) as usize,
        ),
    ]
}

impl Block<ConfigurationBlocks, USBConfiguration> for ConfigurationBlocks {
    open spec fn spec_default_blocks(verbose: bool) -> Seq<ConfigurationBlocks> {
        if verbose {
            seq![
                ConfigurationBlocks::Number,
                ConfigurationBlocks::IconAttributes,
                ConfigurationBlocks::Attributes,
                ConfigurationBlocks::NumInterfaces,
                ConfigurationBlocks::MaxPower,
                ConfigurationBlocks::Name,
            ]
        } else {
            seq![
                ConfigurationBlocks::Number,
                ConfigurationBlocks::IconAttributes,
                ConfigurationBlocks::MaxPower,
                ConfigurationBlocks::Name,
            ]
        }
    }

    open spec fn spec_padding_table(items: Seq<USBConfiguration>) -> Seq<
        (ConfigurationBlocks, usize),
    > {
        spec_config_padding_table(items)
    }

    open spec fn spec_is_string(&self) -> bool {
        match self {
            ConfigurationBlocks::Name | ConfigurationBlocks::Attributes => true,
            _ => false,
        }
    }

    open spec fn spec_heading(&self, pad: Seq<(ConfigurationBlocks, usize)>) -> Seq<char> {
        spec_config_heading(*self, pad)
    }

    open spec fn spec_value(
        &self,
        d: &USBConfiguration,
        pad: Seq<(ConfigurationBlocks, usize)>,
        settings: &PrintSettings,
    ) -> Option<Seq<char>> {
        spec_config_value(*self, d, pad, settings)
    }

    open spec fn spec_colour(&self, ct: &ColourTheme) -> Option<Colour> {
        match self {
            ConfigurationBlocks::Number => ct.location,
            ConfigurationBlocks::NumInterfaces => ct.number,
            ConfigurationBlocks::MaxPower => ct.power,
            ConfigurationBlocks::Name => ct.name,
            ConfigurationBlocks::Attributes => ct.attributes,
            ConfigurationBlocks::IconAttributes => ct.icon,
        }
    }

    fn default_blocks(verbose: bool) -> (r: Vec<ConfigurationBlocks>) {
        let mut r: Vec<ConfigurationBlocks> = Vec::new();
        if verbose {
            r.push(ConfigurationBlocks::Number);
            r.push(ConfigurationBlocks::IconAttributes);
            r.push(ConfigurationBlocks::Attributes);
            r.push(ConfigurationBlocks::NumInterfaces);
            r.push(ConfigurationBlocks::MaxPower);
            r.push(ConfigurationBlocks::Name);
        } else {
            r.push(ConfigurationBlocks::Number);
            r.push(ConfigurationBlocks::IconAttributes);
            r.push(ConfigurationBlocks::MaxPower);
            r.push(ConfigurationBlocks::Name);
        }
        proof {
            assert(r@ =~= Self::spec_default_blocks(verbose));
        }
        r
    }

    fn generate_padding(d: &Vec<&USBConfiguration>) -> (r: Vec<(ConfigurationBlocks, usize)>) {
        let ghost items = derefs(d@);
        let ghost name_lens = items.map_values(|c: USBConfiguration| c.name@.len());
        let ghost attr_lens = items.map_values(
            |c: USBConfiguration| spec_attributes_str(&c).len(),
        );
        let mut name_w: usize = 0;
        let mut attr_w: usize = 0;
        let n = d.len();
        let mut i: usize = 0;
        while i < n
            invariant
                n == d@.len(),
                i <= n,
                items == derefs(d@),
                items.len() == n,
                name_lens == items.map_values(|c: USBConfiguration| c.name@.len()),
                attr_lens == items.map_values(
                    |c: USBConfiguration| spec_attributes_str(&c).len(),
                ),
                name_w as nat == spec_seq_max(name_lens.take(i as int)),
                attr_w as nat == spec_seq_max(attr_lens.take(i as int)),
            decreases n - i,
        {
            let c: &USBConfiguration = d[i];
            proof {
                assert(items[i as int] == *d@[i as int]);
                crate::text::lemma_seq_max_snoc(name_lens, i as int);
                crate::text::lemma_seq_max_snoc(attr_lens, i as int);
            }
            let l = c.name.as_str().unicode_len();
            if l > name_w {
                name_w = l;
            }
            let a = c.attributes_string();
            let l = a.as_str().unicode_len();
            if l > attr_w {
                attr_w = l;
            }
            i = i + 1;
        }
        proof {
            assert(name_lens.take(n as int) =~= name_lens);
            assert(attr_lens.take(n as int) =~= attr_lens);
        }
        let mut r: Vec<(ConfigurationBlocks, usize)> = Vec::new();
        let w = max_usize("Name".unicode_len(), name_w);
        r.push((ConfigurationBlocks::Name, w));
        let w = max_usize("Attributes".unicode_len(), attr_w);
        r.push((ConfigurationBlocks::Attributes, w));
        proof {
            assert(r@ =~= spec_config_padding_table(items));
        }
        r
    }

    fn value_is_string(&self) -> (r: bool) {
        match self {
            ConfigurationBlocks::Name | ConfigurationBlocks::Attributes => true,
            _ => false,
        }
    }

    fn heading(&self, pad: &Vec<(ConfigurationBlocks, usize)>) -> (r: String) {
        match self {
            ConfigurationBlocks::Number => String::from_str(" #"),
            ConfigurationBlocks::NumInterfaces => String::from_str("I#"),
            ConfigurationBlocks::MaxPower => String::from_str("PMax"),
            ConfigurationBlocks::Name => centre("Name", config_pad_get(pad, *self)),
            ConfigurationBlocks::Attributes => centre("Attributes", config_pad_get(pad, *self)),
            ConfigurationBlocks::IconAttributes => centre("I", 3),
        }
    }

    fn format_value(
        &self,
        config: &USBConfiguration,
        pad: &Vec<(ConfigurationBlocks, usize)>,
        settings: &PrintSettings,
    ) -> (r: Option<String>) {
        match self {
            ConfigurationBlocks::Number => Some(dec_pad_left(config.number as u64, 2)),
            ConfigurationBlocks::NumInterfaces => Some(
                dec_pad_left(config.interfaces.len() as u64, 2),
            ),
            ConfigurationBlocks::Name => Some(
                pad_right(config.name.as_str(), config_pad_get(pad, *self)),
            ),
            ConfigurationBlocks::MaxPower => Some(dec_pad_left(config.max_power as u64, 3)),
            ConfigurationBlocks::Attributes => {
                let a = config.attributes_string();
                Some(pad_right(a.as_str(), config_pad_get(pad, *self)))
            },
            ConfigurationBlocks::IconAttributes => {
                let icons = attributes_to_icons(&config.attributes, settings);
                Some(pad_right(icons.as_str(), 3))
            },
        }
    }

    fn colour(&self, s: &String, ct: &ColourTheme) -> (r: String) {
        match self {
            ConfigurationBlocks::Number => apply_colour(s.as_str(), &ct.location),
            ConfigurationBlocks::NumInterfaces => apply_colour(s.as_str(), &ct.number),
            ConfigurationBlocks::MaxPower => apply_colour(s.as_str(), &ct.power),
            ConfigurationBlocks::Name => apply_colour(s.as_str(), &ct.name),
            ConfigurationBlocks::Attributes => apply_colour(s.as_str(), &ct.attributes),
            ConfigurationBlocks::IconAttributes => apply_colour(s.as_str(), &ct.icon),
        }
    }
}

fn interface_pad_get(pad: &Vec<(InterfaceBlocks, usize)>, b: InterfaceBlocks) -> (r: usize)
    ensures
        r == spec_pad_get(pad@, b),
{
    proof {
        assert(pad@.skip(0) =~= pad@);
    }
    let mut i: usize = 0;
    while i < pad.len()
        invariant
            i <= pad.len(),
            spec_pad_get(pad@, b) == spec_pad_get(pad@.skip(i as int), b),
        decreases pad.len() - i,
    {
        proof {
            assert(pad@.skip(i as int)[0] == pad@[i as int]);
            assert(pad@.skip(i as int).drop_first() =~= pad@.skip(i as int + 1));
        }
        let (bb, w) = pad[i];
        if bb == b {
            return w;
        }
        i = i + 1;
    }
    proof {
        assert(pad@.skip(i as int) =~= Seq::<(InterfaceBlocks, usize)>::empty());
    }
    0
}

/// The heading row cell for an interface column.
pub open spec fn spec_interface_heading(
    b: InterfaceBlocks,
    pad: Seq<(InterfaceBlocks, usize)>,
) -> Seq<char> {
    match b {
        InterfaceBlocks::Number => " #"@,
        InterfaceBlocks::Name => spec_centre("Name"@, spec_pad_get(pad, b) as nat),
        InterfaceBlocks::NumEndpoints => "E#"@,
        InterfaceBlocks::PortPath => spec_centre("PortPath"@, spec_pad_get(pad, b) as nat),
        InterfaceBlocks::SysPath => spec_centre("SysPath"@, spec_pad_get(pad, b) as nat),
        InterfaceBlocks::Driver => spec_centre("Driver"@, spec_pad_get(pad, b) as nat),
        InterfaceBlocks::ClassCode => spec_centre("Class"@, spec_pad_get(pad, b) as nat),
        InterfaceBlocks::SubClass => "SubC"@,
        InterfaceBlocks::Protocol => "Pcol"@,
        InterfaceBlocks::AltSetting => "Alt#"@,
        InterfaceBlocks::Icon => "I"@,
    }
}

/// The cell for an interface column.
pub open spec fn spec_interface_value(
    b: InterfaceBlocks,
    iface: &USBInterface,
    pad: Seq<(InterfaceBlocks, usize)>,
    settings: &PrintSettings,
) -> Option<Seq<char>> {
    match b {
        InterfaceBlocks::Number => Some(spec_pad_left(spec_dec(iface.number as nat), 2)),
        InterfaceBlocks::Name => Some(spec_pad_right(iface.name@, spec_pad_get(pad, b) as nat)),
        InterfaceBlocks::NumEndpoints => Some(spec_pad_left(spec_dec(iface.endpoints@.len()), 2)),
        InterfaceBlocks::PortPath => Some(
            spec_pad_right(iface.path@, spec_pad_get(pad, b) as nat),
        ),
        InterfaceBlocks::SysPath => Some(
            spec_pad_right(
                match iface.syspath {
                    Some(s) => s@,
                    None => "-"@,
                },
                spec_pad_get(pad, b) as nat,
            ),
        ),
        InterfaceBlocks::Driver => Some(
            spec_pad_right(
                match iface.driver {
                    Some(s) => s@,
                    None => "-"@,
                },
                spec_pad_get(pad, b) as nat,
            ),
        ),
        InterfaceBlocks::ClassCode => Some(
            spec_pad_right(iface.class@, spec_pad_get(pad, b) as nat),
        ),
        InterfaceBlocks::SubClass => Some(spec_format_base_u8(iface.sub_class, settings.decimal)),
        InterfaceBlocks::Protocol => Some(spec_format_base_u8(iface.protocol, settings.decimal)),
        InterfaceBlocks::AltSetting => Some(
            spec_format_base_u8(iface.alt_setting, settings.decimal),
        ),
        InterfaceBlocks::Icon => match settings.icons {
            Some(t) => Some(t.classifier_icon@),
            None => None,
        },
    }
}

/// The padding table for a batch of sibling interfaces.
pub open spec fn spec_interface_padding_table(items: Seq<USBInterface>) -> Seq<
    (InterfaceBlocks, usize),
> {
    seq![
        (
            InterfaceBlocks::Name,
            spec_max(
                "Name"@.len(),
                spec_seq_max(items.map_values(|f: USBInterface| f.name@.len())),
            ) as usize,
        ),
        (
            InterfaceBlocks::ClassCode,
            spec_max(
                "Class"@.len(),
                spec_seq_max(items.map_values(|f: USBInterface| f.class@.len())),
            ) as usize,
        ),
        (
            InterfaceBlocks::PortPath,
            spec_max(
                "PortPath"@.len(),
                spec_seq_max(items.map_values(|f: USBInterface| f.path@.len())),
            ) as usize,
        ),
        (
            InterfaceBlocks::SysPath,
            spec_max(
                "SysPath"@.len(),
                spec_seq_max(items.map_values(|f: USBInterface| spec_opt_str_len(f.syspath))),
            ) as usize,
        ),
        (
            InterfaceBlocks::Driver,
            spec_max(
                "Driver"@.len(),
                spec_seq_max(items.map_values(|f: USBInterface| spec_opt_str_len(f.driver))),
            ) as usize,
        ),
    ]
}

impl Block<InterfaceBlocks, USBInterface> for InterfaceBlocks {
    open spec fn spec_default_blocks(verbose: bool) -> Seq<InterfaceBlocks> {
        if verbose {
            seq![
                InterfaceBlocks::PortPath,
                InterfaceBlocks::Icon,
                InterfaceBlocks::AltSetting,
                InterfaceBlocks::ClassCode,
                InterfaceBlocks::SubClass,
                InterfaceBlocks::Protocol,
                InterfaceBlocks::Name,
                InterfaceBlocks::Driver,
                InterfaceBlocks::NumEndpoints,
            ]
        } else {
            seq![
                InterfaceBlocks::PortPath,
                InterfaceBlocks::Icon,
                InterfaceBlocks::AltSetting,
                InterfaceBlocks::ClassCode,
                InterfaceBlocks::SubClass,
                InterfaceBlocks::Protocol,
                InterfaceBlocks::Name,
            ]
        }
    }

    open spec fn spec_padding_table(items: Seq<USBInterface>) -> Seq<(InterfaceBlocks, usize)> {
        spec_interface_padding_table(items)
    }

    open spec fn spec_is_string(&self) -> bool {
        match self {
            InterfaceBlocks::Name
            | InterfaceBlocks::PortPath
            | InterfaceBlocks::ClassCode
            | InterfaceBlocks::Driver
            | InterfaceBlocks::SysPath => true,
            _ => false,
        }
    }

    open spec fn spec_heading(&self, pad: Seq<(InterfaceBlocks, usize)>) -> Seq<char> {
        spec_interface_heading(*self, pad)
    }

    open spec fn spec_value(
        &self,
        d: &USBInterface,
        pad: Seq<(InterfaceBlocks, usize)>,
        settings: &PrintSettings,
    ) -> Option<Seq<char>> {
        spec_interface_value(*self, d, pad, settings)
    }

    open spec fn spec_colour(&self, ct: &ColourTheme) -> Option<Colour> {
        match self {
            InterfaceBlocks::Number => ct.number,
            InterfaceBlocks::Name => ct.name,
            InterfaceBlocks::PortPath | InterfaceBlocks::SysPath => ct.path,
            InterfaceBlocks::Icon => ct.icon,
            InterfaceBlocks::ClassCode => ct.class_code,
            InterfaceBlocks::SubClass => ct.sub_code,
            InterfaceBlocks::Protocol => ct.protocol,
            InterfaceBlocks::Driver => ct.driver,
            InterfaceBlocks::AltSetting | InterfaceBlocks::NumEndpoints => ct.number,
        }
    }

    fn default_blocks(verbose: bool) -> (r: Vec<InterfaceBlocks>) {
        let mut r: Vec<InterfaceBlocks> = Vec::new();
        r.push(InterfaceBlocks::PortPath);
        r.push(InterfaceBlocks::Icon);
        r.push(InterfaceBlocks::AltSetting);
        r.push(InterfaceBlocks::ClassCode);
        r.push(InterfaceBlocks::SubClass);
        r.push(InterfaceBlocks::Protocol);
        r.push(InterfaceBlocks::Name);
        if verbose {
            r.push(InterfaceBlocks::Driver);
            r.push(InterfaceBlocks::NumEndpoints);
        }
        proof {
            assert(r@ =~= Self::spec_default_blocks(verbose));
        }
        r
    }

    fn generate_padding(d: &Vec<&USBInterface>) -> (r: Vec<(InterfaceBlocks, usize)>) {
        let ghost items = derefs(d@);
        let ghost name_lens = items.map_values(|f: USBInterface| f.name@.len());
        let ghost class_lens = items.map_values(|f: USBInterface| f.class@.len());
        let ghost path_lens = items.map_values(|f: USBInterface| f.path@.len());
        let ghost spath_lens = items.map_values(|f: USBInterface| spec_opt_str_len(f.syspath));
        let ghost driver_lens = items.map_values(|f: USBInterface| spec_opt_str_len(f.driver));
        let mut name_w: usize = 0;
        let mut class_w: usize = 0;
        let mut path_w: usize = 0;
        let mut spath_w: usize = 0;
        let mut driver_w: usize = 0;
        let n = d.len();
        let mut i: usize = 0;
        while i < n
            invariant
                n == d@.len(),
                i <= n,
                items == derefs(d@),
                items.len() == n,
                name_lens == items.map_values(|f: USBInterface| f.name@.len()),
                class_lens == items.map_values(|f: USBInterface| f.class@.len()),
                path_lens == items.map_values(|f: USBInterface| f.path@.len()),
                spath_lens == items.map_values(|f: USBInterface| spec_opt_str_len(f.syspath)),
                driver_lens == items.map_values(|f: USBInterface| spec_opt_str_len(f.driver)),
                name_w as nat == spec_seq_max(name_lens.take(i as int)),
                class_w as nat == spec_seq_max(class_lens.take(i as int)),
                path_w as nat == spec_seq_max(path_lens.take(i as int)),
                spath_w as nat == spec_seq_max(spath_lens.take(i as int)),
                driver_w as nat == spec_seq_max(driver_lens.take(i as int)),
            decreases n - i,
        {
            let f: &USBInterface = d[i];
            proof {
                assert(items[i as int] == *d@[i as int]);
                crate::text::lemma_seq_max_snoc(name_lens, i as int);
                crate::text::lemma_seq_max_snoc(class_lens, i as int);
                crate::text::lemma_seq_max_snoc(path_lens, i as int);
                crate::text::lemma_seq_max_snoc(spath_lens, i as int);
                crate::text::lemma_seq_max_snoc(driver_lens, i as int);
            }
            let l = f.name.as_str().unicode_len();
            if l > name_w {
                name_w = l;
            }
            let l = f.class.as_str().unicode_len();
            if l > class_w {
                class_w = l;
            }
            let l = f.path.as_str().unicode_len();
            if l > path_w {
                path_w = l;
            }
            let l = opt_str_len(&f.syspath);
            if l > spath_w {
                spath_w = l;
            }
            let l = opt_str_len(&f.driver);
            if l > driver_w {
                driver_w = l;
            }
            i = i + 1;
        }
        proof {
            assert(name_lens.take(n as int) =~= name_lens);
            assert(class_lens.take(n as int) =~= class_lens);
            assert(path_lens.take(n as int) =~= path_lens);
            assert(spath_lens.take(n as int) =~= spath_lens);
            assert(driver_lens.take(n as int) =~= driver_lens);
        }
        let mut r: Vec<(InterfaceBlocks, usize)> = Vec::new();
        let w = max_usize("Name".unicode_len(), name_w);
        r.push((InterfaceBlocks::Name, w));
        let w = max_usize("Class".unicode_len(), class_w);
        r.push((InterfaceBlocks::ClassCode, w));
        let w = max_usize("PortPath".unicode_len(), path_w);
        r.push((InterfaceBlocks::PortPath, w));
        let w = max_usize("SysPath".unicode_len(), spath_w);
        r.push((InterfaceBlocks::SysPath, w));
        let w = max_usize("Driver".unicode_len(), driver_w);
        r.push((InterfaceBlocks::Driver, w));
        proof {
            assert(r@ =~= spec_interface_padding_table(items));
        }
        r
    }

    fn value_is_string(&self) -> (r: bool) {
        match self {
            InterfaceBlocks::Name
            | InterfaceBlocks::PortPath
            | InterfaceBlocks::ClassCode
            | InterfaceBlocks::Driver
            | InterfaceBlocks::SysPath => true,
            _ => false,
        }
    }

    fn heading(&self, pad: &Vec<(InterfaceBlocks, usize)>) -> (r: String) {
        match self {
            InterfaceBlocks::Number => String::from_str(" #"),
            InterfaceBlocks::Name => centre("Name", interface_pad_get(pad, *self)),
            InterfaceBlocks::NumEndpoints => String::from_str("E#"),
            InterfaceBlocks::PortPath => centre("PortPath", interface_pad_get(pad, *self)),
            InterfaceBlocks::SysPath => centre("SysPath", interface_pad_get(pad, *self)),
            InterfaceBlocks::Driver => centre("Driver", interface_pad_get(pad, *self)),
            InterfaceBlocks::ClassCode => centre("Class", interface_pad_get(pad, *self)),
            InterfaceBlocks::SubClass => String::from_str("SubC"),
            InterfaceBlocks::Protocol => String::from_str("Pcol"),
            InterfaceBlocks::AltSetting => String::from_str("Alt#"),
            InterfaceBlocks::Icon => String::from_str("I"),
        }
    }

    fn format_value(
        &self,
        interface: &USBInterface,
        pad: &Vec<(InterfaceBlocks, usize)>,
        settings: &PrintSettings,
    ) -> (r: Option<String>) {
        match self {
            InterfaceBlocks::Number => Some(dec_pad_left(interface.number as u64, 2)),
            InterfaceBlocks::Name => Some(
                pad_right(interface.name.as_str(), interface_pad_get(pad, *self)),
            ),
            InterfaceBlocks::NumEndpoints => Some(
                dec_pad_left(interface.endpoints.len() as u64, 2),
            ),
            InterfaceBlocks::PortPath => Some(
                pad_right(interface.path.as_str(), interface_pad_get(pad, *self)),
            ),
            InterfaceBlocks::SysPath => {
                let w = interface_pad_get(pad, *self);
                Some(
                    match interface.syspath.as_ref() {
                        Some(s) => pad_right(s.as_str(), w),
                        None => pad_right("-", w),
                    },
                )
            },
            InterfaceBlocks::Driver => {
                let w = interface_pad_get(pad, *self);
                Some(
                    match interface.driver.as_ref() {
                        Some(s) => pad_right(s.as_str(), w),
                        None => pad_right("-", w),
                    },
                )
            },
            InterfaceBlocks::ClassCode => Some(
                pad_right(interface.class.as_str(), interface_pad_get(pad, *self)),
            ),
            InterfaceBlocks::SubClass => Some(
                Self::format_base_u8(interface.sub_class, settings),
            ),
            InterfaceBlocks::Protocol => Some(Self::format_base_u8(interface.protocol, settings)),
            InterfaceBlocks::AltSetting => Some(
                Self::format_base_u8(interface.alt_setting, settings),
            ),
            InterfaceBlocks::Icon => match settings.icons.as_ref() {
                Some(t) => Some(
                    t.get_classifier_icon(
                        &interface.class,
                        interface.sub_class,
                        interface.protocol,
                    ),
                ),
                None => None,
            },
        }
    }

    fn colour(&self, s: &String, ct: &ColourTheme) -> (r: String) {
        match self {
            InterfaceBlocks::Number => apply_colour(s.as_str(), &ct.number),
            InterfaceBlocks::Name => apply_colour(s.as_str(), &ct.name),
            InterfaceBlocks::PortPath | InterfaceBlocks::SysPath => {
                apply_colour(s.as_str(), &ct.path)
            },
            InterfaceBlocks::Icon => apply_colour(s.as_str(), &ct.icon),
            InterfaceBlocks::ClassCode => apply_colour(s.as_str(), &ct.class_code),
            InterfaceBlocks::SubClass => apply_colour(s.as_str(), &ct.sub_code),
            InterfaceBlocks::Protocol => apply_colour(s.as_str(), &ct.protocol),
            InterfaceBlocks::Driver => apply_colour(s.as_str(), &ct.driver),
            InterfaceBlocks::AltSetting | InterfaceBlocks::NumEndpoints => {
                apply_colour(s.as_str(), &ct.number)
            },
        }
    }
}

fn endpoint_pad_get(pad: &Vec<(EndpointBlocks, usize)>, b: EndpointBlocks) -> (r: usize)
    ensures
        r == spec_pad_get(pad@, b),
{
    proof {
        assert(pad@.skip(0) =~= pad@);
    }
    let mut i: usize = 0;
    while i < pad.len()
        invariant
            i <= pad.len(),
            spec_pad_get(pad@, b) == spec_pad_get(pad@.skip(i as int), b),
        decreases pad.len() - i,
    {
        proof {
            assert(pad@.skip(i as int)[0] == pad@[i as int]);
            assert(pad@.skip(i as int).drop_first() =~= pad@.skip(i as int + 1));
        }
        let (bb, w) = pad[i];
        if bb == b {
            return w;
        }
        i = i + 1;
    }
    proof {
        assert(pad@.skip(i as int) =~= Seq::<(EndpointBlocks, usize)>::empty());
    }
    0
}

/// The heading row cell for an endpoint column.
pub open spec fn spec_endpoint_heading(b: EndpointBlocks, pad: Seq<(EndpointBlocks, usize)>) -> Seq<
    char,
> {
    match b {
        EndpointBlocks::Number => " #"@,
        EndpointBlocks::Interval => "Iv"@,
        EndpointBlocks::MaxPacketSize => spec_centre("MaxPkB"@, spec_pad_get(pad, b) as nat),
        EndpointBlocks::Direction => spec_centre("Dir"@, spec_pad_get(pad, b) as nat),
        EndpointBlocks::TransferType => spec_centre("TransferT"@, spec_pad_get(pad, b) as nat),
        EndpointBlocks::SyncType => spec_centre("SyncT"@, spec_pad_get(pad, b) as nat),
        EndpointBlocks::UsageType => spec_centre("UsageT"@, spec_pad_get(pad, b) as nat),
    }
}

/// The cell for an endpoint column.
pub open spec fn spec_endpoint_value(
    b: EndpointBlocks,
    e: &USBEndpoint,
    pad: Seq<(EndpointBlocks, usize)>,
    settings: &PrintSettings,
) -> Option<Seq<char>> {
    match b {
        EndpointBlocks::Number => Some(spec_pad_left(spec_dec(e.address.number as nat), 2)),
        EndpointBlocks::Interval => Some(spec_pad_left(spec_dec(e.interval as nat), 2)),
        EndpointBlocks::MaxPacketSize => Some(
            spec_pad_right(spec_max_packet_str(e), spec_pad_get(pad, b) as nat),
        ),
        EndpointBlocks::Direction => Some(
            spec_pad_right(spec_direction_str(e.address.direction), spec_pad_get(pad, b) as nat),
        ),
        EndpointBlocks::TransferType => Some(
            spec_pad_right(spec_transfer_str(e.transfer_type), spec_pad_get(pad, b) as nat),
        ),
        EndpointBlocks::SyncType => Some(
            spec_pad_right(spec_sync_str(e.sync_type), spec_pad_get(pad, b) as nat),
        ),
        EndpointBlocks::UsageType => Some(
            spec_pad_right(spec_usage_str(e.usage_type), spec_pad_get(pad, b) as nat),
        ),
    }
}

/// The padding table for a batch of sibling endpoints.
pub open spec fn spec_endpoint_padding_table(items: Seq<USBEndpoint>) -> Seq<
    (EndpointBlocks, usize),
> {
    seq![
        (
            EndpointBlocks::TransferType,
            spec_max(
                "TransferT"@.len(),
                spec_seq_max(
                    items.map_values(|e: USBEndpoint| spec_transfer_str(e.transfer_type).len()),
                ),
            ) as usize,
        ),
        (
            EndpointBlocks::SyncType,
            spec_max(
                "SyncT"@.len(),
                spec_seq_max(
                    items.map_values(|e: USBEndpoint| spec_sync_str(e.sync_type).len()),
                ),
            ) as usize,
        ),
        (
            EndpointBlocks::UsageType,
            spec_max(
                "UsageT"@.len(),
                spec_seq_max(
                    items.map_values(|e: USBEndpoint| spec_usage_str(e.usage_type).len()),
                ),
            ) as usize,
        ),
        (
            EndpointBlocks::Direction,
            spec_max(
                "Dir"@.len(),
                spec_seq_max(
                    items.map_values(
                        |e: USBEndpoint| spec_direction_str(e.address.direction).len(),
                    ),
                ),
            ) as usize,
        ),
        (
            EndpointBlocks::MaxPacketSize,
            spec_max(
                "MaxPkB"@.len(),
                spec_seq_max(items.map_values(|e: USBEndpoint| spec_max_packet_str(&e).len())),
            ) as usize,
        ),
    ]
}

impl Block<EndpointBlocks, USBEndpoint> for EndpointBlocks {
    open spec fn spec_default_blocks(verbose: bool) -> Seq<EndpointBlocks> {
        if verbose {
            seq![
                EndpointBlocks::Number,
                EndpointBlocks::Direction,
                EndpointBlocks::TransferType,
                EndpointBlocks::SyncType,
                EndpointBlocks::UsageType,
                EndpointBlocks::Interval,
                EndpointBlocks::MaxPacketSize,
            ]
        } else {
            seq![
                EndpointBlocks::Number,
                EndpointBlocks::Direction,
                EndpointBlocks::TransferType,
                EndpointBlocks::SyncType,
                EndpointBlocks::UsageType,
                EndpointBlocks::MaxPacketSize,
            ]
        }
    }

    open spec fn spec_padding_table(items: Seq<USBEndpoint>) -> Seq<(EndpointBlocks, usize)> {
        spec_endpoint_padding_table(items)
    }

    open spec fn spec_is_string(&self) -> bool {
        match self {
            EndpointBlocks::TransferType
            | EndpointBlocks::SyncType
            | EndpointBlocks::UsageType
            | EndpointBlocks::Direction => true,
            _ => false,
        }
    }

    open spec fn spec_heading(&self, pad: Seq<(EndpointBlocks, usize)>) -> Seq<char> {
        spec_endpoint_heading(*self, pad)
    }

    open spec fn spec_value(
        &self,
        d: &USBEndpoint,
        pad: Seq<(EndpointBlocks, usize)>,
        settings: &PrintSettings,
    ) -> Option<Seq<char>> {
        spec_endpoint_value(*self, d, pad, settings)
    }

    open spec fn spec_colour(&self, ct: &ColourTheme) -> Option<Colour> {
        match self {
            EndpointBlocks::Number | EndpointBlocks::Interval | EndpointBlocks::MaxPacketSize => {
                ct.number
            },
            EndpointBlocks::Direction
            | EndpointBlocks::UsageType
            | EndpointBlocks::TransferType
            | EndpointBlocks::SyncType => ct.attributes,
        }
    }

    fn default_blocks(verbose: bool) -> (r: Vec<EndpointBlocks>) {
        let mut r: Vec<EndpointBlocks> = Vec::new();
        r.push(EndpointBlocks::Number);
        r.push(EndpointBlocks::Direction);
        r.push(EndpointBlocks::TransferType);
        r.push(EndpointBlocks::SyncType);
        r.push(EndpointBlocks::UsageType);
        if verbose {
            r.push(EndpointBlocks::Interval);
        }
        r.push(EndpointBlocks::MaxPacketSize);
        proof {
            assert(r@ =~= Self::spec_default_blocks(verbose));
        }
        r
    }

    fn generate_padding(d: &Vec<&USBEndpoint>) -> (r: Vec<(EndpointBlocks, usize)>) {
        let ghost items = derefs(d@);
        let ghost transfer_lens = items.map_values(
            |e: USBEndpoint| spec_transfer_str(e.transfer_type).len(),
        );
        let ghost sync_lens = items.map_values(|e: USBEndpoint| spec_sync_str(e.sync_type).len());
        let ghost usage_lens = items.map_values(
            |e: USBEndpoint| spec_usage_str(e.usage_type).len(),
        );
        let ghost dir_lens = items.map_values(
            |e: USBEndpoint| spec_direction_str(e.address.direction).len(),
        );
        let ghost packet_lens = items.map_values(|e: USBEndpoint| spec_max_packet_str(&e).len());
        let mut transfer_w: usize = 0;
        let mut sync_w: usize = 0;
        let mut usage_w: usize = 0;
        let mut dir_w: usize = 0;
        let mut packet_w: usize = 0;
        let n = d.len();
        let mut i: usize = 0;
        while i < n
            invariant
                n == d@.len(),
                i <= n,
                items == derefs(d@),
                items.len() == n,
                transfer_lens == items.map_values(
                    |e: USBEndpoint| spec_transfer_str(e.transfer_type).len(),
                ),
                sync_lens == items.map_values(|e: USBEndpoint| spec_sync_str(e.sync_type).len()),
                usage_lens == items.map_values(
                    |e: USBEndpoint| spec_usage_str(e.usage_type).len(),
                ),
                dir_lens == items.map_values(
                    |e: USBEndpoint| spec_direction_str(e.address.direction).len(),
                ),
                packet_lens == items.map_values(|e: USBEndpoint| spec_max_packet_str(&e).len()),
                transfer_w as nat == spec_seq_max(transfer_lens.take(i as int)),
                sync_w as nat == spec_seq_max(sync_lens.take(i as int)),
                usage_w as nat == spec_seq_max(usage_lens.take(i as int)),
                dir_w as nat == spec_seq_max(dir_lens.take(i as int)),
                packet_w as nat == spec_seq_max(packet_lens.take(i as int)),
            decreases n - i,
        {
            let e: &USBEndpoint = d[i];
            proof {
                assert(items[i as int] == *d@[i as int]);
                crate::text::lemma_seq_max_snoc(transfer_lens, i as int);
                crate::text::lemma_seq_max_snoc(sync_lens, i as int);
                crate::text::lemma_seq_max_snoc(usage_lens, i as int);
                crate::text::lemma_seq_max_snoc(dir_lens, i as int);
                crate::text::lemma_seq_max_snoc(packet_lens, i as int);
            }
            let s = e.transfer_type.display();
            let l = s.as_str().unicode_len();
            if l > transfer_w {
                transfer_w = l;
            }
            let s = e.sync_type.display();
            let l = s.as_str().unicode_len();
            if l > sync_w {
                sync_w = l;
            }
            let s = e.usage_type.display();
            let l = s.as_str().unicode_len();
            if l > usage_w {
                usage_w = l;
            }
            let s = e.address.direction.display();
            let l = s.as_str().unicode_len();
            if l > dir_w {
                dir_w = l;
            }
            let s = e.max_packet_string();
            let l = s.as_str().unicode_len();
            if l > packet_w {
                packet_w = l;
            }
            i = i + 1;
        }
        proof {
            assert(transfer_lens.take(n as int) =~= transfer_lens);
            assert(sync_lens.take(n as int) =~= sync_lens);
            assert(usage_lens.take(n as int) =~= usage_lens);
            assert(dir_lens.take(n as int) =~= dir_lens);
            assert(packet_lens.take(n as int) =~= packet_lens);
        }
        let mut r: Vec<(EndpointBlocks, usize)> = Vec::new();
        let w = max_usize("TransferT".unicode_len(), transfer_w);
        r.push((EndpointBlocks::TransferType, w));
        let w = max_usize("SyncT".unicode_len(), sync_w);
        r.push((EndpointBlocks::SyncType, w));
        let w = max_usize("UsageT".unicode_len(), usage_w);
        r.push((EndpointBlocks::UsageType, w));
        let w = max_usize("Dir".unicode_len(), dir_w);
        r.push((EndpointBlocks::Direction, w));
        let w = max_usize("MaxPkB".unicode_len(), packet_w);
        r.push((EndpointBlocks::MaxPacketSize, w));
        proof {
            assert(r@ =~= spec_endpoint_padding_table(items));
        }
        r
    }

    fn value_is_string(&self) -> (r: bool) {
        match self {
            EndpointBlocks::TransferType
            | EndpointBlocks::SyncType
            | EndpointBlocks::UsageType
            | EndpointBlocks::Direction => true,
            _ => false,
        }
    }

    fn heading(&self, pad: &Vec<(EndpointBlocks, usize)>) -> (r: String) {
        match self {
            EndpointBlocks::Number => String::from_str(" #"),
            EndpointBlocks::Interval => String::from_str("Iv"),
            EndpointBlocks::MaxPacketSize => centre("MaxPkB", endpoint_pad_get(pad, *self)),
            EndpointBlocks::Direction => centre("Dir", endpoint_pad_get(pad, *self)),
            EndpointBlocks::TransferType => centre("TransferT", endpoint_pad_get(pad, *self)),
            EndpointBlocks::SyncType => centre("SyncT", endpoint_pad_get(pad, *self)),
            EndpointBlocks::UsageType => centre("UsageT", endpoint_pad_get(pad, *self)),
        }
    }

    fn format_value(
        &self,
        end: &USBEndpoint,
        pad: &Vec<(EndpointBlocks, usize)>,
        settings: &PrintSettings,
    ) -> (r: Option<String>) {
        match self {
            EndpointBlocks::Number => Some(dec_pad_left(end.address.number as u64, 2)),
            EndpointBlocks::Interval => Some(dec_pad_left(end.interval as u64, 2)),
            EndpointBlocks::MaxPacketSize => {
                let s = end.max_packet_string();
                Some(pad_right(s.as_str(), endpoint_pad_get(pad, *self)))
            },
            EndpointBlocks::Direction => {
                let s = end.address.direction.display();
                Some(pad_right(s.as_str(), endpoint_pad_get(pad, *self)))
            },
            EndpointBlocks::TransferType => {
                let s = end.transfer_type.display();
                Some(pad_right(s.as_str(), endpoint_pad_get(pad, *self)))
            },
            EndpointBlocks::SyncType => {
                let s = end.sync_type.display();
                Some(pad_right(s.as_str(), endpoint_pad_get(pad, *self)))
            },
            EndpointBlocks::UsageType => {
                let s = end.usage_type.display();
                Some(pad_right(s.as_str(), endpoint_pad_get(pad, *self)))
            },
        }
    }

    fn colour(&self, s: &String, ct: &ColourTheme) -> (r: String) {
        match self {
            EndpointBlocks::Number | EndpointBlocks::Interval | EndpointBlocks::MaxPacketSize => {
                apply_colour(s.as_str(), &ct.number)
            },
            EndpointBlocks::Direction
            | EndpointBlocks::UsageType
            | EndpointBlocks::TransferType
            | EndpointBlocks::SyncType => apply_colour(s.as_str(), &ct.attributes),
        }
    }
}

/// The cells shown for one entity: each column's cell in column order,
/// columns that do not apply left out.
pub open spec fn spec_rendered_cells<B, T, X: Block<B, T>>(
    d: &T,
    blocks: Seq<X>,
    pad: Seq<(B, usize)>,
    settings: &PrintSettings,
) -> Seq<Seq<char>>
    decreases blocks.len(),
{
    if blocks.len() == 0 {
        Seq::empty()
    } else {
        match blocks[0].spec_value(d, pad, settings) {
            Some(v) => seq![v] + spec_rendered_cells(d, blocks.drop_first(), pad, settings),
            None => spec_rendered_cells(d, blocks.drop_first(), pad, settings),
        }
    }
}

/// The heading cells of a column set, in column order.
pub open spec fn spec_heading_cells<B, T, X: Block<B, T>>(blocks: Seq<X>, pad: Seq<(B, usize)>) -> Seq<
    Seq<char>,
>
    decreases blocks.len(),
{
    if blocks.len() == 0 {
        Seq::empty()
    } else {
        seq![blocks[0].spec_heading(pad)] + spec_heading_cells::<B, T, X>(blocks.drop_first(), pad)
    }
}

fn render_value_from<B, T, X: Block<B, T>>(
    d: &T,
    blocks: &Vec<X>,
    from: usize,
    pad: &Vec<(B, usize)>,
    settings: &PrintSettings,
    out: &mut Vec<String>,
)
    requires
        from <= blocks@.len(),
    ensures
        final (out)@.len() == old(out)@.len() + spec_rendered_cells(
            d,
            blocks@.skip(from as int),
            pad@,
            settings,
        ).len(),
        settings.colours is None ==> str_views(final (out)@) == str_views(old(out)@)
            + spec_rendered_cells(d, blocks@.skip(from as int), pad@, settings),
    decreases blocks@.len() - from,
{
    if from == blocks.len() {
        proof {
            assert(blocks@.skip(from as int) =~= Seq::<X>::empty());
            assert(str_views(out@) =~= str_views(out@) + spec_rendered_cells(
                d,
                blocks@.skip(from as int),
                pad@,
                settings,
            ));
        }
    } else {
        proof {
            assert(blocks@.skip(from as int)[0] == blocks@[from as int]);
            assert(blocks@.skip(from as int).drop_first() =~= blocks@.skip(from as int + 1));
        }
        let ghost out0 = out@;
        let b = &blocks[from];
        match b.format_value(d, pad, settings) {
            Some(s) => {
                match settings.colours.as_ref() {
                    Some(c) => {
                        let coloured = b.colour(&s, c);
                        out.push(coloured);
                    },
                    None => {
                        out.push(s);
                    },
                }
                proof {
                    if settings.colours is None {
                        assert(str_views(out@) =~= str_views(out0).push(
                            b.spec_value(d, pad@, settings)->Some_0,
                        ));
                    }
                }
            },
            None => {},
        }
        let ghost out1 = out@;
        render_value_from(d, blocks, from + 1, pad, settings, out);
        proof {
            if settings.colours is None {
                assert(str_views(out@) =~= str_views(out0) + spec_rendered_cells(
                    d,
                    blocks@.skip(from as int),
                    pad@,
                    settings,
                ));
            }
        }
    }
}

/// Render each column's cell for the entity `d`, colouring each by its role
/// when a colour theme is active.
pub fn render_value<B, T, X: Block<B, T>>(
    d: &T,
    blocks: &Vec<X>,
    pad: &Vec<(B, usize)>,
    settings: &PrintSettings,
) -> (r: Vec<String>)
    ensures
        r@.len() == spec_rendered_cells(d, blocks@, pad@, settings).len(),
        settings.colours is None ==> str_views(r@) == spec_rendered_cells(
            d,
            blocks@,
            pad@,
            settings,
        ),
{
    let mut out: Vec<String> = Vec::new();
    proof {
        assert(blocks@.skip(0) =~= blocks@);
        assert(str_views(Seq::<String>::empty()) =~= Seq::<Seq<char>>::empty());
    }
    render_value_from(d, blocks, 0, pad, settings, &mut out);
    proof {
        if settings.colours is None {
            assert(str_views(out@) =~= spec_rendered_cells(d, blocks@, pad@, settings));
        }
    }
    out
}

fn render_heading_from<B, T, X: Block<B, T>>(
    blocks: &Vec<X>,
    from: usize,
    pad: &Vec<(B, usize)>,
    out: &mut Vec<String>,
)
    requires
        from <= blocks@.len(),
    ensures
        str_views(final (out)@) == str_views(old(out)@) + spec_heading_cells::<B, T, X>(
            blocks@.skip(from as int),
            pad@,
        ),
    decreases blocks@.len() - from,
{
    if from == blocks.len() {
        proof {
            assert(blocks@.skip(from as int) =~= Seq::<X>::empty());
            assert(str_views(out@) =~= str_views(out@) + spec_heading_cells::<B, T, X>(
                blocks@.skip(from as int),
                pad@,
            ));
        }
    } else {
        proof {
            assert(blocks@.skip(from as int)[0] == blocks@[from as int]);
            assert(blocks@.skip(from as int).drop_first() =~= blocks@.skip(from as int + 1));
        }
        let ghost out0 = out@;
        let h = blocks[from].heading(pad);
        out.push(h);
        proof {
            assert(str_views(out@) =~= str_views(out0).push(
                blocks@[from as int].spec_heading(pad@),
            ));
        }
        render_heading_from(blocks, from + 1, pad, out);
        proof {
            assert(str_views(out@) =~= str_views(out0) + spec_heading_cells::<B, T, X>(
                blocks@.skip(from as int),
                pad@,
            ));
        }
    }
}

/// Render the heading cell of every column being shown.
pub fn render_heading<B, T, X: Block<B, T>>(blocks: &Vec<X>, pad: &Vec<(B, usize)>) -> (r: Vec<
    String,
>)
    ensures
        str_views(r@) == spec_heading_cells::<B, T, X>(blocks@, pad@),
{
    let mut out: Vec<String> = Vec::new();
    proof {
        assert(blocks@.skip(0) =~= blocks@);
        assert(str_views(Seq::<String>::empty()) =~= Seq::<Seq<char>>::empty());
    }
    render_heading_from(blocks, 0, pad, &mut out);
    proof {
        assert(str_views(out@) =~= spec_heading_cells::<B, T, X>(blocks@, pad@));
    }
    out
}

/// Tree-draw state passed down the recursive printers.
#[derive(Debug)]
pub struct TreeData {
    /// Number of siblings at this level.
    pub branch_length: usize,
    /// This entity's position among its siblings.
    pub trunk_index: u8,
    /// Recursion depth.
    pub depth: usize,
    /// Accumulated prefix of already-drawn ancestor connectors.
    pub prefix: String,
}

impl Default for TreeData {
    /// The state at the trunk: no siblings yet, depth zero, empty prefix.
    fn default() -> (r: Self)
        ensures
            r.branch_length == 0,
            r.trunk_index == 0,
            r.depth == 0,
            r.prefix@ == Seq::<char>::empty(),
    {
        TreeData { branch_length: 0, trunk_index: 0, depth: 0, prefix: String::new() }
    }
}

/// The glyph used for a tree position: the theme's when one is active, the
/// ASCII one otherwise.
pub open spec fn spec_tree_icon(settings: &PrintSettings, i: Icon) -> Seq<char> {
    match settings.icons {
        Some(t) => spec_theme_tree_icon(&t, i),
        None => spec_ascii_tree_icon(i),
    }
}

fn tree_icon(settings: &PrintSettings, i: &Icon) -> (r: String)
    ensures
        r@ == spec_tree_icon(settings, *i),
{
    match settings.icons.as_ref() {
        Some(t) => t.get_tree_icon(i),
        None => get_ascii_tree_icon(i),
    }
}

/// The connector drawn in front of an entity's own line: the corner glyph
/// exactly when it is the last of its siblings, the edge glyph otherwise.
pub open spec fn spec_connector(index: int, branch_length: int) -> Icon {
    if index + 1 == branch_length {
        Icon::TreeCorner
    } else {
        Icon::TreeEdge
    }
}

/// Choose the connector for the entity at `index` among `branch_length`
/// siblings.  The corner is chosen exactly for the last sibling; every
/// other one gets the edge.
pub fn connector_icon(index: usize, branch_length: usize) -> (r: Icon)
    requires
        index < usize::MAX,
    ensures
        r == spec_connector(index as int, branch_length as int),
        r == Icon::TreeCorner <==> index + 1 == branch_length,
        r == Icon::TreeEdge <==> index + 1 != branch_length,
{
    if index + 1 == branch_length {
        Icon::TreeCorner
    } else {
        Icon::TreeEdge
    }
}

/// The glyph an ancestor leaves in its descendants' prefix: the vertical
/// continuation when it has more siblings below it, blank when it was the
/// last.
pub open spec fn spec_prefix_glyph(settings: &PrintSettings, index: int, branch_length: int) -> Seq<
    char,
> {
    spec_tree_icon(
        settings,
        if index + 1 != branch_length {
            Icon::TreeLine
        } else {
            Icon::TreeBlank
        },
    )
}

/// The prefix a child level inherits: in tree mode below the trunk, the
/// parent's prefix extended by the parent's continuation-or-blank glyph;
/// unchanged otherwise.
pub open spec fn spec_child_prefix(
    prefix: Seq<char>,
    depth: int,
    branch_length: int,
    index: int,
    settings: &PrintSettings,
) -> Seq<char> {
    if settings.tree && depth > 0 {
        prefix + spec_prefix_glyph(settings, index, branch_length)
    } else {
        prefix
    }
}

/// The prefix drawn in front of an entity's own line: the inherited prefix
/// followed by this entity's edge-or-corner connector when below the
/// trunk.
pub open spec fn spec_elem_prefix(
    prefix: Seq<char>,
    depth: int,
    branch_length: int,
    index: int,
    settings: &PrintSettings,
) -> Seq<char> {
    if depth > 0 {
        prefix + spec_tree_icon(settings, spec_connector(index, branch_length))
    } else {
        prefix
    }
}

/// Derive the draw state of a child level from its parent's state, this
/// level's sibling count and the parent's index among its own siblings.
/// The depth always grows by exactly one, and the new prefix begins with
/// the old one, so prefixes never shrink along a descent.
pub fn generate_tree_data(
    current_tree: &TreeData,
    branch_length: usize,
    index: usize,
    settings: &PrintSettings,
) -> (r: TreeData)
    requires
        current_tree.depth < usize::MAX,
        index < usize::MAX,
    ensures
        r.depth == current_tree.depth + 1,
        r.branch_length == branch_length,
        r.trunk_index == index as u8,
        r.prefix@ == spec_child_prefix(
            current_tree.prefix@,
            current_tree.depth as int,
            current_tree.branch_length as int,
            index as int,
            settings,
        ),
        r.prefix@.len() >= current_tree.prefix@.len(),
        r.prefix@.subrange(0, current_tree.prefix@.len() as int) == current_tree.prefix@,
{
    let mut prefix = current_tree.prefix.clone();
    if settings.tree && current_tree.depth > 0 {
        let edge_icon = if index + 1 != current_tree.branch_length {
            Icon::TreeLine
        } else {
            Icon::TreeBlank
        };
        let glyph = tree_icon(settings, &edge_icon);
        prefix.append(glyph.as_str());
    }
    let r = TreeData {
        branch_length,
        trunk_index: index as u8,
        depth: current_tree.depth + 1,
        prefix,
    };
    proof {
        assert(r.prefix@.subrange(0, current_tree.prefix@.len() as int) =~= current_tree.prefix@);
    }
    r
}

/// The key a sort policy orders devices by.
pub open spec fn spec_device_key(s: Sort, d: USBDevice) -> u8 {
    match s {
        Sort::BranchPosition => spec_branch_position(&d),
        Sort::DeviceNumber => d.location_id.number,
        Sort::NoSort => 0,
    }
}

/// `x` inserted into `ds` after every element whose key is not larger, so
/// that inserting later elements behind equal keys keeps the sort stable.
pub open spec fn spec_sorted_insert(s: Sort, x: USBDevice, ds: Seq<USBDevice>) -> Seq<USBDevice>
    decreases ds.len(),
{
    if ds.len() == 0 {
        seq![x]
    } else if spec_device_key(s, ds[0]) <= spec_device_key(s, x) {
        seq![ds[0]] + spec_sorted_insert(s, x, ds.drop_first())
    } else {
        seq![x] + ds
    }
}

/// The display order of a device batch: the batch itself under no-sort,
/// else the stable insertion sort by the policy's key.
pub open spec fn spec_sort_devices(s: Sort, ds: Seq<USBDevice>) -> Seq<USBDevice>
    decreases ds.len(),
{
    if s is NoSort || ds.len() == 0 {
        ds
    } else {
        spec_sorted_insert(s, ds.last(), spec_sort_devices(s, ds.drop_last()))
    }
}

/// Whether a batch is ordered by the policy's key.
pub open spec fn spec_sorted_by_key(s: Sort, ds: Seq<USBDevice>) -> bool {
    forall|i: int, j: int|
        0 <= i < j < ds.len() ==> spec_device_key(s, ds[i]) <= spec_device_key(s, ds[j])
}

proof fn lemma_sorted_insert_len(s: Sort, x: USBDevice, ds: Seq<USBDevice>)
    ensures
        spec_sorted_insert(s, x, ds).len() == ds.len() + 1,
    decreases ds.len(),
{
    if ds.len() > 0 && spec_device_key(s, ds[0]) <= spec_device_key(s, x) {
        lemma_sorted_insert_len(s, x, ds.drop_first());
    }
}

/// Sorting never adds or drops a device.
pub proof fn lemma_sort_devices_len(s: Sort, ds: Seq<USBDevice>)
    ensures
        spec_sort_devices(s, ds).len() == ds.len(),
    decreases ds.len(),
{
    if !(s is NoSort) && ds.len() > 0 {
        lemma_sort_devices_len(s, ds.drop_last());
        lemma_sorted_insert_len(s, ds.last(), spec_sort_devices(s, ds.drop_last()));
    }
}

proof fn lemma_sorted_insert_multiset(s: Sort, x: USBDevice, ds: Seq<USBDevice>)
    ensures
        spec_sorted_insert(s, x, ds).to_multiset() == ds.to_multiset().insert(x),
    decreases ds.len(),
{
    broadcast use vstd::seq_lib::group_to_multiset_ensures;

    if ds.len() == 0 {
        assert(spec_sorted_insert(s, x, ds) =~= ds.insert(0, x));
    } else if spec_device_key(s, ds[0]) <= spec_device_key(s, x) {
        lemma_sorted_insert_multiset(s, x, ds.drop_first());
        let rec = spec_sorted_insert(s, x, ds.drop_first());
        assert(spec_sorted_insert(s, x, ds) =~= rec.insert(0, ds[0]));
        assert(ds =~= ds.drop_first().insert(0, ds[0]));
        assert(ds.to_multiset() == ds.drop_first().to_multiset().insert(ds[0]));
        assert(ds.drop_first().to_multiset().insert(x).insert(ds[0])
            =~= ds.drop_first().to_multiset().insert(ds[0]).insert(x));
    } else {
        assert(spec_sorted_insert(s, x, ds) =~= ds.insert(0, x));
    }
}

/// Sorting a batch permutes it: the sorted batch holds exactly the same
/// devices, with their multiplicities.
pub proof fn lemma_sort_devices_permutes(s: Sort, ds: Seq<USBDevice>)
    ensures
        spec_sort_devices(s, ds).to_multiset() == ds.to_multiset(),
    decreases ds.len(),
{
    broadcast use vstd::seq_lib::group_to_multiset_ensures;

    if !(s is NoSort) && ds.len() > 0 {
        lemma_sort_devices_permutes(s, ds.drop_last());
        lemma_sorted_insert_multiset(s, ds.last(), spec_sort_devices(s, ds.drop_last()));
        assert(ds =~= ds.drop_last().push(ds.last()));
        assert(ds.to_multiset() == ds.drop_last().to_multiset().insert(ds.last()));
    }
}

proof fn lemma_sorted_insert_sorted(s: Sort, x: USBDevice, ds: Seq<USBDevice>)
    requires
        spec_sorted_by_key(s, ds),
    ensures
        spec_sorted_by_key(s, spec_sorted_insert(s, x, ds)),
    decreases ds.len(),
{
    let r = spec_sorted_insert(s, x, ds);
    if ds.len() == 0 {
    } else if spec_device_key(s, ds[0]) <= spec_device_key(s, x) {
        assert(forall|i: int, j: int|
            0 <= i < j < ds.drop_first().len() ==> spec_device_key(s, ds.drop_first()[i])
                <= spec_device_key(s, ds.drop_first()[j]));
        lemma_sorted_insert_sorted(s, x, ds.drop_first());
        let rec = spec_sorted_insert(s, x, ds.drop_first());
        lemma_sorted_insert_len(s, x, ds.drop_first());
        assert forall|i: int, j: int| 0 <= i < j < r.len() implies spec_device_key(s, r[i])
            <= spec_device_key(s, r[j]) by {
            if i == 0 {
                assert(r[0] == ds[0]);
                assert(r[j] == rec[j - 1]);
                lemma_sorted_insert_element(s, x, ds.drop_first(), j - 1);
            } else {
                assert(r[i] == rec[i - 1]);
                assert(r[j] == rec[j - 1]);
            }
        }
    } else {
    }
}

proof fn lemma_sorted_insert_element(s: Sort, x: USBDevice, ds: Seq<USBDevice>, i: int)
    requires
        0 <= i < spec_sorted_insert(s, x, ds).len(),
    ensures
        spec_sorted_insert(s, x, ds)[i] == x || ds.contains(spec_sorted_insert(s, x, ds)[i]),
    decreases ds.len(),
{
    let r = spec_sorted_insert(s, x, ds);
    if ds.len() == 0 {
    } else if spec_device_key(s, ds[0]) <= spec_device_key(s, x) {
        if i == 0 {
            assert(ds.contains(ds[0]));
        } else {
            lemma_sorted_insert_element(s, x, ds.drop_first(), i - 1);
            let rec = spec_sorted_insert(s, x, ds.drop_first());
            assert(r[i] == rec[i - 1]);
            if rec[i - 1] != x {
                let k = choose|k: int|
                    0 <= k < ds.drop_first().len() && ds.drop_first()[k] == rec[i - 1];
                assert(ds[k + 1] == rec[i - 1]);
                assert(ds.contains(rec[i - 1]));
            }
        }
    } else {
        if i > 0 {
            assert(r[i] == ds[i - 1]);
            assert(ds.contains(ds[i - 1]));
        }
    }
}

/// Sorting a batch orders it: under either key policy, keys never decrease
/// along the sorted batch; no-sort leaves the batch untouched by
/// definition.
pub proof fn lemma_sort_devices_sorted(s: Sort, ds: Seq<USBDevice>)
    requires
        !(s is NoSort),
    ensures
        spec_sorted_by_key(s, spec_sort_devices(s, ds)),
    decreases ds.len(),
{
    if ds.len() > 0 {
        lemma_sort_devices_sorted(s, ds.drop_last());
        lemma_sorted_insert_sorted(s, ds.last(), spec_sort_devices(s, ds.drop_last()));
    }
}

proof fn lemma_sorted_insert_height(s: Sort, x: USBDevice, ds: Seq<USBDevice>)
    ensures
        spec_forest_height(spec_sorted_insert(s, x, ds)) == if spec_dev_height(x)
            >= spec_forest_height(ds) {
            spec_dev_height(x)
        } else {
            spec_forest_height(ds)
        },
    decreases ds.len(),
{
    let r = spec_sorted_insert(s, x, ds);
    if ds.len() == 0 {
        assert(r[0] == x);
        assert(r.drop_first() =~= Seq::<USBDevice>::empty());
        assert(spec_forest_height(r.drop_first()) == 0);
        assert(spec_forest_height(r) == spec_dev_height(x));
    } else if spec_device_key(s, ds[0]) <= spec_device_key(s, x) {
        lemma_sorted_insert_height(s, x, ds.drop_first());
        let rec = spec_sorted_insert(s, x, ds.drop_first());
        lemma_sorted_insert_len(s, x, ds.drop_first());
        assert(r[0] == ds[0]);
        assert(r.drop_first() =~= rec);
        assert(spec_forest_height(r) == if spec_dev_height(ds[0]) >= spec_forest_height(rec) {
            spec_dev_height(ds[0])
        } else {
            spec_forest_height(rec)
        });
        assert(spec_forest_height(ds) == if spec_dev_height(ds[0]) >= spec_forest_height(
            ds.drop_first(),
        ) {
            spec_dev_height(ds[0])
        } else {
            spec_forest_height(ds.drop_first())
        });
    } else {
        assert(r[0] == x);
        assert(r.drop_first() =~= ds);
        assert(spec_forest_height(r) == if spec_dev_height(x) >= spec_forest_height(ds) {
            spec_dev_height(x)
        } else {
            spec_forest_height(ds)
        });
    }
}

proof fn lemma_sort_devices_height(s: Sort, ds: Seq<USBDevice>)
    ensures
        spec_forest_height(spec_sort_devices(s, ds)) == spec_forest_height(ds),
    decreases ds.len(),
{
    if !(s is NoSort) && ds.len() > 0 {
        lemma_sort_devices_height(s, ds.drop_last());
        lemma_sorted_insert_height(s, ds.last(), spec_sort_devices(s, ds.drop_last()));
        lemma_forest_height_snoc(ds);
    }
}

proof fn lemma_forest_height_snoc(ds: Seq<USBDevice>)
    requires
        ds.len() > 0,
    ensures
        spec_forest_height(ds) == if spec_dev_height(ds.last()) >= spec_forest_height(
            ds.drop_last(),
        ) {
            spec_dev_height(ds.last())
        } else {
            spec_forest_height(ds.drop_last())
        },
    decreases ds.len(),
{
    if ds.len() == 1 {
        assert(ds.drop_last() =~= Seq::<USBDevice>::empty());
        assert(ds.drop_first() =~= Seq::<USBDevice>::empty());
    } else {
        lemma_forest_height_snoc(ds.drop_first());
        assert(ds.drop_first().last() == ds.last());
        assert(ds.drop_first().drop_last() =~= ds.drop_last().drop_first());
        assert(ds.drop_last()[0] == ds[0]);
    }
}

fn device_key(s: &Sort, d: &USBDevice) -> (r: u8)
    ensures
        r == spec_device_key(*s, *d),
{
    match s {
        Sort::BranchPosition => d.get_branch_position(),
        Sort::DeviceNumber => d.location_id.number,
        Sort::NoSort => 0,
    }
}

proof fn lemma_sorted_insert_position(s: Sort, x: USBDevice, ds: Seq<USBDevice>, j: int)
    requires
        0 <= j <= ds.len(),
        forall|k: int| 0 <= k < j ==> spec_device_key(s, ds[k]) <= spec_device_key(s, x),
        j < ds.len() ==> spec_device_key(s, ds[j]) > spec_device_key(s, x),
    ensures
        spec_sorted_insert(s, x, ds) == ds.insert(j, x),
    decreases ds.len(),
{
    if ds.len() == 0 {
        assert(spec_sorted_insert(s, x, ds) =~= ds.insert(0, x));
    } else if j == 0 {
        assert(spec_device_key(s, ds[0]) > spec_device_key(s, x));
        assert(spec_sorted_insert(s, x, ds) =~= ds.insert(0, x));
    } else {
        assert(spec_device_key(s, ds[0]) <= spec_device_key(s, x));
        assert(forall|k: int|
            0 <= k < j - 1 ==> spec_device_key(s, ds.drop_first()[k]) <= spec_device_key(s, x));
        assert(j - 1 < ds.drop_first().len() ==> spec_device_key(s, ds.drop_first()[j - 1])
            > spec_device_key(s, x));
        lemma_sorted_insert_position(s, x, ds.drop_first(), j - 1);
        assert(spec_sorted_insert(s, x, ds) =~= ds.insert(j, x));
    }
}

impl Sort {
    /// Sort an owned device batch into display order: a permutation
    /// ordered by this policy's key, or the batch unchanged under no-sort.
    pub fn sort_devices(&self, d: Vec<USBDevice>) -> (r: Vec<USBDevice>)
        ensures
            r@ == spec_sort_devices(*self, d@),
    {
        match self {
            Sort::NoSort => d,
            _ => {
                let ghost ds0 = d@;
                let mut src = d;
                let n = src.len();
                let mut out: Vec<USBDevice> = Vec::new();
                let mut i: usize = 0;
                proof {
                    assert(ds0.take(0) =~= Seq::<USBDevice>::empty());
                }
                while src.len() > 0
                    invariant
                        !(*self is NoSort),
                        n == ds0.len(),
                        i <= n,
                        i as int + src@.len() == ds0.len(),
                        src@ == ds0.skip(i as int),
                        out@ == spec_sort_devices(*self, ds0.take(i as int)),
                    decreases src@.len(),
                {
                    let x = src.remove(0);
                    proof {
                        assert(ds0.skip(i as int)[0] == ds0[i as int]);
                        assert(ds0.skip(i as int).drop_first() =~= ds0.skip(i as int + 1));
                    }
                    let ghost out0 = out@;
                    let kx = device_key(self, &x);
                    let mut j: usize = 0;
                    while j < out.len() && device_key(self, &out[j]) <= kx
                        invariant
                            j <= out@.len(),
                            out@ == out0,
                            kx == spec_device_key(*self, ds0[i as int]),
                            forall|k: int|
                                0 <= k < j ==> spec_device_key(*self, out@[k]) <= kx,
                        decreases out@.len() - j,
                    {
                        j = j + 1;
                    }
                    out.insert(j, x);
                    proof {
                        lemma_sorted_insert_position(*self, ds0[i as int], out0, j as int);
                        assert(ds0.take(i as int + 1).drop_last() =~= ds0.take(i as int));
                        assert(ds0.take(i as int + 1).last() == ds0[i as int]);
                    }
                    i = i + 1;
                }
                proof {
                    assert(ds0.take(ds0.len() as int) =~= ds0);
                }
                out
            },
        }
    }

    /// Sort a batch of device references into display order, without
    /// touching the devices themselves.
    pub fn sort_devices_ref<'a>(&self, d: &Vec<&'a USBDevice>) -> (r: Vec<&'a USBDevice>)
        ensures
            derefs(r@) == spec_sort_devices(*self, derefs(d@)),
            r@.len() == d@.len(),
    {
        let ghost ds0 = derefs(d@);
        match self {
            Sort::NoSort => {
                let mut out: Vec<&USBDevice> = Vec::new();
                let mut i: usize = 0;
                while i < d.len()
                    invariant
                        i <= d@.len(),
                        out@ == d@.take(i as int),
                    decreases d@.len() - i,
                {
                    out.push(d[i]);
                    proof {
                        assert(out@ =~= d@.take(i as int + 1));
                    }
                    i = i + 1;
                }
                proof {
                    assert(d@.take(d@.len() as int) =~= d@);
                    assert(derefs(out@) =~= derefs(d@));
                }
                out
            },
            _ => {
                let mut out: Vec<&USBDevice> = Vec::new();
                let mut i: usize = 0;
                proof {
                    assert(ds0.take(0) =~= Seq::<USBDevice>::empty());
                    assert(derefs(out@) =~= Seq::<USBDevice>::empty());
                }
                while i < d.len()
                    invariant
                        !(*self is NoSort),
                        i <= d@.len(),
                        ds0 == derefs(d@),
                        ds0.len() == d@.len(),
                        out@.len() == i as int,
                        derefs(out@) == spec_sort_devices(*self, ds0.take(i as int)),
                    decreases d@.len() - i,
                {
                    let x: &USBDevice = d[i];
                    proof {
                        assert(ds0[i as int] == *d@[i as int]);
                    }
                    let ghost out0 = derefs(out@);
                    let kx = device_key(self, x);
                    let mut j: usize = 0;
                    while j < out.len() && device_key(self, &out[j]) <= kx
                        invariant
                            j <= out@.len(),
                            out0 == derefs(out@),
                            out0.len() == out@.len(),
                            kx == spec_device_key(*self, ds0[i as int]),
                            forall|k: int|
                                0 <= k < j ==> spec_device_key(*self, out0[k]) <= kx,
                        decreases out@.len() - j,
                    {
                        proof {
                            assert(out0[j as int] == *out@[j as int]);
                        }
                        j = j + 1;
                    }
                    out.insert(j, x);
                    proof {
                        assert(derefs(out@) =~= out0.insert(j as int, *x));
                        lemma_sorted_insert_position(*self, ds0[i as int], out0, j as int);
                        assert(ds0.take(i as int + 1).drop_last() =~= ds0.take(i as int));
                        assert(ds0.take(i as int + 1).last() == ds0[i as int]);
                    }
                    i = i + 1;
                }
                proof {
                    assert(ds0.take(ds0.len() as int) =~= ds0);
                }
                out
            },
        }
    }
}

/// The padding table used for a batch of endpoints, empty when padding is
/// off.
pub open spec fn spec_endpoint_pad(endpoints: Seq<USBEndpoint>, settings: &PrintSettings) -> Seq<
    (EndpointBlocks, usize),
> {
    if settings.no_padding {
        Seq::empty()
    } else {
        spec_endpoint_padding_table(endpoints)
    }
}

/// One endpoint's output line.
pub open spec fn spec_endpoint_row(
    e: USBEndpoint,
    blocks: Seq<EndpointBlocks>,
    pad: Seq<(EndpointBlocks, usize)>,
    settings: &PrintSettings,
    prefix: Seq<char>,
    depth: int,
    branch_length: int,
    i: int,
) -> Seq<char> {
    if settings.tree {
        spec_elem_prefix(prefix, depth, branch_length, i, settings) + spec_tree_icon(
            settings,
            Icon::Endpoint(e.address.direction),
        ) + " "@ + spec_join(spec_rendered_cells(&e, blocks, pad, settings), " "@)
    } else {
        spec_repeat(' ', 6) + spec_join(spec_rendered_cells(&e, blocks, pad, settings), " "@)
    }
}

/// The heading line of an endpoint batch.
pub open spec fn spec_endpoint_heading_line(
    blocks: Seq<EndpointBlocks>,
    pad: Seq<(EndpointBlocks, usize)>,
    settings: &PrintSettings,
    prefix: Seq<char>,
    depth: int,
    branch_length: int,
) -> Seq<char> {
    if settings.tree {
        spec_elem_prefix(prefix, depth, branch_length, 0, settings) + "  "@ + spec_join(
            spec_heading_cells::<EndpointBlocks, USBEndpoint, EndpointBlocks>(blocks, pad),
            " "@,
        )
    } else {
        spec_repeat(' ', 6) + spec_join(
            spec_heading_cells::<EndpointBlocks, USBEndpoint, EndpointBlocks>(blocks, pad),
            " "@,
        )
    }
}

/// The lines printed for a batch of endpoints: an optional heading, then
/// one line per endpoint in order.
pub open spec fn spec_endpoint_lines(
    endpoints: Seq<USBEndpoint>,
    blocks: Seq<EndpointBlocks>,
    settings: &PrintSettings,
    prefix: Seq<char>,
    depth: int,
    branch_length: int,
) -> Seq<Seq<char>> {
    let pad = spec_endpoint_pad(endpoints, settings);
    let rows = Seq::new(
        endpoints.len(),
        |i: int|
            spec_endpoint_row(
                endpoints[i],
                blocks,
                pad,
                settings,
                prefix,
                depth,
                branch_length,
                i,
            ),
    );
    if settings.headings && endpoints.len() > 0 {
        seq![spec_endpoint_heading_line(blocks, pad, settings, prefix, depth, branch_length)]
            + rows
    } else {
        rows
    }
}

/// Render every endpoint of an interface, one aligned line each, drawing
/// the tree connectors in tree mode and a fixed indent otherwise.  Without
/// a colour theme the lines are exactly the specified ones; a colour theme
/// wraps parts of each line in colour codes but never changes the line
/// count.
pub fn print_endpoints(
    endpoints: &Vec<USBEndpoint>,
    blocks: &Vec<EndpointBlocks>,
    settings: &PrintSettings,
    tree: &TreeData,
) -> (r: Vec<String>)
    ensures
        r@.len() == spec_endpoint_lines(
            endpoints@,
            blocks@,
            settings,
            tree.prefix@,
            tree.depth as int,
            tree.branch_length as int,
        ).len(),
        settings.colours is None ==> str_views(r@) == spec_endpoint_lines(
            endpoints@,
            blocks@,
            settings,
            tree.prefix@,
            tree.depth as int,
            tree.branch_length as int,
        ),
{
    let ghost all = spec_endpoint_lines(
        endpoints@,
        blocks@,
        settings,
        tree.prefix@,
        tree.depth as int,
        tree.branch_length as int,
    );
    let pad: Vec<(EndpointBlocks, usize)> = if !settings.no_padding {
        let mut refs: Vec<&USBEndpoint> = Vec::new();
        let mut i: usize = 0;
        while i < endpoints.len()
            invariant
                i <= endpoints.len(),
                refs@.len() == i as int,
                forall|j: int| 0 <= j < i ==> refs@[j] == &endpoints@[j],
            decreases endpoints.len() - i,
        {
            refs.push(&endpoints[i]);
            i = i + 1;
        }
        proof {
            assert(derefs(refs@) =~= endpoints@);
        }
        EndpointBlocks::generate_padding(&refs)
    } else {
        Vec::new()
    };
    proof {
        assert(pad@ == spec_endpoint_pad(endpoints@, settings));
    }
    let mut lines: Vec<String> = Vec::new();
    let ghost hdr: int = if settings.headings {
        1int
    } else {
        0int
    };
    let mut i: usize = 0;
    while i < endpoints.len()
        invariant
            i <= endpoints.len(),
            pad@ == spec_endpoint_pad(endpoints@, settings),
            all == spec_endpoint_lines(
                endpoints@,
                blocks@,
                settings,
                tree.prefix@,
                tree.depth as int,
                tree.branch_length as int,
            ),
            hdr == if settings.headings {
                1int
            } else {
                0int
            },
            lines@.len() == if i > 0 {
                hdr + i
            } else {
                0int
            },
            settings.colours is None ==> str_views(lines@) =~= all.take(lines@.len() as int),
        decreases endpoints.len() - i,
    {
        let endpoint = &endpoints[i];
        if settings.tree {
            let prefix_plain = if tree.depth > 0 {
                let edge_icon = connector_icon(i, tree.branch_length);
                let glyph = tree_icon(settings, &edge_icon);
                let mut p = tree.prefix.clone();
                p.append(glyph.as_str());
                p
            } else {
                tree.prefix.clone()
            };
            let terminator_plain = tree_icon(settings, &Icon::Endpoint(endpoint.address.direction));
            let (prefix, terminator) = match settings.colours.as_ref() {
                Some(ct) => (
                    apply_colour(prefix_plain.as_str(), &ct.tree),
                    if endpoint.address.direction == Direction::In {
                        apply_colour(terminator_plain.as_str(), &ct.tree_endpoint_in)
                    } else {
                        apply_colour(terminator_plain.as_str(), &ct.tree_endpoint_out)
                    },
                ),
                None => (prefix_plain, terminator_plain),
            };
            if settings.headings && i == 0 {
                let cells = render_heading(blocks, &pad);
                let joined = join_with(&cells, " ");
                let styled = match settings.colours.as_ref() {
                    Some(c) => bold_underline(joined.as_str()),
                    None => joined,
                };
                let mut line = prefix.clone();
                line.append("  ");
                line.append(styled.as_str());
                lines.push(line);
            }
            let cells = render_value(endpoint, blocks, &pad, settings);
            let joined = join_with(&cells, " ");
            let mut line = prefix;
            line.append(terminator.as_str());
            line.append(" ");
            line.append(joined.as_str());
            lines.push(line);
        } else {
            if settings.headings && i == 0 {
                let cells = render_heading(blocks, &pad);
                let joined = join_with(&cells, " ");
                let styled = match settings.colours.as_ref() {
                    Some(c) => bold_underline(joined.as_str()),
                    None => joined,
                };
                let mut line = crate::text::repeat(' ', 6);
                line.append(styled.as_str());
                lines.push(line);
            }
            let cells = render_value(endpoint, blocks, &pad, settings);
            let joined = join_with(&cells, " ");
            let mut line = crate::text::repeat(' ', 6);
            line.append(joined.as_str());
            lines.push(line);
        }
        proof {
            if settings.colours is None {
                assert(str_views(lines@) =~= all.take(lines@.len() as int));
            }
        }
        i = i + 1;
    }
    proof {
        if settings.colours is None {
            assert(str_views(lines@) =~= all);
        }
    }
    lines
}

/// The padding table used for a batch of interfaces, empty when padding is
/// off.
pub open spec fn spec_interface_pad(
    interfaces: Seq<USBInterface>,
    settings: &PrintSettings,
) -> Seq<(InterfaceBlocks, usize)> {
    if settings.no_padding {
        Seq::empty()
    } else {
        spec_interface_padding_table(interfaces)
    }
}

/// One interface's own output line.
pub open spec fn spec_interface_row(
    f: USBInterface,
    iblocks: Seq<InterfaceBlocks>,
    pad: Seq<(InterfaceBlocks, usize)>,
    settings: &PrintSettings,
    prefix: Seq<char>,
    depth: int,
    branch_length: int,
    i: int,
) -> Seq<char> {
    if settings.tree {
        spec_elem_prefix(prefix, depth, branch_length, i, settings) + spec_tree_icon(
            settings,
            Icon::TreeInterfaceTerminator,
        ) + " "@ + spec_join(spec_rendered_cells(&f, iblocks, pad, settings), " "@)
    } else {
        spec_repeat(' ', 4) + spec_join(spec_rendered_cells(&f, iblocks, pad, settings), " "@)
    }
}

/// The heading line of an interface batch.
pub open spec fn spec_interface_heading_line(
    iblocks: Seq<InterfaceBlocks>,
    pad: Seq<(InterfaceBlocks, usize)>,
    settings: &PrintSettings,
    prefix: Seq<char>,
    depth: int,
    branch_length: int,
) -> Seq<char> {
    if settings.tree {
        spec_elem_prefix(prefix, depth, branch_length, 0, settings) + "  "@ + spec_join(
            spec_heading_cells::<InterfaceBlocks, USBInterface, InterfaceBlocks>(iblocks, pad),
            " "@,
        )
    } else {
        spec_repeat(' ', 4) + spec_join(
            spec_heading_cells::<InterfaceBlocks, USBInterface, InterfaceBlocks>(iblocks, pad),
            " "@,
        )
    }
}

/// The lines printed for the interfaces from index `i` on: each one's own
/// line, followed at verbosity three and above by its endpoints' lines.
pub open spec fn spec_interface_lines_from(
    interfaces: Seq<USBInterface>,
    i: int,
    pad: Seq<(InterfaceBlocks, usize)>,
    iblocks: Seq<InterfaceBlocks>,
    eblocks: Seq<EndpointBlocks>,
    settings: &PrintSettings,
    prefix: Seq<char>,
    depth: int,
    branch_length: int,
) -> Seq<Seq<char>>
    decreases 0int, interfaces, 0int, interfaces.len() - i,
{
    if i < 0 || i >= interfaces.len() {
        Seq::empty()
    } else {
        seq![
            spec_interface_row(
                interfaces[i],
                iblocks,
                pad,
                settings,
                prefix,
                depth,
                branch_length,
                i,
            ),
        ] + (if settings.verbosity >= 3 {
            spec_endpoint_lines(
                interfaces[i].endpoints@,
                eblocks,
                settings,
                spec_child_prefix(prefix, depth, branch_length, i, settings),
                depth + 1,
                interfaces[i].endpoints@.len() as int,
            )
        } else {
            Seq::empty()
        }) + spec_interface_lines_from(
            interfaces,
            i + 1,
            pad,
            iblocks,
            eblocks,
            settings,
            prefix,
            depth,
            branch_length,
        )
    }
}

/// The lines printed for a batch of interfaces: an optional heading, then
/// each interface with its endpoints.
pub open spec fn spec_interface_lines(
    interfaces: Seq<USBInterface>,
    iblocks: Seq<InterfaceBlocks>,
    eblocks: Seq<EndpointBlocks>,
    settings: &PrintSettings,
    prefix: Seq<char>,
    depth: int,
    branch_length: int,
) -> Seq<Seq<char>>
    decreases 0int, interfaces, 1int, 0int,
{
    let pad = spec_interface_pad(interfaces, settings);
    let rest = spec_interface_lines_from(
        interfaces,
        0,
        pad,
        iblocks,
        eblocks,
        settings,
        prefix,
        depth,
        branch_length,
    );
    if settings.headings && interfaces.len() > 0 {
        seq![spec_interface_heading_line(iblocks, pad, settings, prefix, depth, branch_length)]
            + rest
    } else {
        rest
    }
}

/// Render every interface of a configuration, each followed by its
/// endpoints when verbosity asks for them.
#[verifier::rlimit(80)]
#[verifier::spinoff_prover]
pub fn print_interfaces(
    interfaces: &Vec<USBInterface>,
    blocks: (&Vec<InterfaceBlocks>, &Vec<EndpointBlocks>),
    settings: &PrintSettings,
    tree: &TreeData,
) -> (r: Vec<String>)
    requires
        tree.depth < usize::MAX,
    ensures
        r@.len() == spec_interface_lines(
            interfaces@,
            blocks.0@,
            blocks.1@,
            settings,
            tree.prefix@,
            tree.depth as int,
            tree.branch_length as int,
        ).len(),
        settings.colours is None ==> str_views(r@) == spec_interface_lines(
            interfaces@,
            blocks.0@,
            blocks.1@,
            settings,
            tree.prefix@,
            tree.depth as int,
            tree.branch_length as int,
        ),
{
    let ghost all = spec_interface_lines(
        interfaces@,
        blocks.0@,
        blocks.1@,
        settings,
        tree.prefix@,
        tree.depth as int,
        tree.branch_length as int,
    );
    let pad: Vec<(InterfaceBlocks, usize)> = if !settings.no_padding {
        let mut refs: Vec<&USBInterface> = Vec::new();
        let mut i: usize = 0;
        while i < interfaces.len()
            invariant
                i <= interfaces.len(),
                refs@.len() == i as int,
                forall|j: int| 0 <= j < i ==> refs@[j] == &interfaces@[j],
            decreases interfaces.len() - i,
        {
            refs.push(&interfaces[i]);
            i = i + 1;
        }
        proof {
            assert(derefs(refs@) =~= interfaces@);
        }
        InterfaceBlocks::generate_padding(&refs)
    } else {
        Vec::new()
    };
    proof {
        assert(pad@ == spec_interface_pad(interfaces@, settings));
    }
    let mut lines: Vec<String> = Vec::new();
    let mut i: usize = 0;
    while i < interfaces.len()
        invariant
            i <= interfaces.len(),
            tree.depth < usize::MAX,
            pad@ == spec_interface_pad(interfaces@, settings),
            all == spec_interface_lines(
                interfaces@,
                blocks.0@,
                blocks.1@,
                settings,
                tree.prefix@,
                tree.depth as int,
                tree.branch_length as int,
            ),
            i == 0 ==> lines@.len() == 0,
            i > 0 ==> all.len() == lines@.len() + spec_interface_lines_from(
                interfaces@,
                i as int,
                pad@,
                blocks.0@,
                blocks.1@,
                settings,
                tree.prefix@,
                tree.depth as int,
                tree.branch_length as int,
            ).len(),
            i > 0 && settings.colours is None ==> all =~= str_views(lines@)
                + spec_interface_lines_from(
                interfaces@,
                i as int,
                pad@,
                blocks.0@,
                blocks.1@,
                settings,
                tree.prefix@,
                tree.depth as int,
                tree.branch_length as int,
            ),
        decreases interfaces.len() - i,
    {
        let interface = &interfaces[i];
        if settings.tree {
            let prefix_plain = if tree.depth > 0 {
                let edge_icon = connector_icon(i, tree.branch_length);
                let glyph = tree_icon(settings, &edge_icon);
                let mut p = tree.prefix.clone();
                p.append(glyph.as_str());
                p
            } else {
                tree.prefix.clone()
            };
            let terminator_plain = tree_icon(settings, &Icon::TreeInterfaceTerminator);
            let (prefix, terminator) = match settings.colours.as_ref() {
                Some(ct) => (
                    apply_colour(prefix_plain.as_str(), &ct.tree),
                    apply_colour(terminator_plain.as_str(), &ct.tree_interface_terminator),
                ),
                None => (prefix_plain, terminator_plain),
            };
            if settings.headings && i == 0 {
                let cells = render_heading(blocks.0, &pad);
                let joined = join_with(&cells, " ");
                let styled = match settings.colours.as_ref() {
                    Some(c) => bold_underline(joined.as_str()),
                    None => joined,
                };
                let mut line = prefix.clone();
                line.append("  ");
                line.append(styled.as_str());
                lines.push(line);
            }
            let cells = render_value(interface, blocks.0, &pad, settings);
            let joined = join_with(&cells, " ");
            let mut line = prefix;
            line.append(terminator.as_str());
            line.append(" ");
            line.append(joined.as_str());
            lines.push(line);
        } else {
            if settings.headings && i == 0 {
                let cells = render_heading(blocks.0, &pad);
                let joined = join_with(&cells, " ");
                let styled = match settings.colours.as_ref() {
                    Some(c) => bold_underline(joined.as_str()),
                    None => joined,
                };
                let mut line = crate::text::repeat(' ', 4);
                line.append(styled.as_str());
                lines.push(line);
            }
            let cells = render_value(interface, blocks.0, &pad, settings);
            let joined = join_with(&cells, " ");
            let mut line = crate::text::repeat(' ', 4);
            line.append(joined.as_str());
            lines.push(line);
        }
        if settings.verbosity >= 3 {
            let child = generate_tree_data(tree, interface.endpoints.len(), i, settings);
            let mut ep_lines = print_endpoints(&interface.endpoints, blocks.1, settings, &child);
            let ghost ep0 = ep_lines@;
            lines.append(&mut ep_lines);
            proof {
                assert(str_views(lines@) =~= str_views(lines@.subrange(
                    0,
                    lines@.len() - ep0.len(),
                )) + str_views(ep0));
            }
        }
        i = i + 1;
    }
    proof {
        if i == 0 {
            assert(all =~= Seq::<Seq<char>>::empty());
        }
        if settings.colours is None {
            assert(str_views(lines@) =~= all);
        }
    }
    lines
}

/// The sum of two counts, capped at the largest value a branch length can
/// take.
pub open spec fn spec_add_capped(a: nat, b: nat) -> nat {
    if a + b <= usize::MAX {
        a + b
    } else {
        usize::MAX as nat
    }
}

fn add_capped(a: usize, b: usize) -> (r: usize)
    ensures
        r as nat == spec_add_capped(a as nat, b as nat),
{
    if a > usize::MAX - b {
        usize::MAX
    } else {
        a + b
    }
}

/// Copy a vector of plain values.
fn copy_vec<T: Copy>(v: &Vec<T>) -> (r: Vec<T>)
    ensures
        r@ == v@,
{
    let mut out: Vec<T> = Vec::new();
    let mut i: usize = 0;
    while i < v.len()
        invariant
            i <= v@.len(),
            out@ == v@.take(i as int),
        decreases v@.len() - i,
    {
        out.push(v[i]);
        proof {
            assert(out@ =~= v@.take(i as int + 1));
        }
        i = i + 1;
    }
    proof {
        assert(v@.take(v@.len() as int) =~= v@);
    }
    out
}

/// Whether the verbose column sets are in force.
pub open spec fn spec_verbose_blocks(settings: &PrintSettings) -> bool {
    settings.verbosity >= MAX_VERBOSITY || settings.more
}

/// The configuration column set of this pass: the explicit override, else
/// the default set.
pub open spec fn spec_effective_config_blocks(settings: &PrintSettings) -> Seq<
    ConfigurationBlocks,
> {
    match settings.config_blocks {
        Some(v) => v@,
        None => ConfigurationBlocks::spec_default_blocks(spec_verbose_blocks(settings)),
    }
}

/// The interface column set of this pass.
pub open spec fn spec_effective_interface_blocks(settings: &PrintSettings) -> Seq<
    InterfaceBlocks,
> {
    match settings.interface_blocks {
        Some(v) => v@,
        None => InterfaceBlocks::spec_default_blocks(spec_verbose_blocks(settings)),
    }
}

/// The endpoint column set of this pass.
pub open spec fn spec_effective_endpoint_blocks(settings: &PrintSettings) -> Seq<EndpointBlocks> {
    match settings.endpoint_blocks {
        Some(v) => v@,
        None => EndpointBlocks::spec_default_blocks(spec_verbose_blocks(settings)),
    }
}

fn effective_config_blocks(settings: &PrintSettings) -> (r: Vec<ConfigurationBlocks>)
    ensures
        r@ == spec_effective_config_blocks(settings),
{
    match settings.config_blocks.as_ref() {
        Some(v) => copy_vec(v),
        None => ConfigurationBlocks::default_blocks(
            settings.verbosity >= MAX_VERBOSITY || settings.more,
        ),
    }
}

fn effective_interface_blocks(settings: &PrintSettings) -> (r: Vec<InterfaceBlocks>)
    ensures
        r@ == spec_effective_interface_blocks(settings),
{
    match settings.interface_blocks.as_ref() {
        Some(v) => copy_vec(v),
        None => InterfaceBlocks::default_blocks(
            settings.verbosity >= MAX_VERBOSITY || settings.more,
        ),
    }
}

fn effective_endpoint_blocks(settings: &PrintSettings) -> (r: Vec<EndpointBlocks>)
    ensures
        r@ == spec_effective_endpoint_blocks(settings),
{
    match settings.endpoint_blocks.as_ref() {
        Some(v) => copy_vec(v),
        None => EndpointBlocks::default_blocks(
            settings.verbosity >= MAX_VERBOSITY || settings.more,
        ),
    }
}

/// The padding table used for a batch of configurations, empty when
/// padding is off.
pub open spec fn spec_config_pad(
    configs: Seq<USBConfiguration>,
    settings: &PrintSettings,
) -> Seq<(ConfigurationBlocks, usize)> {
    if settings.no_padding {
        Seq::empty()
    } else {
        spec_config_padding_table(configs)
    }
}

/// One configuration's own output line.
pub open spec fn spec_config_row(
    c: USBConfiguration,
    cblocks: Seq<ConfigurationBlocks>,
    pad: Seq<(ConfigurationBlocks, usize)>,
    settings: &PrintSettings,
    prefix: Seq<char>,
    depth: int,
    branch_length: int,
    i: int,
) -> Seq<char> {
    if settings.tree {
        spec_elem_prefix(prefix, depth, branch_length, i, settings) + spec_tree_icon(
            settings,
            Icon::TreeConfigurationTerminator,
        ) + " "@ + spec_join(spec_rendered_cells(&c, cblocks, pad, settings), " "@)
    } else {
        spec_repeat(' ', 2) + spec_join(spec_rendered_cells(&c, cblocks, pad, settings), " "@)
    }
}

/// The heading line of a configuration batch.
pub open spec fn spec_config_heading_line(
    cblocks: Seq<ConfigurationBlocks>,
    pad: Seq<(ConfigurationBlocks, usize)>,
    settings: &PrintSettings,
    prefix: Seq<char>,
    depth: int,
    branch_length: int,
) -> Seq<char> {
    if settings.tree {
        spec_elem_prefix(prefix, depth, branch_length, 0, settings) + "  "@ + spec_join(
            spec_heading_cells::<ConfigurationBlocks, USBConfiguration, ConfigurationBlocks>(
                cblocks,
                pad,
            ),
            " "@,
        )
    } else {
        spec_repeat(' ', 2) + spec_join(
            spec_heading_cells::<ConfigurationBlocks, USBConfiguration, ConfigurationBlocks>(
                cblocks,
                pad,
            ),
            " "@,
        )
    }
}

/// The lines printed for the configurations from index `i` on: each one's
/// own line, followed at verbosity two and above by its interfaces' lines.
pub open spec fn spec_config_lines_from(
    configs: Seq<USBConfiguration>,
    i: int,
    pad: Seq<(ConfigurationBlocks, usize)>,
    cblocks: Seq<ConfigurationBlocks>,
    iblocks: Seq<InterfaceBlocks>,
    eblocks: Seq<EndpointBlocks>,
    settings: &PrintSettings,
    prefix: Seq<char>,
    depth: int,
    branch_length: int,
) -> Seq<Seq<char>>
    decreases 0int, configs, 0int, configs.len() - i,
{
    if i < 0 || i >= configs.len() {
        Seq::empty()
    } else {
        seq![
            spec_config_row(configs[i], cblocks, pad, settings, prefix, depth, branch_length, i),
        ] + (if settings.verbosity >= 2 {
            spec_interface_lines(
                configs[i].interfaces@,
                iblocks,
                eblocks,
                settings,
                spec_child_prefix(prefix, depth, branch_length, i, settings),
                depth + 1,
                configs[i].interfaces@.len() as int,
            )
        } else {
            Seq::empty()
        }) + spec_config_lines_from(
            configs,
            i + 1,
            pad,
            cblocks,
            iblocks,
            eblocks,
            settings,
            prefix,
            depth,
            branch_length,
        )
    }
}

/// The lines printed for a batch of configurations: an optional heading,
/// then each configuration with its interfaces and endpoints.
pub open spec fn spec_config_lines(
    configs: Seq<USBConfiguration>,
    cblocks: Seq<ConfigurationBlocks>,
    iblocks: Seq<InterfaceBlocks>,
    eblocks: Seq<EndpointBlocks>,
    settings: &PrintSettings,
    prefix: Seq<char>,
    depth: int,
    branch_length: int,
) -> Seq<Seq<char>>
    decreases 0int, configs, 1int, 0int,
{
    let pad = spec_config_pad(configs, settings);
    let rest = spec_config_lines_from(
        configs,
        0,
        pad,
        cblocks,
        iblocks,
        eblocks,
        settings,
        prefix,
        depth,
        branch_length,
    );
    if settings.headings && configs.len() > 0 {
        seq![spec_config_heading_line(cblocks, pad, settings, prefix, depth, branch_length)]
            + rest
    } else {
        rest
    }
}

/// Render every configuration of a device, each followed by its interfaces
/// and endpoints when verbosity asks for them.
#[verifier::rlimit(80)]
#[verifier::spinoff_prover]
pub fn print_configurations(
    configs: &Vec<USBConfiguration>,
    blocks: (&Vec<ConfigurationBlocks>, &Vec<InterfaceBlocks>, &Vec<EndpointBlocks>),
    settings: &PrintSettings,
    tree: &TreeData,
) -> (r: Vec<String>)
    requires
        tree.depth as int + 1 < usize::MAX,
    ensures
        r@.len() == spec_config_lines(
            configs@,
            blocks.0@,
            blocks.1@,
            blocks.2@,
            settings,
            tree.prefix@,
            tree.depth as int,
            tree.branch_length as int,
        ).len(),
        settings.colours is None ==> str_views(r@) == spec_config_lines(
            configs@,
            blocks.0@,
            blocks.1@,
            blocks.2@,
            settings,
            tree.prefix@,
            tree.depth as int,
            tree.branch_length as int,
        ),
{
    let ghost all = spec_config_lines(
        configs@,
        blocks.0@,
        blocks.1@,
        blocks.2@,
        settings,
        tree.prefix@,
        tree.depth as int,
        tree.branch_length as int,
    );
    let pad: Vec<(ConfigurationBlocks, usize)> = if !settings.no_padding {
        let mut refs: Vec<&USBConfiguration> = Vec::new();
        let mut i: usize = 0;
        while i < configs.len()
            invariant
                i <= configs.len(),
                refs@.len() == i as int,
                forall|j: int| 0 <= j < i ==> refs@[j] == &configs@[j],
            decreases configs.len() - i,
        {
            refs.push(&configs[i]);
            i = i + 1;
        }
        proof {
            assert(derefs(refs@) =~= configs@);
        }
        ConfigurationBlocks::generate_padding(&refs)
    } else {
        Vec::new()
    };
    proof {
        assert(pad@ == spec_config_pad(configs@, settings));
    }
    let mut lines: Vec<String> = Vec::new();
    let mut i: usize = 0;
    while i < configs.len()
        invariant
            i <= configs.len(),
            tree.depth as int + 1 < usize::MAX,
            pad@ == spec_config_pad(configs@, settings),
            all == spec_config_lines(
                configs@,
                blocks.0@,
                blocks.1@,
                blocks.2@,
                settings,
                tree.prefix@,
                tree.depth as int,
                tree.branch_length as int,
            ),
            i == 0 ==> lines@.len() == 0,
            i > 0 ==> all.len() == lines@.len() + spec_config_lines_from(
                configs@,
                i as int,
                pad@,
                blocks.0@,
                blocks.1@,
                blocks.2@,
                settings,
                tree.prefix@,
                tree.depth as int,
                tree.branch_length as int,
            ).len(),
            i > 0 && settings.colours is None ==> all =~= str_views(lines@)
                + spec_config_lines_from(
                configs@,
                i as int,
                pad@,
                blocks.0@,
                blocks.1@,
                blocks.2@,
                settings,
                tree.prefix@,
                tree.depth as int,
                tree.branch_length as int,
            ),
        decreases configs.len() - i,
    {
        let config = &configs[i];
        if settings.tree {
            let prefix_plain = if tree.depth > 0 {
                let edge_icon = connector_icon(i, tree.branch_length);
                let glyph = tree_icon(settings, &edge_icon);
                let mut p = tree.prefix.clone();
                p.append(glyph.as_str());
                p
            } else {
                tree.prefix.clone()
            };
            let terminator_plain = tree_icon(settings, &Icon::TreeConfigurationTerminator);
            let (prefix, terminator) = match settings.colours.as_ref() {
                Some(ct) => (
                    apply_colour(prefix_plain.as_str(), &ct.tree),
                    apply_colour(terminator_plain.as_str(), &ct.tree_configuration_terminator),
                ),
                None => (prefix_plain, terminator_plain),
            };
            if settings.headings && i == 0 {
                let cells = render_heading(blocks.0, &pad);
                let joined = join_with(&cells, " ");
                let styled = match settings.colours.as_ref() {
                    Some(c) => bold_underline(joined.as_str()),
                    None => joined,
                };
                let mut line = prefix.clone();
                line.append("  ");
                line.append(styled.as_str());
                lines.push(line);
            }
            let cells = render_value(config, blocks.0, &pad, settings);
            let joined = join_with(&cells, " ");
            let mut line = prefix;
            line.append(terminator.as_str());
            line.append(" ");
            line.append(joined.as_str());
            lines.push(line);
        } else {
            if settings.headings && i == 0 {
                let cells = render_heading(blocks.0, &pad);
                let joined = join_with(&cells, " ");
                let styled = match settings.colours.as_ref() {
                    Some(c) => bold_underline(joined.as_str()),
                    None => joined,
                };
                let mut line = crate::text::repeat(' ', 2);
                line.append(styled.as_str());
                lines.push(line);
            }
            let cells = render_value(config, blocks.0, &pad, settings);
            let joined = join_with(&cells, " ");
            let mut line = crate::text::repeat(' ', 2);
            line.append(joined.as_str());
            lines.push(line);
        }
        if settings.verbosity >= 2 {
            let child = generate_tree_data(tree, config.interfaces.len(), i, settings);
            let mut if_lines = print_interfaces(
                &config.interfaces,
                (blocks.1, blocks.2),
                settings,
                &child,
            );
            let ghost if0 = if_lines@;
            lines.append(&mut if_lines);
            proof {
                assert(str_views(lines@) =~= str_views(lines@.subrange(
                    0,
                    lines@.len() - if0.len(),
                )) + str_views(if0));
            }
        }
        i = i + 1;
    }
    proof {
        if i == 0 {
            assert(all =~= Seq::<Seq<char>>::empty());
        }
        if settings.colours is None {
            assert(str_views(lines@) =~= all);
        }
    }
    lines
}

/// The padding table used for a batch of devices, empty when padding is
/// off.
pub open spec fn spec_device_pad(devices: Seq<USBDevice>, settings: &PrintSettings) -> Seq<
    (DeviceBlocks, usize),
> {
    if settings.no_padding {
        Seq::empty()
    } else {
        spec_device_padding_table(devices)
    }
}

/// One device's own output line.
pub open spec fn spec_device_row(
    d: USBDevice,
    db: Seq<DeviceBlocks>,
    pad: Seq<(DeviceBlocks, usize)>,
    settings: &PrintSettings,
    prefix: Seq<char>,
    depth: int,
    branch_length: int,
    i: int,
) -> Seq<char> {
    if settings.tree {
        spec_elem_prefix(prefix, depth, branch_length, i, settings) + spec_tree_icon(
            settings,
            Icon::TreeDeviceTerminator,
        ) + " "@ + spec_join(spec_rendered_cells(&d, db, pad, settings), " "@)
    } else {
        spec_join(spec_rendered_cells(&d, db, pad, settings), " "@)
    }
}

/// The heading line of a device batch.
pub open spec fn spec_device_heading_line(
    db: Seq<DeviceBlocks>,
    pad: Seq<(DeviceBlocks, usize)>,
    settings: &PrintSettings,
    prefix: Seq<char>,
    depth: int,
    branch_length: int,
) -> Seq<char> {
    if settings.tree {
        spec_elem_prefix(prefix, depth, branch_length, 0, settings) + "  "@ + spec_join(
            spec_heading_cells::<DeviceBlocks, USBDevice, DeviceBlocks>(db, pad),
            " "@,
        )
    } else {
        spec_join(spec_heading_cells::<DeviceBlocks, USBDevice, DeviceBlocks>(db, pad), " "@)
    }
}

/// The lines printed for the already-ordered devices from index `i` on:
/// each one's own line, at verbosity one and above its configurations'
/// lines, then the lines of its own child devices, continuing the same
/// draw-state thread.
pub open spec fn spec_device_lines_from(
    sorted: Seq<USBDevice>,
    i: int,
    pad: Seq<(DeviceBlocks, usize)>,
    db: Seq<DeviceBlocks>,
    settings: &PrintSettings,
    prefix: Seq<char>,
    depth: int,
    branch_length: int,
) -> Seq<Seq<char>>
    decreases spec_forest_height(sorted), 0int, sorted.len() - i,
    via spec_device_lines_from_dec
{
    if i < 0 || i >= sorted.len() {
        Seq::empty()
    } else {
        seq![spec_device_row(sorted[i], db, pad, settings, prefix, depth, branch_length, i)] + (
        if settings.verbosity >= 1 && sorted[i].extra is Some {
            spec_config_lines(
                sorted[i].extra->Some_0.configurations@,
                spec_effective_config_blocks(settings),
                spec_effective_interface_blocks(settings),
                spec_effective_endpoint_blocks(settings),
                settings,
                spec_child_prefix(prefix, depth, branch_length, i, settings),
                depth + 1,
                spec_add_capped(
                    sorted[i].extra->Some_0.configurations@.len(),
                    spec_children(sorted[i]).len(),
                ) as int,
            )
        } else {
            Seq::empty()
        }) + (if sorted[i].devices is Some {
            spec_device_lines(
                sorted[i].devices->Some_0@,
                db,
                settings,
                spec_child_prefix(prefix, depth, branch_length, i, settings),
                depth + 1,
                sorted[i].devices->Some_0@.len() as int,
            )
        } else {
            Seq::empty()
        }) + spec_device_lines_from(sorted, i + 1, pad, db, settings, prefix, depth, branch_length)
    }
}

#[via_fn]
proof fn spec_device_lines_from_dec(
    sorted: Seq<USBDevice>,
    i: int,
    pad: Seq<(DeviceBlocks, usize)>,
    db: Seq<DeviceBlocks>,
    settings: &PrintSettings,
    prefix: Seq<char>,
    depth: int,
    branch_length: int,
) {
    if 0 <= i < sorted.len() {
        lemma_forest_height_elem(sorted, i);
        assert(spec_dev_height(sorted[i]) >= 1);
        if sorted[i].devices is Some {
            assert(spec_forest_height(sorted[i].devices->Some_0@) < spec_dev_height(sorted[i]));
        }
    }
}

/// The lines printed for a batch of devices: the batch in display order,
/// an optional heading, then each device with its configurations and its
/// child devices.
pub open spec fn spec_device_lines(
    devices: Seq<USBDevice>,
    db: Seq<DeviceBlocks>,
    settings: &PrintSettings,
    prefix: Seq<char>,
    depth: int,
    branch_length: int,
) -> Seq<Seq<char>>
    decreases spec_forest_height(devices), 1int, 0int,
    via spec_device_lines_dec
{
    let pad = spec_device_pad(devices, settings);
    let sorted = spec_sort_devices(settings.sort_devices, devices);
    let rest = spec_device_lines_from(sorted, 0, pad, db, settings, prefix, depth, branch_length);
    if settings.headings && sorted.len() > 0 {
        seq![spec_device_heading_line(db, pad, settings, prefix, depth, branch_length)] + rest
    } else {
        rest
    }
}

#[via_fn]
proof fn spec_device_lines_dec(
    devices: Seq<USBDevice>,
    db: Seq<DeviceBlocks>,
    settings: &PrintSettings,
    prefix: Seq<char>,
    depth: int,
    branch_length: int,
) {
    lemma_sort_devices_height(settings.sort_devices, devices);
}

/// Render a batch of sibling devices in display order, each followed by
/// its configurations when verbosity asks for them and then by its own
/// child devices, drawing the tree connectors in tree mode.
#[verifier::rlimit(100)]
#[verifier::spinoff_prover]
pub fn print_devices(
    devices: &Vec<USBDevice>,
    db: &Vec<DeviceBlocks>,
    settings: &PrintSettings,
    tree: &TreeData,
) -> (r: Vec<String>)
    requires
        tree.depth as int + spec_forest_height(devices@) + 2 < usize::MAX,
    ensures
        r@.len() == spec_device_lines(
            devices@,
            db@,
            settings,
            tree.prefix@,
            tree.depth as int,
            tree.branch_length as int,
        ).len(),
        settings.colours is None ==> str_views(r@) == spec_device_lines(
            devices@,
            db@,
            settings,
            tree.prefix@,
            tree.depth as int,
            tree.branch_length as int,
        ),
    decreases spec_forest_height(devices@),
{
    let ghost all = spec_device_lines(
        devices@,
        db@,
        settings,
        tree.prefix@,
        tree.depth as int,
        tree.branch_length as int,
    );
    let mut refs: Vec<&USBDevice> = Vec::new();
    let mut k: usize = 0;
    while k < devices.len()
        invariant
            k <= devices.len(),
            refs@.len() == k as int,
            forall|j: int| 0 <= j < k ==> refs@[j] == &devices@[j],
        decreases devices.len() - k,
    {
        refs.push(&devices[k]);
        k = k + 1;
    }
    proof {
        assert(derefs(refs@) =~= devices@);
    }
    let pad: Vec<(DeviceBlocks, usize)> = if !settings.no_padding {
        DeviceBlocks::generate_padding(&refs)
    } else {
        Vec::new()
    };
    proof {
        assert(pad@ == spec_device_pad(devices@, settings));
    }
    let sorted = settings.sort_devices.sort_devices_ref(&refs);
    let ghost ssorted = spec_sort_devices(settings.sort_devices, devices@);
    proof {
        assert(derefs(sorted@) == ssorted);
        lemma_sort_devices_height(settings.sort_devices, devices@);
        lemma_sort_devices_len(settings.sort_devices, devices@);
    }
    let mut lines: Vec<String> = Vec::new();
    let mut i: usize = 0;
    while i < sorted.len()
        invariant
            i <= sorted.len(),
            tree.depth as int + spec_forest_height(devices@) + 2 < usize::MAX,
            derefs(sorted@) == ssorted,
            ssorted == spec_sort_devices(settings.sort_devices, devices@),
            ssorted.len() == sorted@.len(),
            spec_forest_height(ssorted) == spec_forest_height(devices@),
            pad@ == spec_device_pad(devices@, settings),
            all == spec_device_lines(
                devices@,
                db@,
                settings,
                tree.prefix@,
                tree.depth as int,
                tree.branch_length as int,
            ),
            i == 0 ==> lines@.len() == 0,
            i > 0 ==> all.len() == lines@.len() + spec_device_lines_from(
                ssorted,
                i as int,
                pad@,
                db@,
                settings,
                tree.prefix@,
                tree.depth as int,
                tree.branch_length as int,
            ).len(),
            i > 0 && settings.colours is None ==> all =~= str_views(lines@)
                + spec_device_lines_from(
                ssorted,
                i as int,
                pad@,
                db@,
                settings,
                tree.prefix@,
                tree.depth as int,
                tree.branch_length as int,
            ),
        decreases sorted@.len() - i,
    {
        let device: &USBDevice = sorted[i];
        proof {
            assert(ssorted[i as int] == *sorted@[i as int]);
        }
        if settings.tree {
            let prefix_plain = if tree.depth > 0 {
                let edge_icon = connector_icon(i, tree.branch_length);
                let glyph = tree_icon(settings, &edge_icon);
                let mut p = tree.prefix.clone();
                p.append(glyph.as_str());
                p
            } else {
                tree.prefix.clone()
            };
            let terminator_plain = tree_icon(settings, &Icon::TreeDeviceTerminator);
            let (prefix, terminator) = match settings.colours.as_ref() {
                Some(ct) => (
                    apply_colour(prefix_plain.as_str(), &ct.tree),
                    apply_colour(terminator_plain.as_str(), &ct.tree_bus_terminator),
                ),
                None => (prefix_plain, terminator_plain),
            };
            if settings.headings && i == 0 {
                let cells = render_heading(db, &pad);
                let joined = join_with(&cells, " ");
                let styled = match settings.colours.as_ref() {
                    Some(c) => bold_underline(joined.as_str()),
                    None => joined,
                };
                let mut line = prefix.clone();
                line.append("  ");
                line.append(styled.as_str());
                lines.push(line);
            }
            let cells = render_value(device, db, &pad, settings);
            let joined = join_with(&cells, " ");
            let mut line = prefix;
            line.append(terminator.as_str());
            line.append(" ");
            line.append(joined.as_str());
            lines.push(line);
        } else {
            if settings.headings && i == 0 {
                let cells = render_heading(db, &pad);
                let joined = join_with(&cells, " ");
                let styled = match settings.colours.as_ref() {
                    Some(c) => bold_underline(joined.as_str()),
                    None => joined,
                };
                lines.push(styled);
            }
            let cells = render_value(device, db, &pad, settings);
            let joined = join_with(&cells, " ");
            lines.push(joined);
        }
        if settings.verbosity >= 1 {
            match device.extra.as_ref() {
                Some(extra) => {
                    let cb = effective_config_blocks(settings);
                    let ib = effective_interface_blocks(settings);
                    let eb = effective_endpoint_blocks(settings);
                    let children_len = match device.devices.as_ref() {
                        Some(ds) => ds.len(),
                        None => 0,
                    };
                    let bl_child = add_capped(extra.configurations.len(), children_len);
                    let child = generate_tree_data(tree, bl_child, i, settings);
                    let mut c_lines = print_configurations(
                        &extra.configurations,
                        (&cb, &ib, &eb),
                        settings,
                        &child,
                    );
                    let ghost c0 = c_lines@;
                    lines.append(&mut c_lines);
                    proof {
                        assert(str_views(lines@) =~= str_views(lines@.subrange(
                            0,
                            lines@.len() - c0.len(),
                        )) + str_views(c0));
                    }
                },
                None => {},
            }
        }
        match device.devices.as_ref() {
            Some(ds) => {
                proof {
                    lemma_forest_height_elem(ssorted, i as int);
                    assert(spec_forest_height(ds@) < spec_dev_height(ssorted[i as int]));
                }
                let child = generate_tree_data(tree, ds.len(), i, settings);
                let mut d_lines = print_devices(ds, db, settings, &child);
                let ghost d0 = d_lines@;
                lines.append(&mut d_lines);
                proof {
                    assert(str_views(lines@) =~= str_views(lines@.subrange(
                        0,
                        lines@.len() - d0.len(),
                    )) + str_views(d0));
                }
            },
            None => {},
        }
        i = i + 1;
    }
    proof {
        if i == 0 {
            assert(all =~= Seq::<Seq<char>>::empty());
        }
        if settings.colours is None {
            assert(str_views(lines@) =~= all);
        }
    }
    lines
}

/// One more than the tallest device forest under any bus, zero without
/// devices anywhere.
pub open spec fn spec_buses_height(bs: Seq<USBBus>) -> nat
    decreases bs, bs.len(),
{
    if bs.len() == 0 {
        0
    } else {
        let h0 = match bs[0].devices {
            Some(ds) => spec_forest_height(ds@) + 1,
            None => 0nat,
        };
        if h0 >= spec_buses_height(bs.drop_first()) {
            h0
        } else {
            spec_buses_height(bs.drop_first())
        }
    }
}

proof fn lemma_buses_height_elem(bs: Seq<USBBus>, i: int)
    requires
        0 <= i < bs.len(),
    ensures
        bs[i].devices is Some ==> spec_forest_height(bs[i].devices->Some_0@) + 1
            <= spec_buses_height(bs),
    decreases bs.len(),
{
    if i > 0 {
        lemma_buses_height_elem(bs.drop_first(), i - 1);
        assert(bs.drop_first()[i - 1] == bs[i]);
    }
}

/// The bus column set of this pass.
pub open spec fn spec_effective_bus_blocks(settings: &PrintSettings) -> Seq<BusBlocks> {
    match settings.bus_blocks {
        Some(v) => v@,
        None => BusBlocks::spec_default_blocks(spec_verbose_blocks(settings)),
    }
}

fn effective_bus_blocks(settings: &PrintSettings) -> (r: Vec<BusBlocks>)
    ensures
        r@ == spec_effective_bus_blocks(settings),
{
    match settings.bus_blocks.as_ref() {
        Some(v) => copy_vec(v),
        None => BusBlocks::default_blocks(settings.verbosity >= MAX_VERBOSITY || settings.more),
    }
}

/// The device column set of the flat list.
pub open spec fn spec_effective_flat_device_blocks(settings: &PrintSettings) -> Seq<
    DeviceBlocks,
> {
    match settings.device_blocks {
        Some(v) => v@,
        None => DeviceBlocks::spec_default_blocks(spec_verbose_blocks(settings)),
    }
}

fn effective_flat_device_blocks(settings: &PrintSettings) -> (r: Vec<DeviceBlocks>)
    ensures
        r@ == spec_effective_flat_device_blocks(settings),
{
    match settings.device_blocks.as_ref() {
        Some(v) => copy_vec(v),
        None => DeviceBlocks::default_blocks(settings.verbosity >= MAX_VERBOSITY || settings.more),
    }
}

/// The device column set of the full render: the override, else the
/// verbose set, else the narrow tree set in tree mode, else the default.
pub open spec fn spec_effective_tree_device_blocks(settings: &PrintSettings) -> Seq<
    DeviceBlocks,
> {
    match settings.device_blocks {
        Some(v) => v@,
        None => if spec_verbose_blocks(settings) {
            DeviceBlocks::spec_default_blocks(true)
        } else if settings.tree {
            spec_device_tree_blocks()
        } else {
            DeviceBlocks::spec_default_blocks(false)
        },
    }
}

fn effective_tree_device_blocks(settings: &PrintSettings) -> (r: Vec<DeviceBlocks>)
    ensures
        r@ == spec_effective_tree_device_blocks(settings),
{
    match settings.device_blocks.as_ref() {
        Some(v) => copy_vec(v),
        None => {
            if settings.verbosity >= MAX_VERBOSITY || settings.more {
                DeviceBlocks::default_blocks(true)
            } else if settings.tree {
                DeviceBlocks::default_device_tree_blocks()
            } else {
                DeviceBlocks::default_blocks(false)
            }
        },
    }
}

/// The padding table used for a batch of buses, empty when padding is off.
pub open spec fn spec_bus_pad(buses: Seq<USBBus>, settings: &PrintSettings) -> Seq<
    (BusBlocks, usize),
> {
    if settings.no_padding {
        Seq::empty()
    } else {
        spec_bus_padding_table(buses)
    }
}

/// One bus's own output line.
pub open spec fn spec_bus_row(
    b: USBBus,
    bb: Seq<BusBlocks>,
    pad: Seq<(BusBlocks, usize)>,
    settings: &PrintSettings,
) -> Seq<char> {
    if settings.tree {
        spec_tree_icon(settings, Icon::TreeBusStart) + " "@ + spec_join(
            spec_rendered_cells(&b, bb, pad, settings),
            " "@,
        )
    } else {
        spec_join(spec_rendered_cells(&b, bb, pad, settings), " "@)
    }
}

/// The heading line of a bus batch.
pub open spec fn spec_bus_heading_line(
    bb: Seq<BusBlocks>,
    pad: Seq<(BusBlocks, usize)>,
    settings: &PrintSettings,
) -> Seq<char> {
    if settings.tree {
        spec_repeat(' ', 2) + spec_join(
            spec_heading_cells::<BusBlocks, USBBus, BusBlocks>(bb, pad),
            " "@,
        )
    } else {
        spec_join(spec_heading_cells::<BusBlocks, USBBus, BusBlocks>(bb, pad), " "@)
    }
}

/// The lines printed for the buses from index `i` on: for each bus its
/// optional heading, its own line, its device tree and a closing blank
/// line.
pub open spec fn spec_sp_usb_lines_from(
    buses: Seq<USBBus>,
    i: int,
    pad: Seq<(BusBlocks, usize)>,
    bb: Seq<BusBlocks>,
    db: Seq<DeviceBlocks>,
    settings: &PrintSettings,
) -> Seq<Seq<char>>
    decreases spec_buses_height(buses), 0int, buses.len() - i,
    via spec_sp_usb_lines_from_dec
{
    if i < 0 || i >= buses.len() {
        Seq::empty()
    } else {
        (if settings.headings {
            seq![spec_bus_heading_line(bb, pad, settings)]
        } else {
            Seq::empty()
        }) + seq![spec_bus_row(buses[i], bb, pad, settings)] + (match buses[i].devices {
            Some(ds) => spec_device_lines(
                ds@,
                db,
                settings,
                Seq::empty(),
                1,
                ds@.len() as int,
            ),
            None => Seq::empty(),
        }) + seq![Seq::<char>::empty()] + spec_sp_usb_lines_from(buses, i + 1, pad, bb, db, settings)
    }
}

#[via_fn]
proof fn spec_sp_usb_lines_from_dec(
    buses: Seq<USBBus>,
    i: int,
    pad: Seq<(BusBlocks, usize)>,
    bb: Seq<BusBlocks>,
    db: Seq<DeviceBlocks>,
    settings: &PrintSettings,
) {
    if 0 <= i < buses.len() {
        lemma_buses_height_elem(buses, i);
    }
}

/// The lines of the whole render: every bus in turn, with its heading, its
/// own line, its device tree and a separating blank line.
pub open spec fn spec_sp_usb_lines(
    buses: Seq<USBBus>,
    bb: Seq<BusBlocks>,
    db: Seq<DeviceBlocks>,
    settings: &PrintSettings,
) -> Seq<Seq<char>>
    decreases spec_buses_height(buses), 1int, 0int,
{
    spec_sp_usb_lines_from(buses, 0, spec_bus_pad(buses, settings), bb, db, settings)
}

/// Render the whole system: every bus with its devices below it, as a tree
/// or flat by the settings.
#[verifier::rlimit(100)]
#[verifier::spinoff_prover]
pub fn print_sp_usb(sp_usb: &SPUSBDataType, settings: &PrintSettings) -> (r: Vec<String>)
    requires
        spec_buses_height(sp_usb.buses@) + 3 < usize::MAX,
    ensures
        r@.len() == spec_sp_usb_lines(
            sp_usb.buses@,
            spec_effective_bus_blocks(settings),
            spec_effective_tree_device_blocks(settings),
            settings,
        ).len(),
        settings.colours is None ==> str_views(r@) == spec_sp_usb_lines(
            sp_usb.buses@,
            spec_effective_bus_blocks(settings),
            spec_effective_tree_device_blocks(settings),
            settings,
        ),
{
    let bb = effective_bus_blocks(settings);
    let db = effective_tree_device_blocks(settings);
    let ghost all = spec_sp_usb_lines(sp_usb.buses@, bb@, db@, settings);
    let base_tree = TreeData::default();
    let pad: Vec<(BusBlocks, usize)> = if !settings.no_padding {
        let mut refs: Vec<&USBBus> = Vec::new();
        let mut i: usize = 0;
        while i < sp_usb.buses.len()
            invariant
                i <= sp_usb.buses.len(),
                refs@.len() == i as int,
                forall|j: int| 0 <= j < i ==> refs@[j] == &sp_usb.buses@[j],
            decreases sp_usb.buses.len() - i,
        {
            refs.push(&sp_usb.buses[i]);
            i = i + 1;
        }
        proof {
            assert(derefs(refs@) =~= sp_usb.buses@);
        }
        BusBlocks::generate_padding(&refs)
    } else {
        Vec::new()
    };
    proof {
        assert(pad@ == spec_bus_pad(sp_usb.buses@, settings));
    }
    let mut lines: Vec<String> = Vec::new();
    let mut i: usize = 0;
    while i < sp_usb.buses.len()
        invariant
            i <= sp_usb.buses.len(),
            spec_buses_height(sp_usb.buses@) + 3 < usize::MAX,
            base_tree.depth == 0,
            base_tree.branch_length == 0,
            base_tree.prefix@ == Seq::<char>::empty(),
            pad@ == spec_bus_pad(sp_usb.buses@, settings),
            bb@ == spec_effective_bus_blocks(settings),
            db@ == spec_effective_tree_device_blocks(settings),
            all == spec_sp_usb_lines(sp_usb.buses@, bb@, db@, settings),
            all.len() == lines@.len() + spec_sp_usb_lines_from(
                sp_usb.buses@,
                i as int,
                pad@,
                bb@,
                db@,
                settings,
            ).len(),
            settings.colours is None ==> all =~= str_views(lines@) + spec_sp_usb_lines_from(
                sp_usb.buses@,
                i as int,
                pad@,
                bb@,
                db@,
                settings,
            ),
        decreases sp_usb.buses.len() - i,
    {
        let bus = &sp_usb.buses[i];
        if settings.tree {
            if settings.headings {
                let cells = render_heading(&bb, &pad);
                let joined = join_with(&cells, " ");
                let styled = match settings.colours.as_ref() {
                    Some(c) => bold_underline(joined.as_str()),
                    None => joined,
                };
                let mut line = crate::text::repeat(' ', 2);
                line.append(styled.as_str());
                lines.push(line);
            }
            let start_plain = tree_icon(settings, &Icon::TreeBusStart);
            let (prefix, start) = match settings.colours.as_ref() {
                Some(ct) => (
                    apply_colour("", &ct.tree),
                    apply_colour(start_plain.as_str(), &ct.tree_bus_start),
                ),
                None => (String::new(), start_plain),
            };
            let cells = render_value(bus, &bb, &pad, settings);
            let joined = join_with(&cells, " ");
            let mut line = prefix;
            line.append(start.as_str());
            line.append(" ");
            line.append(joined.as_str());
            lines.push(line);
        } else {
            if settings.headings {
                let cells = render_heading(&bb, &pad);
                let joined = join_with(&cells, " ");
                let styled = match settings.colours.as_ref() {
                    Some(c) => bold_underline(joined.as_str()),
                    None => joined,
                };
                lines.push(styled);
            }
            let cells = render_value(bus, &bb, &pad, settings);
            let joined = join_with(&cells, " ");
            lines.push(joined);
        }
        match bus.devices.as_ref() {
            Some(d) => {
                proof {
                    lemma_buses_height_elem(sp_usb.buses@, i as int);
                }
                let child = generate_tree_data(&base_tree, d.len(), i, settings);
                let mut d_lines = print_devices(d, &db, settings, &child);
                let ghost d0 = d_lines@;
                lines.append(&mut d_lines);
                proof {
                    assert(str_views(lines@) =~= str_views(lines@.subrange(
                        0,
                        lines@.len() - d0.len(),
                    )) + str_views(d0));
                }
            },
            None => {},
        }
        lines.push(String::new());
        i = i + 1;
    }
    proof {
        if settings.colours is None {
            assert(str_views(lines@) =~= all);
        }
    }
    lines
}

/// The lines printed for the already-ordered flat device list from index
/// `i` on: each device's line, then its configurations at verbosity one
/// and above; child devices are not descended into.
pub open spec fn spec_flattened_lines_from(
    sorted: Seq<USBDevice>,
    i: int,
    pad: Seq<(DeviceBlocks, usize)>,
    db: Seq<DeviceBlocks>,
    settings: &PrintSettings,
) -> Seq<Seq<char>>
    decreases 1int, sorted.len() - i,
{
    if i < 0 || i >= sorted.len() {
        Seq::empty()
    } else {
        seq![spec_join(spec_rendered_cells(&sorted[i], db, pad, settings), " "@)] + (
        if settings.verbosity >= 1 && sorted[i].extra is Some {
            spec_config_lines(
                sorted[i].extra->Some_0.configurations@,
                spec_effective_config_blocks(settings),
                spec_effective_interface_blocks(settings),
                spec_effective_endpoint_blocks(settings),
                settings,
                Seq::empty(),
                1,
                spec_add_capped(
                    sorted[i].extra->Some_0.configurations@.len(),
                    spec_children(sorted[i]).len(),
                ) as int,
            )
        } else {
            Seq::empty()
        }) + spec_flattened_lines_from(sorted, i + 1, pad, db, settings)
    }
}

/// The lines of the flat device list: an optional heading, then each
/// device in display order with its configurations.
pub open spec fn spec_flattened_lines(devices: Seq<USBDevice>, settings: &PrintSettings) -> Seq<
    Seq<char>,
>
    decreases 1int, devices.len() + 1,
    via spec_flattened_lines_dec
{
    let db = spec_effective_flat_device_blocks(settings);
    let pad = spec_device_pad(devices, settings);
    let sorted = spec_sort_devices(settings.sort_devices, devices);
    let rest = spec_flattened_lines_from(sorted, 0, pad, db, settings);
    if settings.headings {
        seq![
            spec_join(
                spec_heading_cells::<DeviceBlocks, USBDevice, DeviceBlocks>(db, pad),
                " "@,
            ),
        ] + rest
    } else {
        rest
    }
}

#[via_fn]
proof fn spec_flattened_lines_dec(devices: Seq<USBDevice>, settings: &PrintSettings) {
    lemma_sort_devices_len(settings.sort_devices, devices);
}

/// Render a flat list of devices, in display order, without descending
/// into their child devices.
#[verifier::rlimit(100)]
#[verifier::spinoff_prover]
pub fn print_flattened_devices(devices: &Vec<&USBDevice>, settings: &PrintSettings) -> (r: Vec<
    String,
>)
    ensures
        r@.len() == spec_flattened_lines(derefs(devices@), settings).len(),
        settings.colours is None ==> str_views(r@) == spec_flattened_lines(
            derefs(devices@),
            settings,
        ),
{
    let ghost devs = derefs(devices@);
    let ghost all = spec_flattened_lines(devs, settings);
    let db = effective_flat_device_blocks(settings);
    let pad: Vec<(DeviceBlocks, usize)> = if !settings.no_padding {
        DeviceBlocks::generate_padding(devices)
    } else {
        Vec::new()
    };
    proof {
        assert(pad@ == spec_device_pad(devs, settings));
    }
    let sorted = settings.sort_devices.sort_devices_ref(devices);
    let ghost ssorted = spec_sort_devices(settings.sort_devices, devs);
    proof {
        assert(derefs(sorted@) == ssorted);
        lemma_sort_devices_len(settings.sort_devices, devs);
    }
    let mut lines: Vec<String> = Vec::new();
    if settings.headings {
        let cells = render_heading(&db, &pad);
        let joined = join_with(&cells, " ");
        let styled = match settings.colours.as_ref() {
            Some(c) => bold_underline(joined.as_str()),
            None => joined,
        };
        lines.push(styled);
    }
    let mut i: usize = 0;
    while i < sorted.len()
        invariant
            i <= sorted.len(),
            devs == derefs(devices@),
            derefs(sorted@) == ssorted,
            ssorted == spec_sort_devices(settings.sort_devices, devs),
            ssorted.len() == sorted@.len(),
            pad@ == spec_device_pad(devs, settings),
            db@ == spec_effective_flat_device_blocks(settings),
            all == spec_flattened_lines(devs, settings),
            all.len() == lines@.len() + spec_flattened_lines_from(
                ssorted,
                i as int,
                pad@,
                db@,
                settings,
            ).len(),
            settings.colours is None ==> all =~= str_views(lines@) + spec_flattened_lines_from(
                ssorted,
                i as int,
                pad@,
                db@,
                settings,
            ),
        decreases sorted@.len() - i,
    {
        let device: &USBDevice = sorted[i];
        proof {
            assert(ssorted[i as int] == *sorted@[i as int]);
        }
        let cells = render_value(device, &db, &pad, settings);
        let joined = join_with(&cells, " ");
        lines.push(joined);
        if settings.verbosity >= 1 {
            match device.extra.as_ref() {
                Some(extra) => {
                    let cb = effective_config_blocks(settings);
                    let ib = effective_interface_blocks(settings);
                    let eb = effective_endpoint_blocks(settings);
                    let children_len = match device.devices.as_ref() {
                        Some(ds) => ds.len(),
                        None => 0,
                    };
                    let bl_child = add_capped(extra.configurations.len(), children_len);
                    let base = TreeData::default();
                    let child = generate_tree_data(&base, bl_child, i, settings);
                    let mut c_lines = print_configurations(
                        &extra.configurations,
                        (&cb, &ib, &eb),
                        settings,
                        &child,
                    );
                    let ghost c0 = c_lines@;
                    lines.append(&mut c_lines);
                    proof {
                        assert(str_views(lines@) =~= str_views(lines@.subrange(
                            0,
                            lines@.len() - c0.len(),
                        )) + str_views(c0));
                    }
                },
                None => {},
            }
        }
        i = i + 1;
    }
    proof {
        if settings.colours is None {
            assert(str_views(lines@) =~= all);
        }
    }
    lines
}

/// The buses of a grouped batch.
pub open spec fn grouped_buses(s: Seq<(&USBBus, Vec<&USBDevice>)>) -> Seq<USBBus> {
    s.map_values(|p: (&USBBus, Vec<&USBDevice>)| *p.0)
}

/// The device lists of a grouped batch.
pub open spec fn grouped_devices(s: Seq<(&USBBus, Vec<&USBDevice>)>) -> Seq<Seq<USBDevice>> {
    s.map_values(|p: (&USBBus, Vec<&USBDevice>)| derefs(p.1@))
}

/// The lines printed for the bus groups from index `i` on: each group's
/// optional bus heading, the bus's own line, its flat device list and a
/// separating blank line.
pub open spec fn spec_bus_grouped_lines_from(
    buses: Seq<USBBus>,
    devs: Seq<Seq<USBDevice>>,
    i: int,
    pad: Seq<(BusBlocks, usize)>,
    bb: Seq<BusBlocks>,
    settings: &PrintSettings,
) -> Seq<Seq<char>>
    decreases 2int, buses.len() - i,
{
    if i < 0 || i >= buses.len() || i >= devs.len() {
        Seq::empty()
    } else {
        (if settings.headings {
            seq![spec_join(spec_heading_cells::<BusBlocks, USBBus, BusBlocks>(bb, pad), " "@)]
        } else {
            Seq::empty()
        }) + seq![spec_join(spec_rendered_cells(&buses[i], bb, pad, settings), " "@)]
            + spec_flattened_lines(devs[i], settings) + seq![Seq::<char>::empty()]
            + spec_bus_grouped_lines_from(buses, devs, i + 1, pad, bb, settings)
    }
}

/// The lines of the bus-grouped render: each bus paired with its filtered
/// devices, printed as an independent block.
pub open spec fn spec_bus_grouped_lines(
    buses: Seq<USBBus>,
    devs: Seq<Seq<USBDevice>>,
    settings: &PrintSettings,
) -> Seq<Seq<char>>
    decreases 2int, buses.len() + 1,
{
    spec_bus_grouped_lines_from(buses, devs, 0, spec_bus_pad(buses, settings),
        spec_effective_bus_blocks(settings), settings)
}

/// Render each bus with its already-filtered device list as an independent
/// block, the blocks separated by blank lines.
#[verifier::rlimit(100)]
#[verifier::spinoff_prover]
pub fn print_bus_grouped(
    bus_devices: Vec<(&USBBus, Vec<&USBDevice>)>,
    settings: &PrintSettings,
) -> (r: Vec<String>)
    ensures
        r@.len() == spec_bus_grouped_lines(
            grouped_buses(bus_devices@),
            grouped_devices(bus_devices@),
            settings,
        ).len(),
        settings.colours is None ==> str_views(r@) == spec_bus_grouped_lines(
            grouped_buses(bus_devices@),
            grouped_devices(bus_devices@),
            settings,
        ),
{
    let ghost gb = grouped_buses(bus_devices@);
    let ghost gd = grouped_devices(bus_devices@);
    let ghost all = spec_bus_grouped_lines(gb, gd, settings);
    let bb = effective_bus_blocks(settings);
    let pad: Vec<(BusBlocks, usize)> = if !settings.no_padding {
        let mut refs: Vec<&USBBus> = Vec::new();
        let mut i: usize = 0;
        while i < bus_devices.len()
            invariant
                i <= bus_devices.len(),
                refs@.len() == i as int,
                forall|j: int| 0 <= j < i ==> refs@[j] == bus_devices@[j].0,
            decreases bus_devices.len() - i,
        {
            let (bus, devs_i) = &bus_devices[i];
            refs.push(bus);
            i = i + 1;
        }
        proof {
            assert(derefs(refs@) =~= gb);
        }
        BusBlocks::generate_padding(&refs)
    } else {
        Vec::new()
    };
    proof {
        assert(pad@ == spec_bus_pad(gb, settings));
    }
    let mut lines: Vec<String> = Vec::new();
    let mut i: usize = 0;
    while i < bus_devices.len()
        invariant
            i <= bus_devices.len(),
            gb == grouped_buses(bus_devices@),
            gd == grouped_devices(bus_devices@),
            gb.len() == bus_devices@.len(),
            gd.len() == bus_devices@.len(),
            pad@ == spec_bus_pad(gb, settings),
            bb@ == spec_effective_bus_blocks(settings),
            all == spec_bus_grouped_lines(gb, gd, settings),
            all.len() == lines@.len() + spec_bus_grouped_lines_from(
                gb,
                gd,
                i as int,
                pad@,
                bb@,
                settings,
            ).len(),
            settings.colours is None ==> all =~= str_views(lines@) + spec_bus_grouped_lines_from(
                gb,
                gd,
                i as int,
                pad@,
                bb@,
                settings,
            ),
        decreases bus_devices.len() - i,
    {
        let (bus, devs_i) = &bus_devices[i];
        proof {
            assert(gb[i as int] == *bus_devices@[i as int].0);
            assert(gd[i as int] == derefs(bus_devices@[i as int].1@));
        }
        if settings.headings {
            let cells = render_heading(&bb, &pad);
            let joined = join_with(&cells, " ");
            let styled = match settings.colours.as_ref() {
                Some(c) => bold_underline(joined.as_str()),
                None => joined,
            };
            lines.push(styled);
        }
        let cells = render_value(*bus, &bb, &pad, settings);
        let joined = join_with(&cells, " ");
        lines.push(joined);
        let mut f_lines = print_flattened_devices(devs_i, settings);
        let ghost f0 = f_lines@;
        lines.append(&mut f_lines);
        proof {
            assert(str_views(lines@) =~= str_views(lines@.subrange(0, lines@.len() - f0.len()))
                + str_views(f0));
        }
        lines.push(String::new());
        i = i + 1;
    }
    proof {
        if settings.colours is None {
            assert(str_views(lines@) =~= all);
        }
    }
    lines
}

/// An ASCII letter or digit, as the alphanumeric sampler produces them.
pub open spec fn spec_is_alnum_byte(b: u8) -> bool {
    (65 <= b <= 90) || (97 <= b <= 122) || (48 <= b <= 57)
}

/// An upper-case ASCII letter or a digit.
pub open spec fn spec_is_upper_alnum_char(c: char) -> bool {
    ('A' <= c <= 'Z') || ('0' <= c <= '9')
}

/// Relies on rand's `IteratorRandom::choose` over the characters of `s`:
/// the result is one of them, and absent exactly when `s` is empty.
/// Which one comes back depends on the thread's generator, so no more is
/// stated.
#[verifier::external_body]
fn choose_char(s: &str) -> (r: Option<char>)
    ensures
        r is Some <==> s@.len() > 0,
        r matches Some(c) ==> s@.contains(c),
{
    s.chars().choose(&mut rand::rng())
}

/// Relies on rand's `Alphanumeric` distribution: every sampled byte is an
/// ASCII letter or digit.  Which bytes come back depends on the thread's
/// generator, so no more is stated.
#[verifier::external_body]
fn sample_alphanumeric(len: usize) -> (r: Vec<u8>)
    ensures
        r@.len() == len,
        forall|i: int| 0 <= i < r@.len() ==> spec_is_alnum_byte(#[trigger] r@[i]),
{
    rand::rng().sample_iter(rand::distr::Alphanumeric).take(len).collect()
}

/// Whether `new_s` is `old_s` masked: always of the same length, and made
/// of asterisks under `Hide`, of characters drawn from the old serial
/// under `Scramble`, and of upper-case alphanumeric characters under
/// `Replace`.
pub open spec fn spec_masked_serial(mode: MaskSerial, old_s: Seq<char>, new_s: Seq<char>) -> bool {
    &&& new_s.len() == old_s.len()
    &&& match mode {
        MaskSerial::Hide => forall|i: int| 0 <= i < new_s.len() ==> new_s[i] == '*',
        MaskSerial::Scramble => forall|i: int|
            0 <= i < new_s.len() ==> old_s.contains(#[trigger] new_s[i]),
        MaskSerial::Replace => forall|i: int|
            0 <= i < new_s.len() ==> spec_is_upper_alnum_char(#[trigger] new_s[i]),
    }
}

/// Whether `nd` is `od` with its serial masked: every other field kept,
/// the serial related by the mode, and, when recursive, the children
/// masked likewise.
pub open spec fn spec_masked_dev(
    mode: MaskSerial,
    recursive: bool,
    od: USBDevice,
    nd: USBDevice,
) -> bool
    decreases od, 0int,
{
    &&& nd == USBDevice { serial_num: nd.serial_num, devices: nd.devices, ..od }
    &&& match (od.serial_num, nd.serial_num) {
        (Some(o), Some(n)) => spec_masked_serial(mode, o@, n@),
        (None, None) => true,
        _ => false,
    }
    &&& if recursive {
        match (od.devices, nd.devices) {
            (Some(ocs), Some(ncs)) => spec_masked_list(mode, ocs@, ncs@),
            (None, None) => true,
            _ => false,
        }
    } else {
        nd.devices == od.devices
    }
}

/// Whether each device of `ns` is the one of `os` with its serial masked,
/// recursively.
pub open spec fn spec_masked_list(mode: MaskSerial, os: Seq<USBDevice>, ns: Seq<USBDevice>) -> bool
    decreases os, os.len(),
{
    if os.len() == 0 {
        ns.len() == 0
    } else {
        ns.len() > 0 && spec_masked_dev(mode, true, os[0], ns[0]) && spec_masked_list(
            mode,
            os.drop_first(),
            ns.drop_first(),
        )
    }
}

fn mask_string(serial: &String, hide: &MaskSerial) -> (r: String)
    ensures
        spec_masked_serial(*hide, serial@, r@),
{
    let len = serial.as_str().unicode_len();
    match hide {
        MaskSerial::Hide => crate::text::repeat('*', len),
        MaskSerial::Scramble => {
            let mut out = String::new();
            let mut i: usize = 0;
            while i < len
                invariant
                    i <= len,
                    len as nat == serial@.len(),
                    out@.len() == i as int,
                    forall|j: int| 0 <= j < i ==> serial@.contains(#[trigger] out@[j]),
                decreases len - i,
            {
                let c = match choose_char(serial.as_str()) {
                    Some(c) => c,
                    None => '*',
                };
                out.push(c);
                i = i + 1;
            }
            out
        },
        MaskSerial::Replace => {
            let bytes = sample_alphanumeric(len);
            let mut out = String::new();
            let mut i: usize = 0;
            while i < bytes.len()
                invariant
                    i <= bytes@.len(),
                    bytes@.len() == len as nat,
                    len as nat == serial@.len(),
                    forall|j: int| 0 <= j < bytes@.len() ==> spec_is_alnum_byte(#[trigger] bytes@[j]),
                    out@.len() == i as int,
                    forall|j: int| 0 <= j < i ==> spec_is_upper_alnum_char(#[trigger] out@[j]),
                decreases bytes@.len() - i,
            {
                let b = bytes[i];
                let u = if 97 <= b && b <= 122 {
                    b - 32
                } else {
                    b
                };
                out.push(u as char);
                i = i + 1;
            }
            out
        },
    }
}

/// Mask the device's serial, when it has one, by the given policy, and
/// with `recursive` do the same for every device below it.
pub fn mask_serial(device: &mut USBDevice, hide: &MaskSerial, recursive: bool)
    ensures
        spec_masked_dev(*hide, recursive, *old(device), *final (device)),
    decreases *old(device), 0int,
{
    let ghost d0 = *device;
    let serial = device.serial_num.take();
    match serial {
        Some(s) => {
            let masked = mask_string(&s, hide);
            device.serial_num = Some(masked);
        },
        None => {},
    }
    if recursive {
        let children = device.devices.take();
        match children {
            Some(cs) => {
                let masked = mask_device_list(cs, hide);
                device.devices = Some(masked);
            },
            None => {},
        }
    }
}

fn mask_device_list(ds: Vec<USBDevice>, hide: &MaskSerial) -> (r: Vec<USBDevice>)
    ensures
        spec_masked_list(*hide, ds@, r@),
    decreases ds@, ds@.len(),
{
    let mut ds = ds;
    if ds.len() == 0 {
        proof {
            assert(ds@ =~= Seq::<USBDevice>::empty());
        }
        ds
    } else {
        let ghost ds0 = ds@;
        let mut first = ds.remove(0);
        proof {
            assert(ds@ =~= ds0.drop_first());
        }
        mask_serial(&mut first, hide, true);
        let rest = mask_device_list(ds, hide);
        let mut r: Vec<USBDevice> = Vec::new();
        r.push(first);
        let ghost rest0 = rest@;
        let mut rest = rest;
        r.append(&mut rest);
        proof {
            assert(r@[0] == first);
            assert(r@.drop_first() =~= rest0);
        }
        r
    }
}

/// Whether the pre-processing flattens the tree first: only outside tree
/// mode, and only when a filter, bus grouping or serialized output makes
/// flat filtering necessary.
pub open spec fn spec_flatten_applies(filter: Option<USBFilter>, settings: &PrintSettings) -> bool {
    !settings.tree && (filter is Some || settings.group_devices is Bus || settings.json)
}

/// The flattening step of the pre-processing, as a relation on the bus
/// list.
pub open spec fn spec_flatten_step(
    ob: Seq<USBBus>,
    nb: Seq<USBBus>,
    filter: Option<USBFilter>,
    settings: &PrintSettings,
) -> bool {
    if spec_flatten_applies(filter, settings) {
        nb.len() == ob.len() && forall|i: int|
            0 <= i < ob.len() ==> spec_flattened_bus(ob[i], #[trigger] nb[i])
    } else {
        nb == ob
    }
}

/// The filtering step of the pre-processing.
pub open spec fn spec_filter_step(
    ob: Seq<USBBus>,
    nb: Seq<USBBus>,
    filter: Option<USBFilter>,
) -> bool {
    match filter {
        Some(f) => nb.len() == ob.len() && forall|i: int|
            0 <= i < ob.len() ==> spec_filtered_bus(f, ob[i], #[trigger] nb[i]),
        None => nb == ob,
    }
}

/// The buses that still carry a device, in order.
pub open spec fn spec_keep_nonempty(bs: Seq<USBBus>) -> Seq<USBBus>
    decreases bs.len(),
{
    if bs.len() == 0 {
        Seq::empty()
    } else if spec_bus_has_devices(&bs[0]) {
        seq![bs[0]] + spec_keep_nonempty(bs.drop_first())
    } else {
        spec_keep_nonempty(bs.drop_first())
    }
}

/// The buses without an empty hub left on them, in order.
pub open spec fn spec_drop_empty_hubs(bs: Seq<USBBus>) -> Seq<USBBus>
    decreases bs.len(),
{
    if bs.len() == 0 {
        Seq::empty()
    } else if !spec_bus_has_empty_hubs(&bs[0]) {
        seq![bs[0]] + spec_drop_empty_hubs(bs.drop_first())
    } else {
        spec_drop_empty_hubs(bs.drop_first())
    }
}

/// Hiding empty buses is exact: every kept bus still carries a device,
/// and every bus that carries one is kept.
pub proof fn lemma_keep_nonempty_exact(bs: Seq<USBBus>)
    ensures
        forall|i: int|
            0 <= i < spec_keep_nonempty(bs).len() ==> spec_bus_has_devices(
                &spec_keep_nonempty(bs)[i],
            ),
        forall|i: int|
            0 <= i < bs.len() && spec_bus_has_devices(&bs[i]) ==> spec_keep_nonempty(
                bs,
            ).contains(bs[i]),
    decreases bs.len(),
{
    if bs.len() > 0 {
        lemma_keep_nonempty_exact(bs.drop_first());
        let rest = spec_keep_nonempty(bs.drop_first());
        let r = spec_keep_nonempty(bs);
        if spec_bus_has_devices(&bs[0]) {
            assert(r[0] == bs[0]);
            assert(forall|i: int| 1 <= i < r.len() ==> r[i] == rest[i - 1]);
        }
        assert forall|i: int|
            0 <= i < bs.len() && spec_bus_has_devices(&bs[i]) implies r.contains(bs[i]) by {
            if i == 0 {
                assert(r[0] == bs[0]);
            } else {
                assert(bs.drop_first()[i - 1] == bs[i]);
                assert(rest.contains(bs[i]));
                let k = choose|k: int| 0 <= k < rest.len() && rest[k] == bs[i];
                if spec_bus_has_devices(&bs[0]) {
                    assert(r[k + 1] == bs[i]);
                } else {
                    assert(r[k] == bs[i]);
                }
            }
        }
    }
}

/// The hiding step of the pre-processing: after filtering, buses without
/// devices go, and with the filter's empty-hub exclusion buses left with
/// an empty hub go too.
pub open spec fn spec_hide_step(
    ob: Seq<USBBus>,
    nb: Seq<USBBus>,
    filter: Option<USBFilter>,
    settings: &PrintSettings,
) -> bool {
    if settings.hide_buses {
        if match filter {
            Some(f) => f.exclude_empty_hub,
            None => false,
        } {
            nb == spec_drop_empty_hubs(spec_keep_nonempty(ob))
        } else {
            nb == spec_keep_nonempty(ob)
        }
    } else {
        nb == ob
    }
}

/// `x` inserted into `bs` after every bus with a bus number not larger.
pub open spec fn spec_bus_sorted_insert(x: USBBus, bs: Seq<USBBus>) -> Seq<USBBus>
    decreases bs.len(),
{
    if bs.len() == 0 {
        seq![x]
    } else if bs[0].bus_number <= x.bus_number {
        seq![bs[0]] + spec_bus_sorted_insert(x, bs.drop_first())
    } else {
        seq![x] + bs
    }
}

/// The buses in bus-number order, by stable insertion.
pub open spec fn spec_sort_buses(bs: Seq<USBBus>) -> Seq<USBBus>
    decreases bs.len(),
{
    if bs.len() == 0 {
        bs
    } else {
        spec_bus_sorted_insert(bs.last(), spec_sort_buses(bs.drop_last()))
    }
}

/// The bus-sorting step of the pre-processing.
pub open spec fn spec_sort_step(ob: Seq<USBBus>, nb: Seq<USBBus>, settings: &PrintSettings) -> bool {
    if settings.sort_buses {
        nb == spec_sort_buses(ob)
    } else {
        nb == ob
    }
}

/// Whether `nb` is `ob` with every device's serial masked recursively.
pub open spec fn spec_masked_bus(mode: MaskSerial, ob: USBBus, nb: USBBus) -> bool {
    &&& nb == USBBus { devices: nb.devices, ..ob }
    &&& match (ob.devices, nb.devices) {
        (Some(ods), Some(nds)) => spec_masked_list(mode, ods@, nds@),
        (None, None) => true,
        _ => false,
    }
}

/// The masking step of the pre-processing.
pub open spec fn spec_mask_step(
    ob: Seq<USBBus>,
    nb: Seq<USBBus>,
    settings: &PrintSettings,
) -> bool {
    match settings.mask_serials {
        Some(m) => nb.len() == ob.len() && forall|i: int|
            0 <= i < ob.len() ==> spec_masked_bus(m, ob[i], #[trigger] nb[i]),
        None => nb == ob,
    }
}

/// Whether `nb` is `ob` after the whole pre-processing: flattened when
/// flat filtering needs it, filtered, stripped of hidden buses, sorted by
/// bus number when asked, and masked, in that order.
pub open spec fn spec_prepared(
    ob: Seq<USBBus>,
    nb: Seq<USBBus>,
    filter: Option<USBFilter>,
    settings: &PrintSettings,
) -> bool {
    exists|s1: Seq<USBBus>, s2: Seq<USBBus>, s3: Seq<USBBus>, s4: Seq<USBBus>|
        {
            &&& #[trigger] spec_flatten_step(ob, s1, filter, settings)
            &&& #[trigger] spec_filter_step(s1, s2, filter)
            &&& #[trigger] spec_hide_step(s2, s3, filter, settings)
            &&& #[trigger] spec_sort_step(s3, s4, settings)
            &&& spec_mask_step(s4, nb, settings)
        }
}

fn keep_buses_with_devices(bs: Vec<USBBus>) -> (r: Vec<USBBus>)
    ensures
        r@ == spec_keep_nonempty(bs@),
    decreases bs@.len(),
{
    let mut bs = bs;
    if bs.len() == 0 {
        proof {
            assert(bs@ =~= Seq::<USBBus>::empty());
            assert(spec_keep_nonempty(bs@) =~= Seq::<USBBus>::empty());
        }
        bs
    } else {
        let ghost bs0 = bs@;
        let first = bs.remove(0);
        proof {
            assert(bs@ =~= bs0.drop_first());
        }
        let keep = first.has_devices();
        let rest = keep_buses_with_devices(bs);
        if keep {
            let mut r: Vec<USBBus> = Vec::new();
            r.push(first);
            let ghost rest0 = rest@;
            let mut rest = rest;
            r.append(&mut rest);
            proof {
                assert(r@ =~= seq![bs0[0]] + rest0);
            }
            r
        } else {
            rest
        }
    }
}

fn drop_buses_with_empty_hubs(bs: Vec<USBBus>) -> (r: Vec<USBBus>)
    ensures
        r@ == spec_drop_empty_hubs(bs@),
    decreases bs@.len(),
{
    let mut bs = bs;
    if bs.len() == 0 {
        proof {
            assert(bs@ =~= Seq::<USBBus>::empty());
            assert(spec_drop_empty_hubs(bs@) =~= Seq::<USBBus>::empty());
        }
        bs
    } else {
        let ghost bs0 = bs@;
        let first = bs.remove(0);
        proof {
            assert(bs@ =~= bs0.drop_first());
        }
        let keep = !first.has_empty_hubs();
        let rest = drop_buses_with_empty_hubs(bs);
        if keep {
            let mut r: Vec<USBBus> = Vec::new();
            r.push(first);
            let ghost rest0 = rest@;
            let mut rest = rest;
            r.append(&mut rest);
            proof {
                assert(r@ =~= seq![bs0[0]] + rest0);
            }
            r
        } else {
            rest
        }
    }
}

proof fn lemma_bus_sorted_insert_position(x: USBBus, bs: Seq<USBBus>, j: int)
    requires
        0 <= j <= bs.len(),
        forall|k: int| 0 <= k < j ==> bs[k].bus_number <= x.bus_number,
        j < bs.len() ==> bs[j].bus_number > x.bus_number,
    ensures
        spec_bus_sorted_insert(x, bs) == bs.insert(j, x),
    decreases bs.len(),
{
    if bs.len() == 0 {
        assert(spec_bus_sorted_insert(x, bs) =~= bs.insert(0, x));
    } else if j == 0 {
        assert(spec_bus_sorted_insert(x, bs) =~= bs.insert(0, x));
    } else {
        assert(forall|k: int|
            0 <= k < j - 1 ==> bs.drop_first()[k].bus_number <= x.bus_number);
        lemma_bus_sorted_insert_position(x, bs.drop_first(), j - 1);
        assert(spec_bus_sorted_insert(x, bs) =~= bs.insert(j, x));
    }
}

fn sort_buses_by_number(bs: Vec<USBBus>) -> (r: Vec<USBBus>)
    ensures
        r@ == spec_sort_buses(bs@),
{
    let ghost bs0 = bs@;
    let mut src = bs;
    let n = src.len();
    let mut out: Vec<USBBus> = Vec::new();
    let mut i: usize = 0;
    proof {
        assert(bs0.take(0) =~= Seq::<USBBus>::empty());
    }
    while src.len() > 0
        invariant
            n == bs0.len(),
            i <= n,
            i as int + src@.len() == bs0.len(),
            src@ == bs0.skip(i as int),
            out@ == spec_sort_buses(bs0.take(i as int)),
        decreases src@.len(),
    {
        let x = src.remove(0);
        proof {
            assert(bs0.skip(i as int)[0] == bs0[i as int]);
            assert(bs0.skip(i as int).drop_first() =~= bs0.skip(i as int + 1));
        }
        let ghost out0 = out@;
        let kx = x.get_bus_number();
        let mut j: usize = 0;
        while j < out.len() && out[j].get_bus_number() <= kx
            invariant
                j <= out@.len(),
                out@ == out0,
                kx == bs0[i as int].bus_number,
                forall|k: int| 0 <= k < j ==> out@[k].bus_number <= kx,
            decreases out@.len() - j,
        {
            j = j + 1;
        }
        out.insert(j, x);
        proof {
            lemma_bus_sorted_insert_position(bs0[i as int], out0, j as int);
            assert(bs0.take(i as int + 1).drop_last() =~= bs0.take(i as int));
            assert(bs0.take(i as int + 1).last() == bs0[i as int]);
        }
        i = i + 1;
    }
    proof {
        assert(bs0.take(bs0.len() as int) =~= bs0);
    }
    out
}

/// Run the pre-processing passes over the tree, in place, before a render:
/// flatten when flat filtering needs it, apply the filter, hide empty
/// buses and hubs, sort the buses, and mask serials.
pub fn prepare(sp_usb: &mut SPUSBDataType, filter: Option<USBFilter>, settings: &PrintSettings)
    ensures
        spec_prepared(old(sp_usb).buses@, final (sp_usb).buses@, filter, settings),
{
    let ghost ob = sp_usb.buses@;
    if !settings.tree && (filter.is_some() || matches!(settings.group_devices, Group::Bus)
        || settings.json) {
        sp_usb.flatten();
    }
    let ghost s1 = sp_usb.buses@;
    proof {
        assert(spec_flatten_step(ob, s1, filter, settings));
    }
    match filter.as_ref() {
        Some(f) => f.retain_buses(&mut sp_usb.buses),
        None => {},
    }
    let ghost s2 = sp_usb.buses@;
    proof {
        assert(spec_filter_step(s1, s2, filter));
    }
    if settings.hide_buses {
        let mut bs: Vec<USBBus> = Vec::new();
        core::mem::swap(&mut bs, &mut sp_usb.buses);
        let kept = keep_buses_with_devices(bs);
        let excl = match filter.as_ref() {
            Some(f) => f.exclude_empty_hub,
            None => false,
        };
        if excl {
            sp_usb.buses = drop_buses_with_empty_hubs(kept);
        } else {
            sp_usb.buses = kept;
        }
    }
    let ghost s3 = sp_usb.buses@;
    proof {
        assert(spec_hide_step(s2, s3, filter, settings));
    }
    if settings.sort_buses {
        let mut bs: Vec<USBBus> = Vec::new();
        core::mem::swap(&mut bs, &mut sp_usb.buses);
        sp_usb.buses = sort_buses_by_number(bs);
    }
    let ghost s4 = sp_usb.buses@;
    proof {
        assert(spec_sort_step(s3, s4, settings));
    }
    match settings.mask_serials.as_ref() {
        Some(hide) => {
            let n = sp_usb.buses.len();
            let mut i: usize = 0;
            while i < n
                invariant
                    n == s4.len(),
                    i <= n,
                    sp_usb.buses@.len() == n,
                    settings.mask_serials == Some(*hide),
                    forall|j: int|
                        0 <= j < i ==> spec_masked_bus(*hide, s4[j], #[trigger] sp_usb.buses@[j]),
                    forall|j: int| i <= j < n ==> sp_usb.buses@[j] == s4[j],
                decreases n - i,
            {
                let mut bus = sp_usb.buses.remove(i);
                let ghost bus0 = bus;
                let ds = bus.devices.take();
                match ds {
                    Some(v) => {
                        let masked = mask_device_list(v, hide);
                        bus.devices = Some(masked);
                    },
                    None => {},
                }
                proof {
                    assert(spec_masked_bus(*hide, bus0, bus));
                }
                sp_usb.buses.insert(i, bus);
                i = i + 1;
            }
        },
        None => {},
    }
    let ghost s5 = sp_usb.buses@;
    proof {
        assert(spec_mask_step(s4, s5, settings));
        assert(spec_prepared(ob, s5, filter, settings));
    }
}

/// The formatted-text lines of the whole render: the full bus tree when a
/// tree or bus grouping is asked for, else the flat list of every device.
pub open spec fn spec_print_lines(buses: Seq<USBBus>, settings: &PrintSettings) -> Seq<Seq<char>>
    decreases spec_buses_height(buses) + 2, 2int,
{
    if settings.tree || settings.group_devices is Bus {
        spec_sp_usb_lines(
            buses,
            spec_effective_bus_blocks(settings),
            spec_effective_tree_device_blocks(settings),
            settings,
        )
    } else {
        spec_flattened_lines(spec_all_buses(buses), settings)
    }
}

/// Render the system as formatted text: the full tree when tree mode or
/// bus grouping is on, else the flat list of every device.  When
/// serialized output is asked for instead, the caller serializes the tree
/// itself and no formatting runs.
pub fn print(sp_usb: &SPUSBDataType, settings: &PrintSettings) -> (r: Vec<String>)
    requires
        spec_buses_height(sp_usb.buses@) + 3 < usize::MAX,
    ensures
        r@.len() == spec_print_lines(sp_usb.buses@, settings).len(),
        settings.colours is None ==> str_views(r@) == spec_print_lines(sp_usb.buses@, settings),
{
    if settings.tree || matches!(settings.group_devices, Group::Bus) {
        print_sp_usb(sp_usb, settings)
    } else {
        let devs = sp_usb.flatten_devices();
        print_flattened_devices(&devs, settings)
    }
}

} // verus!
