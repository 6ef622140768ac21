//! The descriptor tree itself: buses owning devices, devices recursively
//! owning child devices (hub ports) and, when deep enumeration succeeded, an
//! extended-info block with their configurations.  Alongside the passive
//! data live the pre-processing passes that run before printing: flattening
//! the recursive tree into a single list and filtering it.

use vstd::prelude::*;
use vstd::string::*;
use crate::text::{dec_u64, join_with, spec_dec, spec_join};
use crate::usb::USBConfiguration;

verus! {

/// Where a device sits: its bus and the port chain leading to it.
#[derive(Clone, Debug)]
pub struct DeviceLocation {
    /// Number of the bus the device is attached to.
    pub bus: u8,
    /// Device number issued by the bus.
    pub number: u8,
    /// Position along all branches back to the trunk device.
    pub tree_positions: Vec<u8>,
}

/// Extended information, present only when deep enumeration succeeded.
#[derive(Clone, Debug)]
pub struct USBDeviceExtra {
    /// Syspath reported by the platform, when known.
    pub syspath: Option<String>,
    /// Driver loaded for the device, when known.
    pub driver: Option<String>,
    /// Product name from the id lookup, when known.
    pub product_name: Option<String>,
    /// Vendor name from the id lookup, when known.
    pub vendor: Option<String>,
    /// The device's configurations.
    pub configurations: Vec<USBConfiguration>,
}

/// One device; hubs recursively own their child devices.
#[derive(Debug)]
pub struct USBDevice {
    /// The device name as reported in the descriptor.
    pub name: String,
    /// Serial string as reported by the descriptor, when present.
    pub serial_num: Option<String>,
    /// Manufacturer as provided in the descriptor, when present.
    pub manufacturer: Option<String>,
    /// Vendor identifier, when known.
    pub vendor_id: Option<u16>,
    /// Product identifier, when known.
    pub product_id: Option<u16>,
    /// Where the device sits.
    pub location_id: DeviceLocation,
    /// Advertised device speed label, when known.
    pub device_speed: Option<String>,
    /// Device version label, when known.
    pub bcd_device: Option<String>,
    /// Supported USB version label, when known.
    pub bcd_usb: Option<String>,
    /// Class name, when known.
    pub class: Option<String>,
    /// Sub-class code, when known.
    pub sub_class: Option<u8>,
    /// Protocol code, when known.
    pub protocol: Option<u8>,
    /// Bus current in mA, when reported.
    pub bus_power: Option<u16>,
    /// Bus current used in mA, when reported.
    pub bus_power_used: Option<u16>,
    /// Extra current used in mA, when reported.
    pub extra_current_used: Option<u16>,
    /// Extended information, when deep enumeration succeeded.
    pub extra: Option<USBDeviceExtra>,
    /// Child devices of a hub, when any were enumerated.
    pub devices: Option<Vec<USBDevice>>,
}

/// The immediate children of `d`, an empty sequence when it has none.
pub open spec fn spec_children(d: USBDevice) -> Seq<USBDevice> {
    match d.devices {
        Some(ds) => ds@,
        None => Seq::empty(),
    }
}

/// `d` with its child list removed, as the flattened list carries it.
pub open spec fn spec_strip(d: USBDevice) -> USBDevice {
    USBDevice { devices: None, ..d }
}

/// The port path label of a device: its bus number, a dash, and the port
/// chain joined with dots (`0` when the chain is empty).
pub open spec fn spec_port_path(d: &USBDevice) -> Seq<char> {
    if d.location_id.tree_positions@.len() == 0 {
        spec_dec(d.location_id.bus as nat) + "-"@ + "0"@
    } else {
        spec_dec(d.location_id.bus as nat) + "-"@ + spec_join(
            d.location_id.tree_positions@.map_values(|p: u8| spec_dec(p as nat)),
            "."@,
        )
    }
}

/// A device's position within its parent's branch: the last entry of the
/// port chain, `0` at the trunk.
pub open spec fn spec_branch_position(d: &USBDevice) -> u8 {
    if d.location_id.tree_positions@.len() == 0 {
        0
    } else {
        d.location_id.tree_positions@.last()
    }
}

/// Whether a device is a hub.
pub open spec fn spec_is_hub(d: &USBDevice) -> bool {
    match d.class {
        Some(c) => c@ == "Hub"@,
        None => false,
    }
}

impl USBDevice {
    /// The port path label: bus number, dash, port chain joined with dots.
    pub fn port_path(&self) -> (r: String)
        ensures
            r@ == spec_port_path(self),
    {
        let mut r = dec_u64(self.location_id.bus as u64);
        r.append("-");
        if self.location_id.tree_positions.len() == 0 {
            r.append("0");
        } else {
            let ghost views = self.location_id.tree_positions@.map_values(
                |p: u8| spec_dec(p as nat),
            );
            let mut parts: Vec<String> = Vec::new();
            let mut i: usize = 0;
            while i < self.location_id.tree_positions.len()
                invariant
                    i <= self.location_id.tree_positions.len(),
                    views == self.location_id.tree_positions@.map_values(
                        |p: u8| spec_dec(p as nat),
                    ),
                    parts@.len() == i as int,
                    forall|j: int| 0 <= j < i ==> parts@[j]@ == views[j],
                decreases self.location_id.tree_positions.len() - i,
            {
                parts.push(dec_u64(self.location_id.tree_positions[i] as u64));
                i = i + 1;
            }
            proof {
                assert(parts@.map_values(|s: String| s@) =~= views);
            }
            let joined = join_with(&parts, ".");
            r.append(joined.as_str());
        }
        r
    }

    /// The device's position within its parent's branch.
    pub fn get_branch_position(&self) -> (r: u8)
        ensures
            r == spec_branch_position(self),
    {
        if self.location_id.tree_positions.len() == 0 {
            0
        } else {
            self.location_id.tree_positions[self.location_id.tree_positions.len() - 1]
        }
    }

    /// Whether the device is a hub.
    pub fn is_hub(&self) -> (r: bool)
        ensures
            r == spec_is_hub(self),
    {
        match self.class.as_ref() {
            Some(c) => {
                let hub = String::from_str("Hub");
                *c == hub
            },
            None => false,
        }
    }
}

/// One bus of the system.
#[derive(Debug)]
pub struct USBBus {
    /// Bus name from the descriptor.
    pub name: String,
    /// Host controller label.
    pub host_controller: String,
    /// System bus number.
    pub bus_number: u8,
    /// PCI vendor id of the controller, when known.
    pub pci_vendor: Option<u16>,
    /// PCI device id of the controller, when known.
    pub pci_device: Option<u16>,
    /// PCI hardware revision, when known.
    pub pci_revision: Option<u16>,
    /// Devices on the bus, when any were enumerated.
    pub devices: Option<Vec<USBDevice>>,
}

/// The syspath-style port path label of a bus.
pub open spec fn spec_bus_path(b: &USBBus) -> Seq<char> {
    "usb"@ + spec_dec(b.bus_number as nat)
}

/// Whether a bus carries at least one device.
pub open spec fn spec_bus_has_devices(b: &USBBus) -> bool {
    match b.devices {
        Some(ds) => ds@.len() > 0,
        None => false,
    }
}

impl USBBus {
    /// The system bus number.
    pub fn get_bus_number(&self) -> (r: u8)
        ensures
            r == self.bus_number,
    {
        self.bus_number
    }

    /// The syspath-style port path label of the bus.
    pub fn path(&self) -> (r: String)
        ensures
            r@ == spec_bus_path(self),
    {
        let mut r = String::from_str("usb");
        let n = dec_u64(self.bus_number as u64);
        r.append(n.as_str());
        r
    }

    /// Whether the bus carries at least one device.
    pub fn has_devices(&self) -> (r: bool)
        ensures
            r == spec_bus_has_devices(self),
    {
        match self.devices.as_ref() {
            Some(ds) => ds.len() > 0,
            None => false,
        }
    }

    /// Whether, after filtering, some hub on the bus is left without any
    /// device under it.
    pub fn has_empty_hubs(&self) -> (r: bool)
        ensures
            r == spec_bus_has_empty_hubs(self),
    {
        match self.devices.as_ref() {
            Some(ds) => {
                proof {
                    assert(ds@.skip(0) =~= ds@);
                }
                list_has_empty_hub(ds, 0)
            },
            None => false,
        }
    }
}

/// Whether some device of the list, or of a subtree under it, is a hub with
/// no devices left under it.
pub open spec fn spec_list_has_empty_hub(ds: Seq<USBDevice>) -> bool
    decreases ds, ds.len(),
{
    if ds.len() == 0 {
        false
    } else {
        spec_dev_has_empty_hub(ds[0]) || spec_list_has_empty_hub(ds.drop_first())
    }
}

/// Whether `d` is an empty hub or holds one somewhere below it.
pub open spec fn spec_dev_has_empty_hub(d: USBDevice) -> bool
    decreases d, 0int,
{
    (spec_is_hub(&d) && spec_children(d).len() == 0) || (d.devices is Some
        && spec_list_has_empty_hub(d.devices->Some_0@))
}

pub open spec fn spec_bus_has_empty_hubs(b: &USBBus) -> bool {
    match b.devices {
        Some(ds) => spec_list_has_empty_hub(ds@),
        None => false,
    }
}

fn list_has_empty_hub(ds: &Vec<USBDevice>, from: usize) -> (r: bool)
    requires
        from <= ds@.len(),
    ensures
        r == spec_list_has_empty_hub(ds@.skip(from as int)),
    decreases ds@, ds@.len() - from,
{
    if from == ds.len() {
        proof {
            assert(ds@.skip(from as int) =~= Seq::<USBDevice>::empty());
        }
        false
    } else {
        proof {
            assert(ds@.skip(from as int)[0] == ds@[from as int]);
            assert(ds@.skip(from as int).drop_first() =~= ds@.skip(from as int + 1));
        }
        if dev_has_empty_hub(&ds[from]) {
            true
        } else {
            list_has_empty_hub(ds, from + 1)
        }
    }
}

fn dev_has_empty_hub(d: &USBDevice) -> (r: bool)
    ensures
        r == spec_dev_has_empty_hub(*d),
    decreases *d, 0int,
{
    let no_children = match d.devices.as_ref() {
        Some(cs) => cs.len() == 0,
        None => true,
    };
    if d.is_hub() && no_children {
        true
    } else {
        match d.devices.as_ref() {
            Some(cs) => {
                proof {
                    assert(cs@.skip(0) =~= cs@);
                }
                list_has_empty_hub(cs, 0)
            },
            None => false,
        }
    }
}

/// The flattened form of a device: itself with its child list removed,
/// followed by the flattened forms of its children, in order.
pub open spec fn spec_flatten_device(d: USBDevice) -> Seq<USBDevice>
    decreases d, 0int,
{
    if d.devices is Some {
        seq![spec_strip(d)] + spec_flatten_list(d.devices->Some_0@)
    } else {
        seq![spec_strip(d)]
    }
}

/// The flattened form of a device list: each device's flattened form,
/// concatenated in order.
pub open spec fn spec_flatten_list(ds: Seq<USBDevice>) -> Seq<USBDevice>
    decreases ds, ds.len(),
{
    if ds.len() == 0 {
        Seq::empty()
    } else {
        spec_flatten_device(ds[0]) + spec_flatten_list(ds.drop_first())
    }
}

fn flatten_device(d: USBDevice) -> (r: Vec<USBDevice>)
    ensures
        r@ == spec_flatten_device(d),
    decreases d, 0int,
{
    let mut d = d;
    let ghost d0 = d;
    let children = d.devices.take();
    let mut r: Vec<USBDevice> = Vec::new();
    r.push(d);
    match children {
        Some(cs) => {
            let mut rest = flatten_device_list(cs);
            r.append(&mut rest);
            proof {
                assert(r@ =~= spec_flatten_device(d0));
            }
        },
        None => {
            proof {
                assert(r@ =~= spec_flatten_device(d0));
            }
        },
    }
    r
}

fn flatten_device_list(ds: Vec<USBDevice>) -> (r: Vec<USBDevice>)
    ensures
        r@ == spec_flatten_list(ds@),
    decreases ds@, ds@.len(),
{
    let mut ds = ds;
    if ds.len() == 0 {
        proof {
            assert(ds@ =~= Seq::<USBDevice>::empty());
        }
        ds
    } else {
        let ghost ds0 = ds@;
        let first = ds.remove(0);
        proof {
            assert(ds@ =~= ds0.drop_first());
        }
        let mut r = flatten_device(first);
        let mut rest = flatten_device_list(ds);
        r.append(&mut rest);
        r
    }
}

/// All devices of a subtree, the root first, children in order, each kept
/// whole.
pub open spec fn spec_all_device(d: USBDevice) -> Seq<USBDevice>
    decreases d, 0int,
{
    if d.devices is Some {
        seq![d] + spec_all_list(d.devices->Some_0@)
    } else {
        seq![d]
    }
}

/// All devices of a forest, in depth-first order.
pub open spec fn spec_all_list(ds: Seq<USBDevice>) -> Seq<USBDevice>
    decreases ds, ds.len(),
{
    if ds.len() == 0 {
        Seq::empty()
    } else {
        spec_all_device(ds[0]) + spec_all_list(ds.drop_first())
    }
}

/// The devices a sequence of references points at.
pub open spec fn deref_seq(s: Seq<&USBDevice>) -> Seq<USBDevice> {
    s.map_values(|p: &USBDevice| *p)
}

fn collect_device_refs<'a>(ds: &'a Vec<USBDevice>, from: usize, out: &mut Vec<&'a USBDevice>)
    requires
        from <= ds@.len(),
    ensures
        deref_seq(final (out)@) == deref_seq(old(out)@) + spec_all_list(ds@.skip(from as int)),
    decreases ds@, ds@.len() - from,
{
    if from == ds.len() {
        proof {
            assert(ds@.skip(from as int) =~= Seq::<USBDevice>::empty());
            assert(deref_seq(out@) =~= deref_seq(out@) + spec_all_list(ds@.skip(from as int)));
        }
    } else {
        let ghost out0 = out@;
        proof {
            assert(ds@.skip(from as int)[0] == ds@[from as int]);
            assert(ds@.skip(from as int).drop_first() =~= ds@.skip(from as int + 1));
        }
        let d: &USBDevice = &ds[from];
        out.push(d);
        proof {
            assert(deref_seq(out@) =~= deref_seq(out0).push(*d));
        }
        match d.devices.as_ref() {
            Some(cs) => {
                proof {
                    assert(cs@.skip(0) =~= cs@);
                }
                collect_device_refs(cs, 0, out);
                proof {
                    assert(deref_seq(out@) =~= deref_seq(out0) + spec_all_device(ds@[from as int]));
                }
            },
            None => {
                proof {
                    assert(deref_seq(out@) =~= deref_seq(out0) + spec_all_device(ds@[from as int]));
                }
            },
        }
        let ghost out1 = deref_seq(out@);
        collect_device_refs(ds, from + 1, out);
        proof {
            assert(deref_seq(out@) =~= deref_seq(out0) + spec_all_list(ds@.skip(from as int)));
        }
    }
}

/// Whether a flattened bus relates to its original: every field kept, and
/// the device list replaced by the flattened form of the old one.
pub open spec fn spec_flattened_bus(ob: USBBus, nb: USBBus) -> bool {
    &&& nb == USBBus { devices: nb.devices, ..ob }
    &&& match (ob.devices, nb.devices) {
        (Some(ods), Some(nds)) => nds@ == spec_flatten_list(ods@),
        (None, None) => true,
        _ => false,
    }
}

/// The whole system: every bus found on it.
#[derive(Debug)]
pub struct SPUSBDataType {
    /// The buses of the system.
    pub buses: Vec<USBBus>,
}

impl SPUSBDataType {
    /// Collapse every bus's recursive device tree into a single ordered
    /// list: each device precedes its children and loses its own child
    /// list.
    pub fn flatten(&mut self)
        ensures
            final (self).buses@.len() == old(self).buses@.len(),
            forall|i: int|
                0 <= i < old(self).buses@.len() ==> spec_flattened_bus(
                    old(self).buses@[i],
                    #[trigger] final (self).buses@[i],
                ),
    {
        let n = self.buses.len();
        let mut i: usize = 0;
        while i < n
            invariant
                n == old(self).buses@.len(),
                i <= n,
                self.buses@.len() == n,
                forall|j: int|
                    0 <= j < i ==> spec_flattened_bus(
                        old(self).buses@[j],
                        #[trigger] self.buses@[j],
                    ),
                forall|j: int| i <= j < n ==> self.buses@[j] == old(self).buses@[j],
            decreases n - i,
        {
            let mut bus = self.buses.remove(i);
            let ghost bus0 = bus;
            let ds = bus.devices.take();
            match ds {
                Some(ds) => {
                    let flat = flatten_device_list(ds);
                    bus.devices = Some(flat);
                },
                None => {},
            }
            proof {
                assert(spec_flattened_bus(bus0, bus));
            }
            self.buses.insert(i, bus);
            i = i + 1;
        }
    }

    /// References to every device of the system, in depth-first order,
    /// without descending copies: the devices themselves stay whole.
    pub fn flatten_devices<'a>(&'a self) -> (r: Vec<&'a USBDevice>)
        ensures
            deref_seq(r@) == spec_all_buses(self.buses@),
    {
        let mut out: Vec<&USBDevice> = Vec::new();
        let n = self.buses.len();
        let mut i: usize = 0;
        while i < n
            invariant
                n == self.buses@.len(),
                i <= n,
                deref_seq(out@) == spec_all_buses(self.buses@.take(i as int)),
            decreases n - i,
        {
            proof {
                lemma_all_buses_snoc(self.buses@, i as int);
            }
            let ghost out0 = deref_seq(out@);
            match self.buses[i].devices.as_ref() {
                Some(ds) => {
                    proof {
                        assert(ds@.skip(0) =~= ds@);
                    }
                    collect_device_refs(ds, 0, &mut out);
                },
                None => {},
            }
            proof {
                assert(deref_seq(out@) =~= spec_all_buses(self.buses@.take(i + 1)));
            }
            i = i + 1;
        }
        proof {
            assert(self.buses@.take(n as int) =~= self.buses@);
        }
        out
    }
}

/// All devices of a sequence of buses, in depth-first order.
pub open spec fn spec_all_buses(bs: Seq<USBBus>) -> Seq<USBDevice>
    decreases bs.len(),
{
    if bs.len() == 0 {
        Seq::empty()
    } else {
        (match bs[0].devices {
            Some(ds) => spec_all_list(ds@),
            None => Seq::empty(),
        }) + spec_all_buses(bs.drop_first())
    }
}

/// The height of one device's subtree: one for the device itself plus the
/// height of the forest below it.
pub open spec fn spec_dev_height(d: USBDevice) -> nat
    decreases d, 0int,
{
    1 + (if d.devices is Some {
        spec_forest_height(d.devices->Some_0@)
    } else {
        0nat
    })
}

/// The height of a forest: that of its tallest tree, zero when empty.
pub open spec fn spec_forest_height(ds: Seq<USBDevice>) -> nat
    decreases ds, ds.len(),
{
    if ds.len() == 0 {
        0
    } else if spec_dev_height(ds[0]) >= spec_forest_height(ds.drop_first()) {
        spec_dev_height(ds[0])
    } else {
        spec_forest_height(ds.drop_first())
    }
}

/// Every tree of a forest is bounded by the forest's height.
pub proof fn lemma_forest_height_elem(ds: Seq<USBDevice>, i: int)
    requires
        0 <= i < ds.len(),
    ensures
        spec_dev_height(ds[i]) <= spec_forest_height(ds),
    decreases ds.len(),
{
    if i > 0 {
        lemma_forest_height_elem(ds.drop_first(), i - 1);
        assert(ds.drop_first()[i - 1] == ds[i]);
    }
}

/// A filter over devices.  A field left `None` matches everything; the
/// matching rule itself is the concern of the caller that builds the
/// filter, this layer only applies it.
#[derive(Clone, Debug)]
pub struct USBFilter {
    /// Keep only devices with this vendor id.
    pub vid: Option<u16>,
    /// Keep only devices with this product id.
    pub pid: Option<u16>,
    /// Also drop hubs that the filter leaves empty.
    pub exclude_empty_hub: bool,
}

/// Whether a device itself satisfies the filter.
pub open spec fn spec_filter_matches(f: USBFilter, d: USBDevice) -> bool {
    &&& (f.vid is Some ==> d.vendor_id == f.vid)
    &&& (f.pid is Some ==> d.product_id == f.pid)
}

/// Whether a device, or any device below it, satisfies the filter.
pub open spec fn spec_subtree_matches(f: USBFilter, d: USBDevice) -> bool
    decreases d, 0int,
{
    spec_filter_matches(f, d) || (d.devices is Some && spec_list_subtree_matches(
        f,
        d.devices->Some_0@,
    ))
}

/// Whether any device of the forest, or below it, satisfies the filter.
pub open spec fn spec_list_subtree_matches(f: USBFilter, ds: Seq<USBDevice>) -> bool
    decreases ds, ds.len(),
{
    if ds.len() == 0 {
        false
    } else {
        spec_subtree_matches(f, ds[0]) || spec_list_subtree_matches(f, ds.drop_first())
    }
}

/// Whether `nd` is `od` after filtering: every other field kept, and the
/// child list reduced by the same rule.
pub open spec fn spec_retained_dev(f: USBFilter, od: USBDevice, nd: USBDevice) -> bool
    decreases od, 0int,
{
    &&& nd == USBDevice { devices: nd.devices, ..od }
    &&& match (od.devices, nd.devices) {
        (Some(ocs), Some(ncs)) => spec_retained_list(f, ocs@, ncs@),
        (None, None) => true,
        _ => false,
    }
}

/// Whether `ns` is `os` after filtering: a device is kept, with its own
/// children filtered, exactly when its subtree holds a match.
pub open spec fn spec_retained_list(f: USBFilter, os: Seq<USBDevice>, ns: Seq<USBDevice>) -> bool
    decreases os, os.len(),
{
    if os.len() == 0 {
        ns.len() == 0
    } else if spec_subtree_matches(f, os[0]) {
        ns.len() > 0 && spec_retained_dev(f, os[0], ns[0]) && spec_retained_list(
            f,
            os.drop_first(),
            ns.drop_first(),
        )
    } else {
        spec_retained_list(f, os.drop_first(), ns)
    }
}

impl USBFilter {
    /// Whether the device itself satisfies the filter.
    pub fn is_match(&self, d: &USBDevice) -> (r: bool)
        ensures
            r == spec_filter_matches(*self, *d),
    {
        let vid_ok = match (self.vid, d.vendor_id) {
            (Some(v), Some(dv)) => v == dv,
            (Some(v), None) => false,
            (None, _) => true,
        };
        let pid_ok = match (self.pid, d.product_id) {
            (Some(p), Some(dp)) => p == dp,
            (Some(p), None) => false,
            (None, _) => true,
        };
        vid_ok && pid_ok
    }

    /// Whether the device, or any device below it, satisfies the filter.
    pub fn subtree_match(&self, d: &USBDevice) -> (r: bool)
        ensures
            r == spec_subtree_matches(*self, *d),
        decreases *d, 0int,
    {
        if self.is_match(d) {
            true
        } else {
            match d.devices.as_ref() {
                Some(cs) => {
                    proof {
                        assert(cs@.skip(0) =~= cs@);
                    }
                    self.list_subtree_match(cs, 0)
                },
                None => false,
            }
        }
    }

    fn list_subtree_match(&self, ds: &Vec<USBDevice>, from: usize) -> (r: bool)
        requires
            from <= ds@.len(),
        ensures
            r == spec_list_subtree_matches(*self, ds@.skip(from as int)),
        decreases ds@, ds@.len() - from,
    {
        if from == ds.len() {
            proof {
                assert(ds@.skip(from as int) =~= Seq::<USBDevice>::empty());
            }
            false
        } else {
            proof {
                assert(ds@.skip(from as int)[0] == ds@[from as int]);
                assert(ds@.skip(from as int).drop_first() =~= ds@.skip(from as int + 1));
            }
            if self.subtree_match(&ds[from]) {
                true
            } else {
                self.list_subtree_match(ds, from + 1)
            }
        }
    }

    fn retain_device(&self, d: USBDevice) -> (r: USBDevice)
        ensures
            spec_retained_dev(*self, d, r),
        decreases d, 0int,
    {
        let mut d = d;
        let ghost d0 = d;
        let children = d.devices.take();
        match children {
            Some(cs) => {
                let kept = self.retain_device_list(cs);
                d.devices = Some(kept);
            },
            None => {},
        }
        d
    }

    fn retain_device_list(&self, ds: Vec<USBDevice>) -> (r: Vec<USBDevice>)
        ensures
            spec_retained_list(*self, ds@, r@),
        decreases ds@, ds@.len(),
    {
        let mut ds = ds;
        if ds.len() == 0 {
            proof {
                assert(ds@ =~= Seq::<USBDevice>::empty());
            }
            ds
        } else {
            let ghost ds0 = ds@;
            let first = ds.remove(0);
            proof {
                assert(ds@ =~= ds0.drop_first());
            }
            let keep = self.subtree_match(&first);
            let rest = self.retain_device_list(ds);
            if keep {
                let kept_first = self.retain_device(first);
                let mut r: Vec<USBDevice> = Vec::new();
                r.push(kept_first);
                let ghost rest0 = rest@;
                let mut rest = rest;
                r.append(&mut rest);
                proof {
                    assert(r@[0] == kept_first);
                    assert(r@.drop_first() =~= rest0);
                }
                r
            } else {
                rest
            }
        }
    }

    /// Filter every bus's device tree in place: a device is kept, with its
    /// own children filtered likewise, exactly when it or a device below it
    /// matches, so parents of matches survive even when they do not match
    /// themselves.
    pub fn retain_buses(&self, buses: &mut Vec<USBBus>)
        ensures
            final (buses)@.len() == old(buses)@.len(),
            forall|i: int|
                0 <= i < old(buses)@.len() ==> spec_filtered_bus(
                    *self,
                    old(buses)@[i],
                    #[trigger] final (buses)@[i],
                ),
    {
        let n = buses.len();
        let mut i: usize = 0;
        while i < n
            invariant
                n == old(buses)@.len(),
                buses@.len() == n,
                i <= n,
                forall|j: int|
                    0 <= j < i ==> spec_filtered_bus(
                        *self,
                        old(buses)@[j],
                        #[trigger] buses@[j],
                    ),
                forall|j: int| i <= j < n ==> buses@[j] == old(buses)@[j],
            decreases n - i,
        {
            let mut bus = buses.remove(i);
            let ghost bus0 = bus;
            let ds = bus.devices.take();
            match ds {
                Some(ds) => {
                    let kept = self.retain_device_list(ds);
                    bus.devices = Some(kept);
                },
                None => {},
            }
            proof {
                assert(spec_filtered_bus(*self, bus0, bus));
            }
            buses.insert(i, bus);
            i = i + 1;
        }
    }
}

/// Whether a filtered bus relates to its original: every field kept, and
/// the device list reduced by the filter's rule.
pub open spec fn spec_filtered_bus(f: USBFilter, ob: USBBus, nb: USBBus) -> bool {
    &&& nb == USBBus { devices: nb.devices, ..ob }
    &&& match (ob.devices, nb.devices) {
        (Some(ods), Some(nds)) => spec_retained_list(f, ods@, nds@),
        (None, None) => true,
        _ => false,
    }
}

/// Whether the forest `ds` holds the device `d`, at any depth.
pub open spec fn spec_tree_contains(ds: Seq<USBDevice>, d: USBDevice) -> bool
    decreases ds, ds.len(),
{
    if ds.len() == 0 {
        false
    } else {
        ds[0] == d || (ds[0].devices is Some && spec_tree_contains(ds[0].devices->Some_0@, d))
            || spec_tree_contains(ds.drop_first(), d)
    }
}

/// Flattening keeps every device of the tree: the flattened list holds the
/// stripped form of each one.
pub proof fn lemma_flatten_contains(ds: Seq<USBDevice>, d: USBDevice)
    requires
        spec_tree_contains(ds, d),
    ensures
        spec_flatten_list(ds).contains(spec_strip(d)),
    decreases ds, ds.len(),
{
    let fl = spec_flatten_list(ds);
    let head = spec_flatten_device(ds[0]);
    let rest = spec_flatten_list(ds.drop_first());
    if ds[0] == d {
        assert(head[0] == spec_strip(d));
        assert(fl[0] == spec_strip(d));
    } else if ds[0].devices is Some && spec_tree_contains(ds[0].devices->Some_0@, d) {
        lemma_flatten_contains(ds[0].devices->Some_0@, d);
        let sub = spec_flatten_list(ds[0].devices->Some_0@);
        let j = choose|j: int| 0 <= j < sub.len() && sub[j] == spec_strip(d);
        assert(head[1 + j] == spec_strip(d));
        assert(fl[1 + j] == spec_strip(d));
    } else {
        lemma_flatten_contains(ds.drop_first(), d);
        let j = choose|j: int| 0 <= j < rest.len() && rest[j] == spec_strip(d);
        assert(fl[head.len() + j] == spec_strip(d));
    }
}

proof fn lemma_retained_keeps_one(
    f: USBFilter,
    fl: Seq<USBDevice>,
    kept: Seq<USBDevice>,
    x: USBDevice,
)
    requires
        spec_retained_list(f, fl, kept),
        fl.contains(x),
        spec_filter_matches(f, x),
        x.devices is None,
    ensures
        kept.contains(x),
    decreases fl.len(),
{
    if fl[0] == x {
        assert(spec_subtree_matches(f, fl[0]));
        assert(spec_retained_dev(f, x, kept[0]));
        assert(kept[0] == x);
        assert(kept.contains(kept[0]));
    } else {
        let j = choose|j: int| 0 <= j < fl.len() && fl[j] == x;
        assert(fl.drop_first()[j - 1] == x);
        assert(fl.drop_first().contains(x));
        if spec_subtree_matches(f, fl[0]) {
            lemma_retained_keeps_one(f, fl.drop_first(), kept.drop_first(), x);
            let k = choose|k: int|
                0 <= k < kept.drop_first().len() && kept.drop_first()[k] == x;
            assert(kept[k + 1] == x);
            assert(kept.contains(kept[k + 1]));
        } else {
            lemma_retained_keeps_one(f, fl.drop_first(), kept, x);
        }
    }
}

/// Flattening a tree and then filtering the flat list keeps every device
/// of the tree that matches the filter: its stripped form stands in the
/// kept list.
pub proof fn lemma_flatten_then_filter(f: USBFilter, ds: Seq<USBDevice>, kept: Seq<USBDevice>)
    requires
        spec_retained_list(f, spec_flatten_list(ds), kept),
    ensures
        forall|d: USBDevice|
            spec_tree_contains(ds, d) && spec_filter_matches(f, d) ==> kept.contains(
                spec_strip(d),
            ),
{
    assert forall|d: USBDevice|
        spec_tree_contains(ds, d) && spec_filter_matches(f, d) implies kept.contains(
        spec_strip(d),
    ) by {
        lemma_flatten_contains(ds, d);
        assert(spec_filter_matches(f, spec_strip(d)));
        lemma_retained_keeps_one(f, spec_flatten_list(ds), kept, spec_strip(d));
    }
}

/// Flattening every bus and then filtering the flat lists preserves every
/// originally matching device: its stripped form stands in the filtered
/// bus's list.
pub proof fn lemma_flatten_filter_buses(
    f: USBFilter,
    ob: Seq<USBBus>,
    flat: Seq<USBBus>,
    kept: Seq<USBBus>,
)
    requires
        flat.len() == ob.len(),
        kept.len() == ob.len(),
        forall|i: int| 0 <= i < ob.len() ==> spec_flattened_bus(ob[i], #[trigger] flat[i]),
        forall|i: int| 0 <= i < ob.len() ==> spec_filtered_bus(f, flat[i], #[trigger] kept[i]),
    ensures
        forall|i: int, d: USBDevice|
            0 <= i < ob.len() && ob[i].devices is Some && spec_tree_contains(
                ob[i].devices->Some_0@,
                d,
            ) && spec_filter_matches(f, d) ==> (#[trigger] kept[i]).devices is Some
                && kept[i].devices->Some_0@.contains(#[trigger] spec_strip(d)),
{
    assert forall|i: int, d: USBDevice|
        0 <= i < ob.len() && ob[i].devices is Some && spec_tree_contains(
            ob[i].devices->Some_0@,
            d,
        ) && spec_filter_matches(f, d) implies (#[trigger] kept[i]).devices is Some
        && kept[i].devices->Some_0@.contains(#[trigger] spec_strip(d)) by {
        assert(spec_flattened_bus(ob[i], flat[i]));
        assert(spec_filtered_bus(f, flat[i], kept[i]));
        assert(flat[i].devices->Some_0@ == spec_flatten_list(ob[i].devices->Some_0@));
        lemma_flatten_then_filter(f, ob[i].devices->Some_0@, kept[i].devices->Some_0@);
    }
}

proof fn lemma_all_buses_snoc(bs: Seq<USBBus>, i: int)
    requires
        0 <= i < bs.len(),
    ensures
        spec_all_buses(bs.take(i + 1)) =~= spec_all_buses(bs.take(i)) + (match bs[i].devices {
            Some(ds) => spec_all_list(ds@),
            None => Seq::empty(),
        }),
    decreases i,
{
    let pre1 = bs.take(i + 1);
    let pre = bs.take(i);
    if i == 0 {
        assert(pre1[0] == bs[0]);
        assert(pre1.drop_first() =~= Seq::<USBBus>::empty());
        assert(pre =~= Seq::<USBBus>::empty());
        assert(spec_all_buses(pre) == Seq::<USBDevice>::empty());
    } else {
        assert(pre1[0] == bs[0]);
        assert(pre1.drop_first() =~= bs.drop_first().take(i));
        assert(pre[0] == bs[0]);
        assert(pre.drop_first() =~= bs.drop_first().take(i - 1));
        lemma_all_buses_snoc(bs.drop_first(), i - 1);
        assert(bs.drop_first()[i - 1] == bs[i]);
    }
}

} // verus!
