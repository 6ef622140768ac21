//! Leaf entity types of the descriptor tree: configurations, interfaces and
//! endpoints, with the small closed enums their attributes use.  All fields
//! are plain values so that every attribute a column can show is specified.

use vstd::prelude::*;
use vstd::string::*;
use crate::text::{dec_u64, join_with, spec_dec, spec_join};

verus! {

/// Direction of data flow at an endpoint.
#[derive(Clone, Copy, Debug, PartialEq, Eq, Structural)]
pub enum Direction {
    /// Host to device.
    Out,
    /// Device to host.
    In,
}

/// Transfer kind an endpoint accepts.
#[derive(Clone, Copy, Debug, PartialEq, Eq, Structural)]
pub enum TransferType {
    Control,
    Isochronous,
    Bulk,
    Interrupt,
}

/// Synchronisation type (isochronous mode).
#[derive(Clone, Copy, Debug, PartialEq, Eq, Structural)]
pub enum SyncType {
    NoSync,
    Asynchronous,
    Adaptive,
    Synchronous,
}

/// Usage type (isochronous mode).
#[derive(Clone, Copy, Debug, PartialEq, Eq, Structural)]
pub enum UsageType {
    Data,
    Feedback,
    FeedbackData,
    Reserved,
}

/// One flag of a configuration's `bmAttributes`.
#[derive(Clone, Copy, Debug, PartialEq, Eq, Structural)]
pub enum ConfigAttributes {
    SelfPowered,
    RemoteWakeup,
}

/// The label shown for a [`Direction`].
pub open spec fn spec_direction_str(d: Direction) -> Seq<char> {
    match d {
        Direction::Out => "Out"@,
        Direction::In => "In"@,
    }
}

/// The label shown for a [`TransferType`].
pub open spec fn spec_transfer_str(t: TransferType) -> Seq<char> {
    match t {
        TransferType::Control => "Control"@,
        TransferType::Isochronous => "Isochronous"@,
        TransferType::Bulk => "Bulk"@,
        TransferType::Interrupt => "Interrupt"@,
    }
}

/// The label shown for a [`SyncType`].
pub open spec fn spec_sync_str(t: SyncType) -> Seq<char> {
    match t {
        SyncType::NoSync => "None"@,
        SyncType::Asynchronous => "Asynchronous"@,
        SyncType::Adaptive => "Adaptive"@,
        SyncType::Synchronous => "Synchronous"@,
    }
}

/// The label shown for a [`UsageType`].
pub open spec fn spec_usage_str(t: UsageType) -> Seq<char> {
    match t {
        UsageType::Data => "Data"@,
        UsageType::Feedback => "Feedback"@,
        UsageType::FeedbackData => "FeedbackData"@,
        UsageType::Reserved => "Reserved"@,
    }
}

/// The label shown for one [`ConfigAttributes`] flag.
pub open spec fn spec_attribute_str(a: ConfigAttributes) -> Seq<char> {
    match a {
        ConfigAttributes::SelfPowered => "self-powered"@,
        ConfigAttributes::RemoteWakeup => "remote-wakeup"@,
    }
}

impl Direction {
    /// The label shown for this direction.
    pub fn display(&self) -> (r: String)
        ensures
            r@ == spec_direction_str(*self),
    {
        match self {
            Direction::Out => String::from_str("Out"),
            Direction::In => String::from_str("In"),
        }
    }
}

impl TransferType {
    /// The label shown for this transfer type.
    pub fn display(&self) -> (r: String)
        ensures
            r@ == spec_transfer_str(*self),
    {
        match self {
            TransferType::Control => String::from_str("Control"),
            TransferType::Isochronous => String::from_str("Isochronous"),
            TransferType::Bulk => String::from_str("Bulk"),
            TransferType::Interrupt => String::from_str("Interrupt"),
        }
    }
}

impl SyncType {
    /// The label shown for this synchronisation type.
    pub fn display(&self) -> (r: String)
        ensures
            r@ == spec_sync_str(*self),
    {
        match self {
            SyncType::NoSync => String::from_str("None"),
            SyncType::Asynchronous => String::from_str("Asynchronous"),
            SyncType::Adaptive => String::from_str("Adaptive"),
            SyncType::Synchronous => String::from_str("Synchronous"),
        }
    }
}

impl UsageType {
    /// The label shown for this usage type.
    pub fn display(&self) -> (r: String)
        ensures
            r@ == spec_usage_str(*self),
    {
        match self {
            UsageType::Data => String::from_str("Data"),
            UsageType::Feedback => String::from_str("Feedback"),
            UsageType::FeedbackData => String::from_str("FeedbackData"),
            UsageType::Reserved => String::from_str("Reserved"),
        }
    }
}

impl ConfigAttributes {
    /// The label shown for this attribute flag.
    pub fn display(&self) -> (r: String)
        ensures
            r@ == spec_attribute_str(*self),
    {
        match self {
            ConfigAttributes::SelfPowered => String::from_str("self-powered"),
            ConfigAttributes::RemoteWakeup => String::from_str("remote-wakeup"),
        }
    }
}

/// Address of an endpoint on its interface.
#[derive(Clone, Copy, Debug, PartialEq, Eq, Structural)]
pub struct EndpointAddress {
    /// Raw `bEndpointAddress`.
    pub address: u8,
    /// Endpoint number, the low bits of the address.
    pub number: u8,
    /// Direction bit of the address.
    pub direction: Direction,
}

/// One endpoint of an interface.
#[derive(Clone, Debug)]
pub struct USBEndpoint {
    /// Address of the endpoint.
    pub address: EndpointAddress,
    /// Transfer kind the endpoint accepts.
    pub transfer_type: TransferType,
    /// Synchronisation type (isochronous mode).
    pub sync_type: SyncType,
    /// Usage type (isochronous mode).
    pub usage_type: UsageType,
    /// Largest packet, in bytes, the endpoint sends or receives.
    pub max_packet_size: u16,
    /// Polling interval in frame counts.
    pub interval: u8,
}

/// Rendering of an endpoint's maximum packet size.
pub open spec fn spec_max_packet_str(e: &USBEndpoint) -> Seq<char> {
    spec_dec(e.max_packet_size as nat)
}

impl USBEndpoint {
    /// The maximum packet size rendered in decimal.
    pub fn max_packet_string(&self) -> (r: String)
        ensures
            r@ == spec_max_packet_str(self),
    {
        dec_u64(self.max_packet_size as u64)
    }
}

/// One interface of a configuration.
#[derive(Clone, Debug)]
pub struct USBInterface {
    /// Name from the string descriptor.
    pub name: String,
    /// Interface number.
    pub number: u8,
    /// Port path of the interface.
    pub path: String,
    /// Class name of the interface.
    pub class: String,
    /// Sub-class code.
    pub sub_class: u8,
    /// Protocol code.
    pub protocol: u8,
    /// Alternate setting number.
    pub alt_setting: u8,
    /// Driver loaded for the interface, when known.
    pub driver: Option<String>,
    /// Syspath of the interface, when known.
    pub syspath: Option<String>,
    /// Endpoints of the interface.
    pub endpoints: Vec<USBEndpoint>,
}

/// One configuration of a device.
#[derive(Clone, Debug)]
pub struct USBConfiguration {
    /// Name from the string descriptor.
    pub name: String,
    /// `bConfigurationValue`: the value set to enable this configuration.
    pub number: u8,
    /// Flags of `bmAttributes`.
    pub attributes: Vec<ConfigAttributes>,
    /// Maximum current consumption in mA.
    pub max_power: u16,
    /// Interfaces available under this configuration.
    pub interfaces: Vec<USBInterface>,
}

/// Rendering of a configuration's attribute flags: the labels joined with
/// one space.
pub open spec fn spec_attributes_str(c: &USBConfiguration) -> Seq<char> {
    spec_join(c.attributes@.map_values(|a: ConfigAttributes| spec_attribute_str(a)), " "@)
}

impl USBConfiguration {
    /// The attribute flags rendered as space-separated labels.
    pub fn attributes_string(&self) -> (r: String)
        ensures
            r@ == spec_attributes_str(self),
    {
        let ghost views = self.attributes@.map_values(|a: ConfigAttributes| spec_attribute_str(a));
        let mut labels: Vec<String> = Vec::new();
        let mut i: usize = 0;
        while i < self.attributes.len()
            invariant
                i <= self.attributes.len(),
                views == self.attributes@.map_values(
                    |a: ConfigAttributes| spec_attribute_str(a),
                ),
                labels@.len() == i as int,
                forall|j: int| 0 <= j < i ==> labels@[j]@ == views[j],
            decreases self.attributes.len() - i,
        {
            labels.push(self.attributes[i].display());
            i = i + 1;
        }
        proof {
            assert(labels@.map_values(|s: String| s@) =~= views);
        }
        join_with(&labels, " ")
    }
}

} // verus!
