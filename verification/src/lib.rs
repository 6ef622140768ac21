//! Renders a hierarchical USB device-descriptor tree (bus, device,
//! configuration, interface, endpoint) as aligned, optionally coloured and
//! iconified terminal text.
//!
//! The crate is the presentation layer of a device-inventory tool: callers
//! build the entity tree, apply the pre-processing passes (flatten, filter,
//! sort, mask) and then render it either as a tree with box-drawing
//! connectors or as a flat list.  Every formatting decision (column padding,
//! numeric base, connector choice, prefix accumulation) is specified and
//! verified.

pub mod colour;
pub mod config;
pub mod display;
pub mod icon;
pub mod system_profiler;
pub mod text;
pub mod usb;
