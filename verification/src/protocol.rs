//! The messages exchanged between the control panel and a host.

use vstd::prelude::*;

use crate::display::Display as RenderDisplay;

verus! {

/// A number in a [`Structure`], as JSON numbers come.
#[derive(Clone, Copy, Debug, PartialEq, Eq, Structural)]
pub enum StructureNumber {
    /// A non-negative integer.
    PosInt(u64),
    /// A negative integer.
    NegInt(i64),
    /// A floating point number, held as the bits of its `f64`.
    Float(u64),
}

/// A JSON-like value that can travel over IPC.
#[derive(Debug)]
pub enum Structure {
    Null,
    Bool(bool),
    Number(StructureNumber),
    String(String),
    Array(Vec<Structure>),
    /// The entries of an object, in the order they were given; where a key repeats, the
    /// last entry with it is the one that counts.
    Object(Vec<(String, Structure)>),
}

/// A module installed in a host, with its configuration.
#[derive(Debug)]
pub struct InstalledModule {
    pub ty: String,
    pub configuration: Structure,
}

/// The modules of a host, in drawing order.
#[derive(Debug)]
pub struct Configuration {
    pub modules: Vec<InstalledModule>,
}

/// A request to replace the configuration of a module.
#[derive(Debug)]
pub struct ChangeConfiguration {
    pub module: usize,
    pub new_configuration: Structure,
}

/// A display as it is reported to the control panel.
#[derive(Debug)]
pub struct Display {
    pub name: String,
    pub id: String,
    pub x: i32,
    pub y: i32,
    pub width: i32,
    pub height: i32,
    pub primary: bool,
}

impl Display {
    /// The report of a display the renderer knows.
    pub fn from_display(display: &RenderDisplay) -> (report: Self)
        ensures
            report.name@ == display@.name,
            report.id@ == display@.id,
            report.x == display@.x,
            report.y == display@.y,
            report.width == display@.width,
            report.height == display@.height,
            report.primary == display@.primary,
    {
        Self {
            name: display.name().clone(),
            id: display.id().clone(),
            x: display.x(),
            y: display.y(),
            width: display.width(),
            height: display.height(),
            primary: display.primary(),
        }
    }
}

/// A message from the control panel to a host.
#[derive(Debug)]
pub enum ClientMessage {
    QueryConfiguration,
    QueryDisplays,
    ReorderModules(usize, usize),
    ChangeConfiguration(ChangeConfiguration),
    AddModule(String),
    RemoveModule(usize),
}

/// A message from a host to the control panel.
#[derive(Debug)]
pub enum ServerMessage {
    UpdateConfiguration(Configuration),
    UpdateDisplays(Vec<Display>),
    Heartbeat,
}

/// A message that travels over IPC.
pub trait IPCMessage {}

impl IPCMessage for ClientMessage {}

impl IPCMessage for ServerMessage {}

} // verus!
