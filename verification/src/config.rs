//! Configuration data for the host process: which plugins exist, how to
//! launch them, and which devices they back. The core consumes this data;
//! producing it (reading and parsing a configuration file) is I/O and
//! lives at the process edge, outside the library.

use vstd::prelude::*;

use std::collections::HashMap;

verus! {

/// One named plugin: what it is and how to launch it.
#[derive(Debug)]
pub struct PluginConfig {
    /// A human-readable description.
    pub description: String,
    /// The command that starts the plugin executable.
    pub command: String,
}

/// One device, backed by a plugin named in the plugin table.
#[derive(Debug)]
pub struct DeviceConfig {
    /// The name of the plugin that serves this device.
    pub plugin: String,
}

/// The host's node-level configuration: a plugin table and the devices
/// wired to it.
#[derive(Debug)]
pub struct NodeConfig {
    pub plugins: HashMap<String, PluginConfig>,
    pub devices: Vec<DeviceConfig>,
}

/// Where the host itself listens.
#[derive(Debug)]
pub struct NetworkConfig {
    /// The host address, as text.
    pub host: String,
    pub port: u16,
}

/// The full host configuration: network settings beside the plugin and
/// device tables.
#[derive(Debug)]
pub struct Config {
    pub network: NetworkConfig,
    pub plugins: HashMap<String, PluginConfig>,
    pub devices: Vec<DeviceConfig>,
}

} // verus!
