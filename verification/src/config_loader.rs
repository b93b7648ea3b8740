//! The plain data model of the configuration file: which physical devices
//! exist and how the logical output axes are fed from them. Reading and
//! parsing the file itself is left to the unverified shell around the
//! library, which hands over values of these types.

use vstd::prelude::*;

verus! {

/// One named physical input device: the device node to open and the name
/// that output-axis stanzas refer to it by.
#[derive(Debug, Clone)]
pub struct ConfigInput {
    pub device: String,
    pub name: String,
}

/// One input-axis reference inside an output-axis stanza: the configured
/// name of the device and the raw event code on that device.
#[derive(Debug, Clone)]
pub struct ConfigInputAxis {
    pub js: String,
    pub axis: u16,
}

/// Which combine rule an output axis may name.
#[derive(Debug, Clone)]
pub enum ConfigCombineFn {
    Max,
    Hat { x: ConfigInputAxis, y: ConfigInputAxis },
}

/// One output-axis stanza: the logical axis id, the combine rule by name,
/// and the input axes that feed it.
#[derive(Debug, Clone)]
pub struct ConfigOutput {
    pub axis_id: u16,
    pub combine_fn: String,
    pub inputs: Vec<ConfigInputAxis>,
}

/// The whole configuration file: the devices and the output axes.
#[derive(Debug, Clone)]
pub struct Config {
    pub inputs: Vec<ConfigInput>,
    pub outputs: Vec<ConfigOutput>,
}

} // verus!
