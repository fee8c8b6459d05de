use vstd::prelude::*;

verus! {

/// What the host was asked to do on its command line.
pub struct Cli {
    /// Directory containing plugin manifests.
    pub plugins_dir: Option<String>,
    /// Start without loading any plugins.
    pub safe_mode: bool,
    pub command: Command,
}

#[derive(Debug, Clone, Copy, PartialEq, Eq, Structural)]
pub enum Command {
    /// Run the host: start all plugins and wait for an interrupt.
    Run,
    /// Operations on plugins.
    Plugin { command: PluginCommand },
}

#[derive(Debug, Clone, Copy, PartialEq, Eq, Structural)]
pub enum PluginCommand {
    /// List discovered plugins.
    List,
}

} // verus!
