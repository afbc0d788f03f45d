//! Configuration of the game-data integration: where the data lives, which archives and
//! plugins it loads, and the handle shared with the rest of an app.

use vstd::prelude::*;
use vstd::string::StringExecFns;
use std::sync::Arc;
use crate::vfs::TesVfs;

verus! {

/// The name of the asset source the integration registers: game data is loaded with
/// paths like `tes://meshes/i/in_de_shack_01.nif`.
pub const TES_SOURCE: &'static str = "tes";

/// Shared handle to the game-data VFS, so every consumer queries the same layered view.
#[derive(Clone)]
pub struct TesVfsHandle(pub Arc<TesVfs>);

/// Serving a `Data Files` directory: its loose files and archives.
#[derive(Debug, Clone)]
pub struct BethPlugin {
    /// The `Data Files` directory the VFS serves (loose files + `*.bsa`).
    pub data_root: String,
    /// Explicit archive load order (later archives override earlier ones). `None`
    /// discovers `*.bsa` at the root ordered by modification time, which reproduces the
    /// vanilla game's effective order.
    pub archives: Option<Vec<String>>,
}

impl BethPlugin {
    /// Serve `data_root` with auto-discovered archives.
    pub fn new(data_root: &str) -> (p: BethPlugin)
        ensures
            p.data_root@ == data_root@,
            p.archives is None,
    {
        BethPlugin { data_root: String::from_str(data_root), archives: None }
    }
}

impl Default for BethPlugin {
    /// Serves `"data"`, the conventional game-data directory.
    fn default() -> (p: BethPlugin)
        ensures
            p.data_root@ == "data"@,
            p.archives is None,
    {
        BethPlugin::new("data")
    }
}

/// Serving a `Data Files` directory and, optionally, a plugin load order read from it.
#[derive(Debug, Clone)]
pub struct TesPlugin {
    /// The `Data Files` directory the VFS serves (loose files + `*.bsa`).
    pub data_root: String,
    /// Explicit archive load order (later archives override earlier ones). `None`
    /// discovers `*.bsa` at the root ordered by modification time.
    pub archives: Option<Vec<String>>,
    /// Plugin files to parse into the app's load order, as paths relative to
    /// `data_root`, earliest first (later plugins override earlier ones). Empty: no load
    /// order is built.
    pub plugins: Vec<String>,
}

impl TesPlugin {
    /// Serve `data_root` with auto-discovered archives and no load order.
    pub fn new(data_root: &str) -> (p: TesPlugin)
        ensures
            p.data_root@ == data_root@,
            p.archives is None,
            p.plugins@.len() == 0,
    {
        TesPlugin { data_root: String::from_str(data_root), archives: None, plugins: Vec::new() }
    }

    /// Set the plugin load order (earliest first), keeping everything else.
    pub fn with_plugins(self, plugins: Vec<String>) -> (p: TesPlugin)
        ensures
            p.data_root == self.data_root,
            p.archives == self.archives,
            p.plugins == plugins,
    {
        TesPlugin { data_root: self.data_root, archives: self.archives, plugins }
    }
}

impl Default for TesPlugin {
    /// Serves `"data"`, the conventional game-data directory.
    fn default() -> (p: TesPlugin)
        ensures
            p.data_root@ == "data"@,
            p.archives is None,
            p.plugins@.len() == 0,
    {
        TesPlugin::new("data")
    }
}

/// Texture-splatted terrain rendering, added alongside the data integration.
#[derive(Debug, Clone, Copy)]
pub struct TerrainPlugin;

} // verus!
