//! Development-server configuration.
//!
//! The configuration the engine consumes: the project directories, the
//! watched sub-paths, and the flags that steer hot reloading and the static
//! host page. It is produced elsewhere and handed in at startup.
use vstd::prelude::*;

verus! {

/// Configuration for one development-server run.
#[derive(Clone, Debug)]
pub struct ServerConfig {
    /// The project root directory.
    pub crate_dir: Vec<u8>,
    /// The build output directory, relative to the project root.
    pub out_dir: Vec<u8>,
    /// Sub-paths of the project root watched recursively for edits.
    pub watch_paths: Vec<Vec<u8>>,
    /// Whether edits are hot-classified rather than always rebuilt.
    pub hot_reload: bool,
    /// Whether the build is a release build.
    pub release: bool,
    /// The name of a custom build profile, where one is configured.
    pub custom_profile: Option<String>,
    /// Whether the static host page is regenerated after a successful
    /// rebuild.
    pub reload_html: bool,
    /// Whether a missing file is answered with the index page.
    pub index_on_404: bool,
}

} // verus!
