//! Console summary labels.
//!
//! The startup banner reports how the server runs. The labels are computed
//! here from the configuration; printing them, and clearing the screen, is
//! I/O and stays with the caller.
use vstd::prelude::*;

use crate::config::ServerConfig;

verus! {

/// The profile label: a configured custom profile's own name, else the
/// release or debug default.
pub fn profile_label(config: &ServerConfig) -> (r: String)
    ensures
        config.custom_profile matches Some(p) ==> r@ == p@,
        config.custom_profile is None && config.release ==> r@ == "Release"@,
        config.custom_profile is None && !config.release ==> r@ == "Debug"@,
{
    match &config.custom_profile {
        Some(p) => p.clone(),
        None => {
            if config.release {
                "Release".to_owned()
            } else {
                "Debug".to_owned()
            }
        },
    }
}

/// The hot-reload label: whether edits are hot-classified or always
/// rebuilt.
pub fn hot_reload_label(config: &ServerConfig) -> (r: String)
    ensures
        config.hot_reload ==> r@ == "RSX"@,
        !config.hot_reload ==> r@ == "Normal"@,
{
    if config.hot_reload {
        "RSX".to_owned()
    } else {
        "Normal".to_owned()
    }
}

/// The URL-rewrite label: whether a missing file is answered with the index
/// page.
pub fn url_rewrite_label(config: &ServerConfig) -> (r: String)
    ensures
        config.index_on_404 ==> r@ == "True"@,
        !config.index_on_404 ==> r@ == "False"@,
{
    if config.index_on_404 {
        "True".to_owned()
    } else {
        "False".to_owned()
    }
}

/// The index-template label: whether the project brings its own host page.
/// Whether one lies on disk is the caller's to find out.
pub fn index_template_label(has_custom_index: bool) -> (r: String)
    ensures
        has_custom_index ==> r@ == "Custom [index.html]"@,
        !has_custom_index ==> r@ == "Default"@,
{
    if has_custom_index {
        "Custom [index.html]".to_owned()
    } else {
        "Default".to_owned()
    }
}

} // verus!
