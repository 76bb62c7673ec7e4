//! The settings store: the decisions of the save and load paths, with the
//! file system itself kept outside. A caller resolves the config directory
//! and writes the rendered document; everything that can be decided from
//! plain values is decided — and proved — here.

use vstd::prelude::*;
use crate::codec::{render_settings, render_settings_model, parse_settings, sp_settings_doc};
use crate::settings::{AppSettings, SaveError};

verus! {

/// The save path up to the write: with no config directory the save fails
/// with `ConfigDirUnavailable` and nothing is rendered; otherwise the
/// document to write is rendered from the snapshot. Rendering itself cannot
/// fail, so `SerializationFailed` is never produced here.
pub fn prepare_save(settings: &AppSettings, dir_available: bool) -> (r: Result<String, SaveError>)
    ensures
        !dir_available ==> (r matches Err(e) && e is ConfigDirUnavailable),
        dir_available ==> (r matches Ok(doc) && doc@ == render_settings_model(settings@)),
{
    if !dir_available {
        Err(SaveError::ConfigDirUnavailable)
    } else {
        Ok(render_settings(settings))
    }
}

/// The load path after the read: a missing file (`None`) and a malformed
/// document both give nothing, so the caller falls back to defaults; a
/// well-formed document gives exactly the snapshot it holds.
pub fn load_settings_data(data: Option<&str>) -> (r: Option<AppSettings>)
    ensures
        data is None ==> r is None,
        data matches Some(d) ==> match sp_settings_doc(d@) {
            Some(m) => r matches Some(s) && s@ == m,
            None => r is None,
        },
{
    match data {
        None => None,
        Some(d) => parse_settings(d),
    }
}

} // verus!
