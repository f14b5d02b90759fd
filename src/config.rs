//! The plugin's configuration and the container descriptor, and the rules
//! that combine them.
use vstd::prelude::*;

use crate::naming::{plugin_string, proc_entry, proc_entry_view, tagged};

verus! {

/// The node-wide configuration of the plugin.
#[derive(Clone, Debug)]
pub struct Config {
    pub skybox_enabled: bool,
    pub parallax_imagestore: String,
    pub parallax_mount_program: String,
    pub parallax_path: String,
    pub podman_module: String,
    pub podman_path: String,
    pub podman_tmp_path: String,
    pub dynconf_url: String,
    pub dynconf_path: String,
    pub tracking_enabled: bool,
    pub tracking_tool: String,
}

/// What the rendered environment descriptor gives the plugin: the image,
/// the engine to run it with, the stores, the working directory and the
/// environment variables (an empty value asks for the variable to be unset).
#[derive(Clone, Debug)]
pub struct Descriptor {
    pub image: String,
    pub podman_path: String,
    pub podman_module: String,
    pub podman_tmp_path: String,
    pub parallax_enable: bool,
    pub parallax_imagestore: String,
    pub parallax_mount_program: String,
    pub parallax_path: String,
    pub workdir: String,
    pub env: Vec<(String, String)>,
}

/// The first setting, in a fixed order, that the configuration leaves
/// empty.
pub open spec fn missing_setting(c: Config) -> Option<Seq<char>> {
    if c.parallax_imagestore@.len() == 0 {
        Some("parallax_imagestore"@)
    } else if c.parallax_mount_program@.len() == 0 {
        Some("parallax_mount_program"@)
    } else if c.parallax_path@.len() == 0 {
        Some("parallax_path"@)
    } else if c.podman_module@.len() == 0 {
        Some("podman_module"@)
    } else if c.podman_path@.len() == 0 {
        Some("podman_path"@)
    } else if c.podman_tmp_path@.len() == 0 {
        Some("podman_tmp_path"@)
    } else {
        None
    }
}

fn missing_error(name: &str) -> (r: Result<(), String>)
    ensures
        r matches Err(e) && e@ == tagged("cannot find "@ + name@),
{
    let mut msg = String::from_str("cannot find ");
    msg.append(name);
    Err(plugin_string(msg.as_str()))
}

/// Checks that every setting the plugin needs is there. Where one is
/// missing the plugin is disabled and the first missing one is named.
pub fn check_config(c: &mut Config) -> (r: Result<(), String>)
    ensures
        r is Ok <==> missing_setting(*old(c)) is None,
        forall|name: Seq<char>|
            missing_setting(*old(c)) == Some(name) ==> (r matches Err(e) && e@ == tagged(
                "cannot find "@ + name,
            )),
        final(c).skybox_enabled == (old(c).skybox_enabled && missing_setting(*old(c)) is None),
        final(c).parallax_imagestore == old(c).parallax_imagestore,
        final(c).parallax_mount_program == old(c).parallax_mount_program,
        final(c).parallax_path == old(c).parallax_path,
        final(c).podman_module == old(c).podman_module,
        final(c).podman_path == old(c).podman_path,
        final(c).podman_tmp_path == old(c).podman_tmp_path,
        final(c).dynconf_url == old(c).dynconf_url,
        final(c).dynconf_path == old(c).dynconf_path,
        final(c).tracking_enabled == old(c).tracking_enabled,
        final(c).tracking_tool == old(c).tracking_tool,
{
    let r = if c.parallax_imagestore.unicode_len() == 0 {
        missing_error("parallax_imagestore")
    } else if c.parallax_mount_program.unicode_len() == 0 {
        missing_error("parallax_mount_program")
    } else if c.parallax_path.unicode_len() == 0 {
        missing_error("parallax_path")
    } else if c.podman_module.unicode_len() == 0 {
        missing_error("podman_module")
    } else if c.podman_path.unicode_len() == 0 {
        missing_error("podman_path")
    } else if c.podman_tmp_path.unicode_len() == 0 {
        missing_error("podman_tmp_path")
    } else {
        Ok(())
    };
    if r.is_err() {
        c.skybox_enabled = false;
    }
    r
}

/// The engine settings a descriptor ends with: where it keeps a built-in
/// default (or leaves a store empty), the configuration's setting is taken.
pub open spec fn defaults_applied(old_d: Descriptor, new_d: Descriptor, c: Config) -> bool {
    &&& new_d.parallax_enable
    &&& new_d.parallax_imagestore@ == if old_d.parallax_imagestore@.len() == 0 {
        c.parallax_imagestore@
    } else {
        old_d.parallax_imagestore@
    }
    &&& new_d.parallax_mount_program@ == if old_d.parallax_mount_program@.len() == 0 {
        c.parallax_mount_program@
    } else {
        old_d.parallax_mount_program@
    }
    &&& new_d.parallax_path@ == if old_d.parallax_path@ == "parallax"@ {
        c.parallax_path@
    } else {
        old_d.parallax_path@
    }
    &&& new_d.podman_module@ == if old_d.podman_module@ == "hpc"@ {
        c.podman_module@
    } else {
        old_d.podman_module@
    }
    &&& new_d.podman_path@ == if old_d.podman_path@ == "podman"@ {
        c.podman_path@
    } else {
        old_d.podman_path@
    }
    &&& new_d.podman_tmp_path@ == if old_d.podman_tmp_path@ == "/dev/shm"@ {
        c.podman_tmp_path@
    } else {
        old_d.podman_tmp_path@
    }
    &&& new_d.image == old_d.image
    &&& new_d.workdir == old_d.workdir
    &&& new_d.env == old_d.env
}

/// Replaces the descriptor's built-in engine defaults by the settings of
/// the node's configuration.
pub fn apply_config_defaults(d: &mut Descriptor, c: &Config)
    ensures
        defaults_applied(*old(d), *final(d), *c),
{
    d.parallax_enable = true;
    if d.parallax_imagestore.unicode_len() == 0 {
        d.parallax_imagestore = c.parallax_imagestore.clone();
    }
    if d.parallax_mount_program.unicode_len() == 0 {
        d.parallax_mount_program = c.parallax_mount_program.clone();
    }
    if d.parallax_path == String::from_str("parallax") {
        d.parallax_path = c.parallax_path.clone();
    }
    if d.podman_module == String::from_str("hpc") {
        d.podman_module = c.podman_module.clone();
    }
    if d.podman_path == String::from_str("podman") {
        d.podman_path = c.podman_path.clone();
    }
    if d.podman_tmp_path == String::from_str("/dev/shm") {
        d.podman_tmp_path = c.podman_tmp_path.clone();
    }
}

/// Whether the plugin acts on this step: it must be enabled and the
/// descriptor must name an image.
pub fn is_enabled(c: &Config, d: &Option<Descriptor>) -> (r: bool)
    ensures
        r == (c.skybox_enabled && (d matches Some(x) && x.image@.len() > 0)),
{
    if !c.skybox_enabled {
        return false;
    }
    match d {
        Some(x) => x.image.unicode_len() > 0,
        None => false,
    }
}

/// Takes the plugin choice of the dynamic configuration service: `skybox`
/// enables the plugin, another name disables it, no name leaves it as is.
pub fn apply_dynconf(c: &mut Config, plugin: &str)
    ensures
        final(c).skybox_enabled == if plugin@ == "skybox"@ {
            true
        } else if plugin@.len() > 0 {
            false
        } else {
            old(c).skybox_enabled
        },
        final(c).parallax_imagestore == old(c).parallax_imagestore,
        final(c).parallax_mount_program == old(c).parallax_mount_program,
        final(c).parallax_path == old(c).parallax_path,
        final(c).podman_module == old(c).podman_module,
        final(c).podman_path == old(c).podman_path,
        final(c).podman_tmp_path == old(c).podman_tmp_path,
        final(c).dynconf_url == old(c).dynconf_url,
        final(c).dynconf_path == old(c).dynconf_path,
        final(c).tracking_enabled == old(c).tracking_enabled,
        final(c).tracking_tool == old(c).tracking_tool,
{
    let name = String::from_str(plugin);
    if name == String::from_str("skybox") {
        c.skybox_enabled = true;
    } else if name.unicode_len() > 0 {
        c.skybox_enabled = false;
    }
}

/// The user's own places to look for descriptors: `EDF_PATH` where it is
/// set, else `<HOME>/.edf` where the home is known, else none.
pub fn user_search_paths(edf_path: &str, home: &str) -> (r: Vec<String>)
    ensures
        edf_path@.len() > 0 ==> r@.len() == 1 && r@[0]@ == edf_path@,
        edf_path@.len() == 0 && home@.len() > 0 ==> r@.len() == 1 && r@[0]@ == home@ + "/.edf"@,
        edf_path@.len() == 0 && home@.len() == 0 ==> r@.len() == 0,
{
    let mut paths: Vec<String> = Vec::new();
    if edf_path.unicode_len() > 0 {
        paths.push(String::from_str(edf_path));
    } else if home.unicode_len() > 0 {
        let mut p = String::from_str(home);
        p.append("/.edf");
        paths.push(p);
    }
    paths
}

/// The directory a task changes to: the descriptor's, else the container's
/// own working directory through the proc tree.
pub fn target_workdir(workdir: &str, pid: u64) -> (r: String)
    ensures
        workdir@.len() > 0 ==> r@ == workdir@,
        workdir@.len() == 0 ==> r@ == proc_entry_view(pid, "cwd"@),
{
    if workdir.unicode_len() > 0 {
        String::from_str(workdir)
    } else {
        proc_entry(pid, "cwd")
    }
}

} // verus!
