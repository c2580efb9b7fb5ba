//! Where a plugin's file is found.

use vstd::prelude::*;
use vstd::string::StringExecFns;
use crate::config::LibraryConfig;
use crate::text::str_eq;

verus! {

/// The prefix of a plugin's file name on the given operating system:
/// nothing on Windows, `lib` everywhere else.
pub open spec fn library_prefix(os: Seq<char>) -> Seq<char> {
    if os == "windows"@ {
        ""@
    } else {
        "lib"@
    }
}

/// The extension of a plugin's file name on the given operating system,
/// with its dot.
pub open spec fn library_extension(os: Seq<char>) -> Seq<char> {
    if os == "windows"@ {
        ".dll"@
    } else if os == "macos"@ {
        ".dylib"@
    } else {
        ".so"@
    }
}

/// The file name of the plugin called `pkg_name` on the given operating
/// system.
pub open spec fn library_name(os: Seq<char>, pkg_name: Seq<char>) -> Seq<char> {
    library_prefix(os) + pkg_name + library_extension(os)
}

/// The file name of the plugin called `pkg_name` on the operating system
/// `os`, which is named as `std::env::consts::OS` names it.
pub fn create_library_name(os: &str, pkg_name: &str) -> (name: String)
    ensures
        name@ == library_name(os@, pkg_name@),
{
    let windows = str_eq(os, "windows");
    let lib_prefix = if windows {
        ""
    } else {
        "lib"
    };
    let ext = if windows {
        ".dll"
    } else if str_eq(os, "macos") {
        ".dylib"
    } else {
        ".so"
    };
    let mut name = String::from_str(lib_prefix);
    name.append(pkg_name);
    name.append(ext);
    name
}

/// The file that a configured plugin is loaded from: the path that the
/// configuration gives, or the plugin's file name in the plugin directory.
/// The directory is given without a separator at its end; a `/` is put
/// between it and the file name.
pub open spec fn spec_library_path(
    path: Option<Seq<char>>,
    name: Seq<char>,
    plugin_dir: Seq<char>,
    os: Seq<char>,
) -> Seq<char> {
    match path {
        Some(given) => given,
        None => plugin_dir + "/"@ + library_name(os, name),
    }
}

/// The file that a configured plugin is loaded from: the path that the
/// configuration gives, or `plugin_dir`, a `/` and the plugin's file name.
/// `plugin_dir` is given without a separator at its end and is not empty.
pub fn library_path(config: &LibraryConfig, plugin_dir: &str, os: &str) -> (path: String)
    ensures
        path@ == spec_library_path(
            match config.path {
                Some(given) => Some(given@),
                None => None,
            },
            config.name@,
            plugin_dir@,
            os@,
        ),
{
    match &config.path {
        Some(given) => given.clone(),
        None => {
            let file = create_library_name(os, config.name.as_str());
            let mut path = String::from_str(plugin_dir);
            path.append("/");
            path.append(file.as_str());
            path
        },
    }
}

} // verus!
