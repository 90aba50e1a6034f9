//! Paths for configuration and data storage.
//!
//! A game binary runs either from its build tree or from an install tree,
//! and the two layouts keep configuration and data in different places. The
//! decision between them reads only the name of the directory holding the
//! running executable; the host resolves that name, and the directories an
//! install tree uses, and hands them in as plain strings.

use vstd::prelude::*;

verus! {

/// Paths for configuration and data storage.
pub struct Paths {
    /// Directory for storing configuration files.
    pub config_dir: String,
    /// Directory for storing data files.
    pub data_dir: String,
}

impl Paths {
    /// Construct paths based on a given source tree.
    ///
    /// This allows a binary to be run in both an install tree and a build
    /// tree: when the running executable sits in an install tree's `bin`
    /// directory, the install-tree directories are used; otherwise both
    /// paths point at the source tree.
    pub fn new(
        source_path: &String,
        exe_parent_name: &String,
        install_config_dir: &String,
        install_data_dir: &String,
    ) -> (r: Paths)
        ensures
            exe_parent_name@ == "bin"@ ==> r.config_dir@ == install_config_dir@ && r.data_dir@
                == install_data_dir@,
            exe_parent_name@ != "bin"@ ==> r.config_dir@ == source_path@ && r.data_dir@
                == source_path@,
    {
        if Self::is_install_layout(exe_parent_name) {
            Paths {
                config_dir: install_config_dir.clone(),
                data_dir: install_data_dir.clone(),
            }
        } else {
            Self::from_build(source_path.clone())
        }
    }

    /// Paths based on the build directory: configuration and data live side
    /// by side in the source tree.
    pub fn from_build(path: String) -> (r: Paths)
        ensures
            r.config_dir@ == path@,
            r.data_dir@ == path@,
    {
        let config_dir = path.clone();
        Paths { config_dir, data_dir: path }
    }

    /// Whether the running executable sits in an install tree: the directory
    /// holding it is named `bin`.
    pub fn is_install_layout(exe_parent_name: &String) -> (r: bool)
        ensures
            r == (exe_parent_name@ == "bin"@),
    {
        let bin: String = "bin".to_owned();
        *exe_parent_name == bin
    }
}

} // verus!
