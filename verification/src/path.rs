//! Resolved locations of the configuration files.

use vstd::prelude::*;
use vstd::string::StringExecFns;

verus! {

/// A configuration file's resolved location and whether it already exists.
#[derive(Debug, Clone)]
pub struct FileInfo {
    pub path: String,
    pub exists: bool,
}

/// Joins the configuration directory and a file name with a single path
/// separator and records whether the file exists. The caller answers the
/// existence question, since only it touches the disk.
pub fn get_config_path(directory: &str, file: &str, file_exists: bool) -> (info: FileInfo)
    ensures
        info.path@ == directory@ + "/"@ + file@,
        info.exists == file_exists,
{
    let mut path = String::from_str(directory);
    path.append("/");
    path.append(file);
    FileInfo { path, exists: file_exists }
}

} // verus!
