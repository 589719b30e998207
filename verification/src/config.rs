//! Which paths the filters and drivers handle.

use vstd::prelude::*;
use vstd::string::StringSliceAdditionalSpecFns;
use crate::error::Error;
use crate::text::{ends, ends_with, suffix_js, suffix_js_bytes, suffix_py, suffix_py_bytes, suffix_rs, suffix_rs_bytes};

verus! {

/// The settings for one file path.
#[derive(Clone, Copy, Debug, PartialEq, Eq, Structural)]
pub struct FileConfig {
    pub use_filter: bool,
    pub use_diff_driver: bool,
    pub use_merge_driver: bool,
}

impl Default for FileConfig {
    fn default() -> (r: FileConfig)
        ensures
            r == FileConfig::off(),
    {
        FileConfig { use_filter: false, use_diff_driver: false, use_merge_driver: false }
    }
}

impl FileConfig {
    /// The settings of a path that is left alone.
    pub open spec fn off() -> FileConfig {
        FileConfig { use_filter: false, use_diff_driver: false, use_merge_driver: false }
    }

    /// The settings of a path that is handled throughout.
    pub open spec fn on() -> FileConfig {
        FileConfig { use_filter: true, use_diff_driver: true, use_merge_driver: true }
    }
}

/// Whether a path names a source file of a language that is handled.
pub open spec fn is_source_path(path: Seq<u8>) -> bool {
    ends_with(path, suffix_rs()) || ends_with(path, suffix_py()) || ends_with(path, suffix_js())
}

/// The settings for `path`: everything on for a path that ends in `.rs`,
/// `.py` or `.js`, everything off for any other.
pub fn get_config_for_path(path: &str) -> (r: Result<FileConfig, Error>)
    ensures
        r == Ok::<FileConfig, Error>(
            if is_source_path(path.spec_bytes()) {
                FileConfig::on()
            } else {
                FileConfig::off()
            },
        ),
{
    let bytes = path.as_bytes();
    let use_ast = ends(bytes, &suffix_rs_bytes()) || ends(bytes, &suffix_py_bytes()) || ends(
        bytes,
        &suffix_js_bytes(),
    );
    if use_ast {
        Ok(FileConfig { use_filter: true, use_diff_driver: true, use_merge_driver: true })
    } else {
        Ok(FileConfig::default())
    }
}

} // verus!
