//! Temporary script files: the unique-name scheme, and the bounds the
//! runner honors when creating and removing them.
use vstd::prelude::*;

use crate::text::{dec_digits, string_from_chars};

verus! {

/// How many fresh names are tried before the runner reports an I/O error.
pub const TEMP_NAME_RETRIES: u64 = 1024;

/// How many removal attempts the runner makes on the Windows family,
/// ten milliseconds apart, to ride out transient locks.
pub const TEMP_REMOVE_RETRIES: u64 = 99;

/// The name of the `n`-th temporary script file with extension `ext`.
pub open spec fn spec_temp_file_name(n: nat, ext: Seq<char>) -> Seq<char> {
    "ironhive-tmp-file-"@ + dec_digits(n) + ext
}

/// A materialized script body: the path the runner wrote it under.
/// The runner owns creation and removal; this records the name so the
/// invocation plans can refer to it.
#[derive(Debug, Clone)]
pub struct TempFile {
    path: String,
}

impl TempFile {
    pub closed spec fn spec_path(&self) -> Seq<char> {
        self.path@
    }

    /// The path to the underlying temporary file.
    pub fn path(&self) -> (r: &str)
        ensures
            r@ == self.spec_path(),
    {
        self.path.as_str()
    }

    /// Record a file the runner has materialized.
    pub fn from_path(path: String) -> (r: TempFile)
        ensures
            r.spec_path() == path@,
    {
        TempFile { path }
    }

    /// The unique name for the `counter`-th temporary file: the fixed
    /// prefix, the counter, and the script extension.
    pub fn unique_name(counter: u64, ext: &str) -> (r: String)
        ensures
            r@ == spec_temp_file_name(counter as nat, ext@),
    {
        let mut out: Vec<char> = Vec::new();
        crate::json::push_str_chars(&mut out, "ironhive-tmp-file-");
        crate::text::push_u64(&mut out, counter);
        crate::json::push_str_chars(&mut out, ext);
        string_from_chars(&out)
    }
}

} // verus!
