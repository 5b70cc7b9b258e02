//! Normalization of host platform names.
//!
//! The catalog speaks the common release-artifact dialect: `darwin` and
//! `linux` for operating systems, `amd64`, `386` and `arm64` for
//! architectures.  The host names reported by the Rust toolchain are mapped
//! into that dialect; names without a known mapping pass through unchanged.

use vstd::prelude::*;
use vstd::string::StringExecFns;
use crate::text::str_eq;

verus! {

/// The normalized spelling of a host operating-system name.
pub open spec fn spec_normalize_os(os: Seq<char>) -> Seq<char> {
    if os == "macos"@ {
        "darwin"@
    } else {
        os
    }
}

/// The normalized spelling of a host architecture name.
pub open spec fn spec_normalize_arch(arch: Seq<char>) -> Seq<char> {
    if arch == "x86_64"@ {
        "amd64"@
    } else if arch == "x86"@ {
        "386"@
    } else if arch == "aarch64"@ {
        "arm64"@
    } else {
        arch
    }
}

/// Normalizes a host operating-system name.
pub fn normalize_os(os: &str) -> (r: String)
    ensures
        r@ == spec_normalize_os(os@),
{
    if str_eq(os, "macos") {
        String::from_str("darwin")
    } else {
        String::from_str(os)
    }
}

/// Normalizes a host architecture name.
pub fn normalize_arch(arch: &str) -> (r: String)
    ensures
        r@ == spec_normalize_arch(arch@),
{
    if str_eq(arch, "x86_64") {
        String::from_str("amd64")
    } else if str_eq(arch, "x86") {
        String::from_str("386")
    } else if str_eq(arch, "aarch64") {
        String::from_str("arm64")
    } else {
        String::from_str(arch)
    }
}

} // verus!
