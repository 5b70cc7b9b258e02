//! The extraction step of the installation pipeline.
//!
//! A catalog entry may name a filter command (for instance `tar -xzO`) that
//! turns the downloaded package into the tool's binary.  The engine stages
//! the download in a file, runs the filter with its standard input read from
//! that file and its standard output written to the target file, and then
//! judges the filter's exit status: anything but a clean zero exit is an
//! extraction failure.

use vstd::prelude::*;
use tokio::fs::File;
use tokio::process::Command;
use tokio::runtime::Builder;
use crate::error::Error;

verus! {

/// Relies on tokio::process::Command (and tokio::fs::File for the
/// redirections): runs `argv` with standard input read from the file at
/// `input`, standard output written to the file at `output` (created or
/// truncated), and standard error inherited; waits for it and hands back
/// its exit code, `None` when a signal killed it, or `Err` when it could
/// not be run at all.
#[verifier::external_body]
fn run_filter_files(argv: &Vec<String>, input: &str, output: &str) -> (r: Result<Option<i32>, ()>)
    requires
        argv@.len() > 0,
{
    let rt = Builder::new_current_thread().enable_all().build().map_err(|_| ())?;
    let fin = rt.block_on(File::open(input)).map_err(|_| ())?;
    let fin = rt.block_on(fin.into_std());
    let fout = rt.block_on(File::create(output)).map_err(|_| ())?;
    let fout = rt.block_on(fout.into_std());
    let mut cmd = Command::new(&argv[0]);
    cmd.args(&argv[1..]).stdin(fin).stdout(fout);
    let guard = rt.enter();
    let fut = cmd.status();
    drop(guard);
    Ok(rt.block_on(fut).map_err(|_| ())?.code())
}

/// Judges a filter's exit status: only a clean zero exit is success, and
/// any other outcome is an extraction failure carrying the exit code.
pub fn extraction_outcome(code: Option<i32>) -> (r: Result<(), Error>)
    ensures
        r is Ok <==> code == Some(0int as i32),
        r matches Err(e) ==> e matches Error::ExtractionFailure(c) && c == code,
{
    match code {
        Some(0) => Ok(()),
        other => Err(Error::ExtractionFailure(other)),
    }
}

/// Runs the extraction filter `argv` from the staged download at `input` to
/// the target file at `output`, and judges its exit status; a filter that
/// could not be run at all reports as killed.
pub fn run_extraction(argv: &Vec<String>, input: &str, output: &str) -> (r: Result<(), Error>)
    requires
        argv@.len() > 0,
    ensures
        r matches Err(e) ==> e is ExtractionFailure,
{
    match run_filter_files(argv, input, output) {
        Ok(code) => extraction_outcome(code),
        Err(()) => Err(Error::ExtractionFailure(None)),
    }
}

} // verus!
