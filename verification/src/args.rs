//! Argument-level decisions of the command-line front end: the small
//! parsers for key=value and volume options, file-location parsing for the
//! copy command, and the dispatch decision that picks which tool an
//! invocation addresses.

use vstd::prelude::*;
use vstd::string::StringExecFns;
use crate::definition::Repository;
use crate::text::split_once;
use crate::text::str_to_chars;
use crate::text::chars_to_string;

verus! {

/// Splits `KEY=VALUE` at the first `=`; anything without a `=` is refused
/// with a usage message.
pub fn kv_parser(input: &str) -> (r: Result<(String, String), String>)
    ensures
        match r {
            Ok(kv) => exists|i: int|
                {
                    &&& 0 <= i < input@.len()
                    &&& input@[i] == '='
                    &&& (forall|j: int| 0 <= j < i ==> input@[j] != '=')
                    &&& kv.0@ == input@.subrange(0, i)
                    &&& kv.1@ == input@.subrange(i + 1, input@.len() as int)
                },
            Err(m) => {
                &&& forall|j: int| 0 <= j < input@.len() ==> input@[j] != '='
                &&& m@ == "Must be key=value"@
            },
        },
{
    match split_once(input, '=') {
        Some(kv) => Ok(kv),
        None => Err(String::from_str("Must be key=value")),
    }
}

/// Splits `NAME[:PATH]` at the first `:`; without a `:` the path is absent.
pub fn volume_parser(input: &str) -> (r: (String, Option<String>))
    ensures
        match r.1 {
            Some(path) => exists|i: int|
                {
                    &&& 0 <= i < input@.len()
                    &&& input@[i] == ':'
                    &&& (forall|j: int| 0 <= j < i ==> input@[j] != ':')
                    &&& r.0@ == input@.subrange(0, i)
                    &&& path@ == input@.subrange(i + 1, input@.len() as int)
                },
            None => {
                &&& forall|j: int| 0 <= j < input@.len() ==> input@[j] != ':'
                &&& r.0@ == input@
            },
        },
{
    match split_once(input, ':') {
        Some(kv) => (kv.0, Some(kv.1)),
        None => (chars_to_string(&str_to_chars(input)), None),
    }
}

/// Splits `LOCAL:PATH` at the first `:`; a volume without a path is refused
/// with a usage message.
pub fn upload_parser(input: &str) -> (r: Result<(String, String), String>)
    ensures
        match r {
            Ok(kv) => exists|i: int|
                {
                    &&& 0 <= i < input@.len()
                    &&& input@[i] == ':'
                    &&& (forall|j: int| 0 <= j < i ==> input@[j] != ':')
                    &&& kv.0@ == input@.subrange(0, i)
                    &&& kv.1@ == input@.subrange(i + 1, input@.len() as int)
                },
            Err(m) => {
                &&& forall|j: int| 0 <= j < input@.len() ==> input@[j] != ':'
                &&& m@ == "upload directories must be in the form of LOCAL:PATH"@
            },
        },
{
    let (local, path) = volume_parser(input);
    match path {
        Some(p) => Ok((local, p)),
        None => Err(String::from_str("upload directories must be in the form of LOCAL:PATH")),
    }
}

// ---------------------------------------------------------------------------
// File locations and the copy decision
// ---------------------------------------------------------------------------

/// One end of a copy: a local path, or a path inside a pod.
#[derive(Debug)]
pub enum FileLocation {
    Local { path: String },
    Remote { pod: String, path: String },
}

impl FileLocation {
    /// Reads a location: `POD:PATH` is remote, anything else local.
    pub fn parse(s: &str) -> (r: FileLocation)
        ensures
            match r {
                FileLocation::Remote { pod, path } => exists|i: int|
                    {
                        &&& 0 <= i < s@.len()
                        &&& s@[i] == ':'
                        &&& (forall|j: int| 0 <= j < i ==> s@[j] != ':')
                        &&& pod@ == s@.subrange(0, i)
                        &&& path@ == s@.subrange(i + 1, s@.len() as int)
                    },
                FileLocation::Local { path } => {
                    &&& forall|j: int| 0 <= j < s@.len() ==> s@[j] != ':'
                    &&& path@ == s@
                },
            },
    {
        match split_once(s, ':') {
            Some(kv) => FileLocation::Remote { pod: kv.0, path: kv.1 },
            None => FileLocation::Local { path: chars_to_string(&str_to_chars(s)) },
        }
    }
}

/// What a copy invocation asks for, once its ends are read: pushing a local
/// file into a pod, or pulling one out.
#[derive(Debug)]
pub enum TransferPlan {
    Upload { pod: String, local: String, remote: String },
    Download { pod: String, remote: String, local: String },
}

/// The copy subcommand's arguments.
pub struct CopyCommand {
    /// The namespace to use; absent means inferred.
    pub namespace: Option<String>,
    /// Where to copy from.
    pub source: FileLocation,
    /// Where to copy to.
    pub destination: FileLocation,
}

impl CopyCommand {
    /// Decides what the copy does: local-to-remote uploads,
    /// remote-to-local downloads, and any other pairing is refused.
    pub fn plan(self) -> (r: Result<TransferPlan, String>)
        ensures
            match r {
                Ok(p) => match p {
                    TransferPlan::Upload { pod, local, remote } => {
                        &&& self.source matches FileLocation::Local { path } && local == path
                        &&& self.destination matches FileLocation::Remote { pod: p2, path: q }
                            && pod == p2 && remote == q
                    },
                    TransferPlan::Download { pod, remote, local } => {
                        &&& self.source matches FileLocation::Remote { pod: p2, path: q } && pod
                            == p2 && remote == q
                        &&& self.destination matches FileLocation::Local { path } && local == path
                    },
                },
                Err(m) => {
                    &&& (self.source is Local && self.destination is Local) || (self.source
                        is Remote && self.destination is Remote)
                    &&& m@ == "Can only copy between local and remote volumes"@
                },
            },
    {
        match (self.source, self.destination) {
            (FileLocation::Local { path: src }, FileLocation::Remote { pod, path: dest }) => Ok(
                TransferPlan::Upload { pod, local: src, remote: dest },
            ),
            (FileLocation::Remote { pod, path: src }, FileLocation::Local { path: dest }) => Ok(
                TransferPlan::Download { pod, remote: src, local: dest },
            ),
            _ => Err(String::from_str("Can only copy between local and remote volumes")),
        }
    }
}

// ---------------------------------------------------------------------------
// The dispatch decision
// ---------------------------------------------------------------------------

/// A resolved invocation: which tool to run and with what arguments.
pub struct ToolCommand {
    /// The tool the invocation addresses.
    pub tool_name: String,
    /// The arguments to hand it.
    pub args: Vec<String>,
}

impl ToolCommand {
    /// Decides which tool an invocation addresses.  No subcommand falls
    /// back to the bare-invocation default.  A subcommand naming a catalog
    /// tool addresses it directly.  Anything else goes to a default tool —
    /// the bare-invocation default when the word looks like a flag, the
    /// subcommand default otherwise — with the word put back in front of
    /// the arguments.
    pub fn new(repo: &Repository, subcommand: Option<(String, Vec<String>)>) -> (r: ToolCommand)
        ensures
            match subcommand {
                None => {
                    &&& r.tool_name@ == repo.default.no_subcommand@
                    &&& r.args@.len() == 0
                },
                Some(sc) => {
                    if exists|i: int|
                        0 <= i < repo.tools@.len() && repo.tools@[i].name@ == sc.0@ {
                        &&& r.tool_name@ == sc.0@
                        &&& r.args == sc.1
                    } else {
                        &&& r.tool_name@ == (if sc.0@.len() > 0 && sc.0@[0] == '-' {
                            repo.default.no_subcommand@
                        } else {
                            repo.default.with_subcommand@
                        })
                        &&& r.args@.len() == sc.1@.len() + 1
                        &&& r.args@[0]@ == sc.0@
                        &&& forall|j: int| 0 <= j < sc.1@.len() ==> r.args@[j + 1] == sc.1@[j]
                    }
                },
            },
    {
        let (name, rest) = match subcommand {
            None => {
                return ToolCommand {
                    tool_name: chars_to_string(&str_to_chars(repo.default_no_subcommand())),
                    args: Vec::new(),
                };
            },
            Some(sc) => sc,
        };
        if repo.find(name.as_str()).is_some() {
            return ToolCommand { tool_name: name, args: rest };
        }
        let chars = str_to_chars(name.as_str());
        let flaglike = chars.len() > 0 && chars[0] == '-';
        let tool_name = if flaglike {
            chars_to_string(&str_to_chars(repo.default_no_subcommand()))
        } else {
            chars_to_string(&str_to_chars(repo.default_with_subcommand()))
        };
        let mut args: Vec<String> = Vec::new();
        args.push(name);
        let mut rest = rest;
        args.append(&mut rest);
        ToolCommand { tool_name, args }
    }
}

} // verus!
