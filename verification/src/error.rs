//! The error taxonomy of the toolbox engine.
//!
//! Every operation of the engine reports failure through [`Error`]; each
//! variant carries the context a user needs to retry by hand (tool name,
//! version, URL or path).

use vstd::prelude::*;
use crate::text::push_str_chars;
use crate::text::chars_to_string;
use crate::text::str_to_chars;

verus! {

/// What went wrong during a toolbox operation.
#[derive(Debug)]
pub enum Error {
    /// The requested tool name is absent from the catalog; carries the name.
    NotFound(String),
    /// No version candidate yielded a version; carries the tool name.
    ResolutionFailure(String),
    /// A transport-level failure while fetching version or package data;
    /// carries the URL.
    NetworkFailure(String),
    /// The upstream response did not contain the expected version token;
    /// carries the trimmed response body.
    ParseFailure(String),
    /// The extraction subprocess exited with a non-zero status; carries the
    /// exit code, or `None` when the subprocess was killed by a signal.
    ExtractionFailure(Option<i32>),
    /// A filesystem operation failed; carries the path.
    IOFailure(String),
    /// A URL or command template could not be substituted, because of an
    /// unterminated placeholder or an unknown key; carries the template.
    TemplateFailure(String),
    /// A declared dependency failed to install; carries the dependency name
    /// and the underlying error.
    DependencyFailure(String, Box<Error>),
}

/// The one-line account of an error: the kind, then the carried context.
pub open spec fn spec_message(e: &Error) -> Seq<char>
    decreases e,
{
    match e {
        Error::NotFound(name) => "tool not found: "@ + name@,
        Error::ResolutionFailure(name) => "no version found for "@ + name@,
        Error::NetworkFailure(url) => "failed to fetch "@ + url@,
        Error::ParseFailure(body) => "no version in response: "@ + body@,
        Error::ExtractionFailure(code) => match code {
            Some(_) => "extraction command failed"@,
            None => "extraction command killed"@,
        },
        Error::IOFailure(path) => "filesystem error at "@ + path@,
        Error::TemplateFailure(t) => "bad template: "@ + t@,
        Error::DependencyFailure(name, cause) => "dependency "@ + name@ + " failed: "@
            + spec_message(cause),
    }
}

impl Error {
    /// A one-line human-readable account of the error, leading with the kind
    /// and ending with the carried context.
    pub fn message(&self) -> (r: String)
        ensures
            r@ == spec_message(self),
        decreases self,
    {
        let mut out: Vec<char> = Vec::new();
        match self {
            Error::NotFound(name) => {
                push_str_chars(&mut out, "tool not found: ");
                let mut tail = str_to_chars(name.as_str());
                out.append(&mut tail);
            },
            Error::ResolutionFailure(name) => {
                push_str_chars(&mut out, "no version found for ");
                let mut tail = str_to_chars(name.as_str());
                out.append(&mut tail);
            },
            Error::NetworkFailure(url) => {
                push_str_chars(&mut out, "failed to fetch ");
                let mut tail = str_to_chars(url.as_str());
                out.append(&mut tail);
            },
            Error::ParseFailure(body) => {
                push_str_chars(&mut out, "no version in response: ");
                let mut tail = str_to_chars(body.as_str());
                out.append(&mut tail);
            },
            Error::ExtractionFailure(code) => {
                match code {
                    Some(_) => push_str_chars(&mut out, "extraction command failed"),
                    None => push_str_chars(&mut out, "extraction command killed"),
                }
            },
            Error::IOFailure(path) => {
                push_str_chars(&mut out, "filesystem error at ");
                let mut tail = str_to_chars(path.as_str());
                out.append(&mut tail);
            },
            Error::TemplateFailure(t) => {
                push_str_chars(&mut out, "bad template: ");
                let mut tail = str_to_chars(t.as_str());
                out.append(&mut tail);
            },
            Error::DependencyFailure(name, cause) => {
                push_str_chars(&mut out, "dependency ");
                let mut tail = str_to_chars(name.as_str());
                out.append(&mut tail);
                push_str_chars(&mut out, " failed: ");
                let inner = cause.message();
                let mut tail = str_to_chars(inner.as_str());
                out.append(&mut tail);
            },
        }
        proof {
            assert(out@ =~= spec_message(self));
        }
        chars_to_string(&out)
    }
}

} // verus!
