//! The downloader: fetches URLs as byte streams or strings, reporting
//! progress, and writes a stream to a file atomically.
//!
//! Every fetch bumps an observable counter, so that contracts and tests can
//! state how many network requests an operation made.

use vstd::prelude::*;
use vstd::string::StringExecFns;
use crate::error::Error;
use crate::fsutil;
use crate::text::str_concat;
use crate::text::chars_to_string;
use crate::text::str_to_chars;

verus! {

#[verifier::external_type_specification]
#[verifier::external_body]
pub struct ExClient(reqwest::blocking::Client);

#[verifier::external_type_specification]
#[verifier::external_body]
pub struct ExResponse(reqwest::blocking::Response);

#[verifier::external_type_specification]
#[verifier::external_body]
pub struct ExMultiProgress(indicatif::MultiProgress);

#[verifier::external_type_specification]
#[verifier::external_body]
pub struct ExProgressBar(indicatif::ProgressBar);

// ---------------------------------------------------------------------------
// Trusted wrappers
// ---------------------------------------------------------------------------

/// Relies on reqwest::blocking::Client::builder: a client that sends the
/// toolbox's user agent, or `None` when the client cannot be set up.
#[verifier::external_body]
fn client_new() -> (r: Option<reqwest::blocking::Client>)
{
    reqwest::blocking::Client::builder().user_agent("neatkube").build().ok()
}

/// Relies on reqwest::blocking::Client::get and RequestBuilder::send: issues
/// one GET request for `url` and hands back the response, whatever its
/// status code.
#[verifier::external_body]
fn http_get(client: &reqwest::blocking::Client, url: &str) -> (r: Option<
    reqwest::blocking::Response,
>)
{
    client.get(url).send().ok()
}

/// Relies on reqwest::blocking::Response::content_length: the advertised
/// body length, if the server sent one.
#[verifier::external_body]
fn content_length(resp: &reqwest::blocking::Response) -> (r: Option<u64>)
{
    resp.content_length()
}

/// Relies on std::io::Read::read on reqwest::blocking::Response: the next
/// chunk of the body, at most 8192 bytes; an empty chunk means the body is
/// exhausted.
#[verifier::external_body]
fn read_chunk(resp: &mut reqwest::blocking::Response) -> (r: Result<Vec<u8>, ()>)
    ensures
        r matches Ok(chunk) ==> chunk@.len() <= 8192,
{
    let mut buf = vec![0u8; 8192];
    match std::io::Read::read(resp, &mut buf) {
        Ok(n) => {
            buf.truncate(n);
            Ok(buf)
        },
        Err(_) => Err(()),
    }
}

/// Relies on String::from_utf8: the string whose UTF-8 encoding is `v`, or
/// `None` when `v` is not valid UTF-8.
#[verifier::external_body]
fn bytes_to_string(v: Vec<u8>) -> (r: Option<String>)
    ensures
        r matches Some(s) ==> vstd::utf8::encode_utf8(s@) == v@,
{
    String::from_utf8(v).ok()
}

/// Relies on indicatif::MultiProgress::new: the shared progress surface.
#[verifier::external_body]
fn multi_progress_new() -> (r: indicatif::MultiProgress)
{
    indicatif::MultiProgress::new()
}

/// Relies on indicatif::ProgressBar::new and set_message: a progress bar of
/// the given length, labeled `msg`.
#[verifier::external_body]
fn progress_bar_new(len: u64, msg: &String) -> (r: indicatif::ProgressBar)
{
    let pb = indicatif::ProgressBar::new(len);
    pb.set_message(msg.clone());
    pb
}

/// Relies on indicatif::MultiProgress::add: puts the bar under the shared
/// surface, so that several bars can be driven at once.
#[verifier::external_body]
fn progress_add(mp: &indicatif::MultiProgress, pb: indicatif::ProgressBar) -> (r:
    indicatif::ProgressBar)
{
    mp.add(pb)
}

/// Relies on indicatif::ProgressBar::inc: advances the bar.
#[verifier::external_body]
fn progress_inc(pb: &indicatif::ProgressBar, delta: u64) {
    pb.inc(delta);
}

/// Relies on indicatif::ProgressBar::finish_and_clear: removes the bar.
#[verifier::external_body]
fn progress_finish(pb: &indicatif::ProgressBar) {
    pb.finish_and_clear();
}

// ---------------------------------------------------------------------------
// The downloader
// ---------------------------------------------------------------------------

/// One more than `c`, saturating at the top of the counter's range.
pub open spec fn bump(c: u64) -> u64 {
    if c < u64::MAX {
        (c + 1) as u64
    } else {
        c
    }
}

/// Fetches URLs, reporting progress; counts the requests it has issued.
pub struct Downloader {
    client: reqwest::blocking::Client,
    progress: indicatif::MultiProgress,
    fetches: u64,
}

impl Downloader {
    /// How many GET requests this downloader has issued.
    pub closed spec fn spec_fetches(&self) -> u64 {
        self.fetches
    }

    /// Reads the request counter.
    pub fn fetch_count(&self) -> (r: u64)
        ensures
            r == self.spec_fetches(),
    {
        self.fetches
    }
}

/// An open byte stream from a URL, with its progress bar.
pub struct DownloadStream {
    resp: reqwest::blocking::Response,
    pb: indicatif::ProgressBar,
}

impl Downloader {
    /// Sets the downloader up; no request has been issued yet.
    pub fn create() -> (r: Result<Downloader, Error>)
        ensures
            r matches Ok(d) ==> d.spec_fetches() == 0,
    {
        match client_new() {
            Some(client) => Ok(
                Downloader { client, progress: multi_progress_new(), fetches: 0 },
            ),
            None => Err(Error::NetworkFailure(String::from_str("client setup"))),
        }
    }

    /// Issues one GET request for `url` and opens the body as a byte
    /// stream, with a progress bar labeled `msg` under the shared surface.
    pub fn stream(&mut self, url: &str, msg: &str) -> (r: Result<DownloadStream, Error>)
        ensures
            final(self).spec_fetches() == bump(old(self).spec_fetches()),
            r matches Err(e) ==> e matches Error::NetworkFailure(u) && u@ == url@,
    {
        self.fetches = if self.fetches == u64::MAX {
            u64::MAX
        } else {
            self.fetches + 1
        };
        match http_get(&self.client, url) {
            Some(resp) => {
                let total = match content_length(&resp) {
                    Some(n) => n,
                    None => 0,
                };
                let label = chars_to_string(&str_to_chars(msg));
                let pb = progress_bar_new(total, &label);
                let pb = progress_add(&self.progress, pb);
                Ok(DownloadStream { resp, pb })
            },
            None => Err(Error::NetworkFailure(chars_to_string(&str_to_chars(url)))),
        }
    }

    /// Fetches `url` as a string: the whole body, decoded as UTF-8.
    pub fn string(&mut self, url: &str, msg: &str) -> (r: Result<String, Error>)
        ensures
            final(self).spec_fetches() == bump(old(self).spec_fetches()),
            r matches Err(e) ==> e matches Error::NetworkFailure(u) && u@ == url@,
    {
        let mut stream = match self.stream(url, msg) {
            Ok(s) => s,
            Err(e) => {
                return Err(e);
            },
        };
        let mut body: Vec<u8> = Vec::new();
        let mut fuel: usize = usize::MAX;
        while fuel > 0
            invariant
                self.spec_fetches() == bump(old(self).spec_fetches()),
            decreases fuel,
        {
            fuel -= 1;
            match next_chunk(&mut stream) {
                Ok(chunk) => {
                    if chunk.len() == 0 {
                        break;
                    }
                    let mut tail = chunk;
                    body.append(&mut tail);
                },
                Err(()) => {
                    finish_stream(stream);
                    return Err(Error::NetworkFailure(chars_to_string(&str_to_chars(url))));
                },
            }
        }
        finish_stream(stream);
        match bytes_to_string(body) {
            Some(s) => Ok(s),
            None => Err(Error::NetworkFailure(chars_to_string(&str_to_chars(url)))),
        }
    }

    /// Fetches `url` into the file at `path`, atomically: the body streams
    /// into `path` + `.part`, which is renamed over `path` when the stream
    /// ends well and removed when it does not.
    pub fn file(&mut self, url: &str, path: &str, msg: &str) -> (r: Result<(), Error>)
        ensures
            final(self).spec_fetches() == bump(old(self).spec_fetches()),
            r matches Err(e) ==> e is NetworkFailure || e is IOFailure,
    {
        let temp = str_concat(path, ".part");
        let mut stream = match self.stream(url, msg) {
            Ok(s) => s,
            Err(e) => {
                return Err(e);
            },
        };
        let mut out = match fsutil::create_file(temp.as_str()) {
            Ok(f) => f,
            Err(_) => {
                finish_stream(stream);
                return Err(Error::IOFailure(temp));
            },
        };
        let mut fuel: usize = usize::MAX;
        while fuel > 0
            invariant
                self.spec_fetches() == bump(old(self).spec_fetches()),
            decreases fuel,
        {
            fuel -= 1;
            match next_chunk(&mut stream) {
                Ok(chunk) => {
                    if chunk.len() == 0 {
                        break;
                    }
                    match fsutil::write_all(&mut out, &chunk) {
                        Ok(()) => (),
                        Err(_) => {
                            finish_stream(stream);
                            let _ = fsutil::close_file(out);
                            let _ = fsutil::unlink_path(temp.as_str());
                            return Err(Error::IOFailure(temp));
                        },
                    }
                },
                Err(()) => {
                    finish_stream(stream);
                    let _ = fsutil::close_file(out);
                    let _ = fsutil::unlink_path(temp.as_str());
                    return Err(Error::NetworkFailure(chars_to_string(&str_to_chars(url))));
                },
            }
        }
        finish_stream(stream);
        match fsutil::close_file(out) {
            Ok(()) => (),
            Err(_) => {
                let _ = fsutil::unlink_path(temp.as_str());
                return Err(Error::IOFailure(temp));
            },
        }
        match fsutil::rename_path(temp.as_str(), path) {
            Ok(()) => Ok(()),
            Err(_) => {
                let _ = fsutil::unlink_path(temp.as_str());
                Err(Error::IOFailure(chars_to_string(&str_to_chars(path))))
            },
        }
    }
}

/// Reads the next chunk of the stream, advancing its progress bar; an empty
/// chunk means the body is exhausted.
pub fn next_chunk(stream: &mut DownloadStream) -> (r: Result<Vec<u8>, ()>)
    ensures
        r matches Ok(chunk) ==> chunk@.len() <= 8192,
{
    match read_chunk(&mut stream.resp) {
        Ok(chunk) => {
            progress_inc(&stream.pb, chunk.len() as u64);
            Ok(chunk)
        },
        Err(()) => Err(()),
    }
}

/// Closes the stream's progress bar.
pub fn finish_stream(stream: DownloadStream) {
    progress_finish(&stream.pb);
}

} // verus!
