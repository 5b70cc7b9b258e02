//! The filesystem operations of the engine.
//!
//! Each primitive call goes through a trusted wrapper around the `nix`
//! crate; failures carry the raw `errno` value, which callers map to
//! [`Error::IOFailure`](crate::error::Error).  An open output file tracks
//! the bytes written to it, so that contracts can speak of a file's content.

use vstd::prelude::*;
use nix::fcntl::OFlag;

verus! {

/// `errno` for "no such file or directory".
pub const ENOENT: i32 = 2;

/// `errno` for "file exists".
pub const EEXIST: i32 = 17;

// ---------------------------------------------------------------------------
// Path-level primitives
// ---------------------------------------------------------------------------

/// Relies on nix::sys::stat::stat: true exactly when `path` names an
/// existing filesystem entry.
#[verifier::external_body]
pub fn path_exists(path: &str) -> bool {
    nix::sys::stat::stat(path).is_ok()
}

/// Relies on nix::unistd::mkdir: creates one directory, mode `0o755`.
#[verifier::external_body]
fn mkdir_single(path: &str) -> (r: Result<(), i32>)
{
    match nix::unistd::mkdir(path, nix::sys::stat::Mode::from_bits_truncate(0o755)) {
        Ok(()) => Ok(()),
        Err(e) => Err(e as i32),
    }
}

/// Relies on nix::fcntl::renameat: atomically renames `from` to `to`.
#[verifier::external_body]
pub fn rename_path(from: &str, to: &str) -> (r: Result<(), i32>)
{
    match nix::fcntl::renameat(None, from, None, to) {
        Ok(()) => Ok(()),
        Err(e) => Err(e as i32),
    }
}

/// Relies on nix::sys::stat::fchmodat: sets `path`'s permission bits to
/// `0o755`, owner-writable and readable and executable by all.
#[verifier::external_body]
pub fn chmod_exec(path: &str) -> (r: Result<(), i32>)
{
    match nix::sys::stat::fchmodat(
        None,
        path,
        nix::sys::stat::Mode::from_bits_truncate(0o755),
        nix::sys::stat::FchmodatFlags::FollowSymlink,
    ) {
        Ok(()) => Ok(()),
        Err(e) => Err(e as i32),
    }
}

/// Relies on nix::unistd::unlink: removes the file at `path`.
#[verifier::external_body]
pub fn unlink_path(path: &str) -> (r: Result<(), i32>)
{
    match nix::unistd::unlink(path) {
        Ok(()) => Ok(()),
        Err(e) => Err(e as i32),
    }
}

// ---------------------------------------------------------------------------
// Output files
// ---------------------------------------------------------------------------

/// An open output file together with the bytes written to it so far.
pub struct OutFile {
    fd: i32,
    content: Ghost<Seq<u8>>,
}

impl OutFile {
    /// The bytes written to this file since it was created.
    pub closed spec fn bytes(&self) -> Seq<u8> {
        self.content@
    }
}

/// Relies on nix::fcntl::open with `O_WRONLY | O_CREAT | O_TRUNC`: creates
/// or truncates the file at `path`, mode `0o644`, and hands back its file
/// descriptor.
#[verifier::external_body]
fn open_create_trunc(path: &str) -> (r: Result<i32, i32>)
{
    match nix::fcntl::open(
        path,
        OFlag::O_WRONLY | OFlag::O_CREAT | OFlag::O_TRUNC,
        nix::sys::stat::Mode::from_bits_truncate(0o644),
    ) {
        Ok(fd) => Ok(fd),
        Err(e) => Err(e as i32),
    }
}

/// Creates or truncates the file at `path` for writing; a fresh file holds
/// no bytes.
pub fn create_file(path: &str) -> (r: Result<OutFile, i32>)
    ensures
        r matches Ok(f) ==> f.bytes() == Seq::<u8>::empty(),
{
    match open_create_trunc(path) {
        Ok(fd) => Ok(OutFile { fd, content: Ghost(Seq::empty()) }),
        Err(e) => Err(e),
    }
}

/// Relies on nix::unistd::write: writes some of `buf[from..]` to the file
/// and reports how many bytes the kernel accepted, which it appends to the
/// file's content.
#[verifier::external_body]
fn write_some(f: &mut OutFile, buf: &Vec<u8>, from: usize) -> (r: Result<usize, i32>)
    requires
        from <= buf@.len(),
    ensures
        r matches Ok(n) ==> {
            &&& n <= buf@.len() - from
            &&& final(f).bytes() == old(f).bytes() + buf@.subrange(from as int, from + n)
        },
        r is Err ==> final(f).bytes() == old(f).bytes(),
{
    match nix::unistd::write(f.fd, &buf[from..]) {
        Ok(n) => Ok(n),
        Err(e) => Err(e as i32),
    }
}

/// Writes all of `buf` to the file, appending it to the file's content; on
/// failure some prefix of `buf` has been appended.
pub fn write_all(f: &mut OutFile, buf: &Vec<u8>) -> (r: Result<(), i32>)
    ensures
        r is Ok ==> final(f).bytes() == old(f).bytes() + buf@,
        r is Err ==> exists|k: int|
            0 <= k <= buf@.len() && final(f).bytes() == old(f).bytes() + buf@.take(k),
{
    let n = buf.len();
    let mut from: usize = 0;
    while from < n
        invariant
            n == buf@.len(),
            from <= n,
            f.bytes() == old(f).bytes() + buf@.take(from as int),
        decreases n - from,
    {
        let ghost pre = f.bytes();
        match write_some(f, buf, from) {
            Ok(written) => {
                if written == 0 {
                    // The kernel accepted nothing; treat it as an error so
                    // the loop cannot spin forever.
                    proof {
                        assert(buf@.take(from as int) =~= buf@.take(from as int) + buf@.subrange(
                            from as int,
                            from as int,
                        ));
                        assert(f.bytes() == old(f).bytes() + buf@.take(from as int));
                    }
                    return Err(0);
                }
                proof {
                    assert((old(f).bytes() + buf@.take(from as int)) + buf@.subrange(
                        from as int,
                        from + written,
                    ) =~= old(f).bytes() + buf@.take(from + written));
                }
                from += written;
            },
            Err(e) => {
                return Err(e);
            },
        }
    }
    proof {
        assert(buf@.take(n as int) =~= buf@);
    }
    Ok(())
}

/// Relies on nix::unistd::close: closes the file descriptor.
#[verifier::external_body]
pub fn close_file(f: OutFile) -> (r: Result<(), i32>)
{
    match nix::unistd::close(f.fd) {
        Ok(()) => Ok(()),
        Err(e) => Err(e as i32),
    }
}

// ---------------------------------------------------------------------------
// Directory creation
// ---------------------------------------------------------------------------

/// Creates the directory at `path` and every missing parent, tolerating the
/// ones that already exist.
pub fn mkdir_p(path: &str) -> (r: Result<(), i32>)
{
    let v = crate::text::str_to_chars(path);
    let n = v.len();
    let mut i: usize = 0;
    while i < n
        invariant
            n == v@.len(),
            v@ == path@,
            i <= n,
        decreases n - i,
    {
        if v[i] == '/' && i > 0 {
            let prefix = crate::text::subrange_chars(&v, 0, i);
            let p = crate::text::chars_to_string(&prefix);
            match mkdir_single(p.as_str()) {
                Ok(()) => (),
                Err(e) => {
                    if e != EEXIST {
                        return Err(e);
                    }
                },
            }
        }
        i += 1;
    }
    match mkdir_single(path) {
        Ok(()) => Ok(()),
        Err(e) => {
            if e == EEXIST {
                Ok(())
            } else {
                Err(e)
            }
        },
    }
}

// ---------------------------------------------------------------------------
// Directory scanning
// ---------------------------------------------------------------------------

/// An open directory iterator; opaque to the verifier, which cannot take
/// the iterator type's trait implementations.
#[verifier::external_body]
struct DirHandle {
    it: nix::dir::OwningIter,
}

/// Relies on nix::dir::Dir::open and Dir::into_iter: opens the directory at
/// `path` for iteration over its entries.
#[verifier::external_body]
fn open_dir_iter(path: &str) -> (r: Result<DirHandle, i32>)
{
    match nix::dir::Dir::open(path, OFlag::O_RDONLY, nix::sys::stat::Mode::empty()) {
        Ok(d) => Ok(DirHandle { it: d.into_iter() }),
        Err(e) => Err(e as i32),
    }
}

/// Relies on nix::dir::OwningIter::next: the next directory entry's name.
/// `Ok(None)` means the directory is exhausted; an entry whose name is not
/// UTF-8 comes back as `Ok(Some(None))`.
#[verifier::external_body]
fn next_dir_entry(h: &mut DirHandle) -> (r: Result<Option<Option<String>>, i32>)
{
    match h.it.next() {
        None => Ok(None),
        Some(Err(e)) => Err(e as i32),
        Some(Ok(entry)) => Ok(Some(entry.file_name().to_str().ok().map(|s| s.to_string()))),
    }
}

/// Lists the names of the entries of the directory at `path`, dropping the
/// `.` and `..` entries and entries whose names are not UTF-8.  A missing
/// directory yields the empty list.
pub fn list_dir(path: &str) -> (r: Result<Vec<String>, i32>)
    ensures
        r matches Ok(names) ==> forall|i: int|
            0 <= i < names@.len() ==> names@[i]@ != "."@ && names@[i]@ != ".."@,
{
    let mut names: Vec<String> = Vec::new();
    let mut it = match open_dir_iter(path) {
        Ok(it) => it,
        Err(e) => {
            if e == ENOENT {
                return Ok(names);
            }
            return Err(e);
        },
    };
    let mut fuel: usize = usize::MAX;
    while fuel > 0
        invariant
            forall|i: int|
                0 <= i < names@.len() ==> names@[i]@ != "."@ && names@[i]@ != ".."@,
        decreases fuel,
    {
        fuel -= 1;
        match next_dir_entry(&mut it) {
            Ok(None) => {
                return Ok(names);
            },
            Ok(Some(None)) => (),
            Ok(Some(Some(name))) => {
                if !crate::text::str_eq(name.as_str(), ".") && !crate::text::str_eq(
                    name.as_str(),
                    "..",
                ) {
                    names.push(name);
                }
            },
            Err(e) => {
                return Err(e);
            },
        }
    }
    Ok(names)
}

} // verus!
