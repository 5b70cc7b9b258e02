//! Argument builders for the tar-over-exec pod file transfer.
//!
//! A transfer runs a `tar` producer on one side and a `tar` consumer on the
//! other and pipes the archive between them; this module builds both
//! command lines.  Running the processes and pumping the archive is the
//! caller's business.

use vstd::prelude::*;
use crate::text::chars_to_string;
use crate::text::push_decimal;
use crate::text::push_str_chars;
use crate::text::spec_decimal;
use crate::text::str_to_chars;
use crate::text::subrange_chars;

verus! {

/// How many leading path components the receiving side strips.
pub struct TarInfo {
    strip_components: usize,
}

impl TarInfo {
    /// How many leading path components to strip, as a specification value.
    pub closed spec fn spec_strip_components(&self) -> usize {
        self.strip_components
    }

    /// An archive whose entries carry this many leading components.
    pub fn new(strip_components: usize) -> (r: TarInfo)
        ensures
            r.spec_strip_components() == strip_components,
    {
        TarInfo { strip_components }
    }

    /// How many leading path components to strip.
    pub fn strip_components(&self) -> (r: usize)
        ensures
            r == self.spec_strip_components(),
    {
        self.strip_components
    }
}

/// The number of non-empty `/`-separated segments of a path.
pub open spec fn seg_count(s: Seq<char>) -> int
    decreases s.len(),
{
    if s.len() == 0 {
        0
    } else if s[0] == '/' {
        seg_count(s.drop_first())
    } else {
        proof {
            lemma_seg_len_bounds(s);
        }
        1 + seg_count(s.skip(seg_len(s)))
    }
}

/// The length of the maximal prefix of `s` without a `/`.
pub open spec fn seg_len(s: Seq<char>) -> int
    decreases s.len(),
{
    if s.len() == 0 || s[0] == '/' {
        0
    } else {
        1 + seg_len(s.drop_first())
    }
}

pub proof fn lemma_seg_len_bounds(s: Seq<char>)
    ensures
        0 <= seg_len(s) <= s.len(),
        s.len() > 0 && s[0] != '/' ==> seg_len(s) >= 1,
    decreases s.len(),
{
    if s.len() > 0 && s[0] != '/' {
        lemma_seg_len_bounds(s.drop_first());
    }
}

/// `s` without its leading `/` characters.
pub open spec fn spec_drop_leading_slashes(s: Seq<char>) -> Seq<char>
    decreases s.len(),
{
    if s.len() > 0 && s[0] == '/' {
        spec_drop_leading_slashes(s.drop_first())
    } else {
        s
    }
}

/// Counts the non-empty `/`-separated segments of a path.
pub fn count_segments(path: &str) -> (r: usize)
    ensures
        r == seg_count(path@),
{
    let v = str_to_chars(path);
    let n = v.len();
    let mut count: usize = 0;
    let mut i: usize = 0;
    proof {
        assert(v@.skip(0) =~= v@);
        lemma_seg_count_nonneg(v@);
    }
    while i < n
        invariant
            n == v@.len(),
            v@ == path@,
            i <= n,
            count + seg_count(v@.skip(i as int)) == seg_count(path@),
            count <= i,
        decreases n - i,
    {
        let ghost rest = v@.skip(i as int);
        proof {
            assert(rest[0] == v@[i as int]);
        }
        if v[i] == '/' {
            i += 1;
            proof {
                assert(rest.drop_first() =~= v@.skip(i as int));
            }
        } else {
            let mut j: usize = i + 1;
            while j < n && v[j] != '/'
                invariant
                    n == v@.len(),
                    i < j <= n,
                    forall|t: int| i <= t < j ==> v@[t] != '/',
                decreases n - j,
            {
                j += 1;
            }
            proof {
                assert(forall|t: int| 0 <= t < j - i ==> rest[t] != '/');
                lemma_seg_len_is(rest, j - i);
                assert(rest.skip(seg_len(rest)) =~= v@.skip(j as int));
                lemma_seg_count_nonneg(v@.skip(j as int));
            }
            count += 1;
            i = j;
        }
    }
    proof {
        assert(v@.skip(n as int) =~= Seq::<char>::empty());
    }
    count
}

proof fn lemma_seg_count_nonneg(s: Seq<char>)
    ensures
        seg_count(s) >= 0,
    decreases s.len(),
{
    if s.len() > 0 {
        if s[0] == '/' {
            lemma_seg_count_nonneg(s.drop_first());
        } else {
            lemma_seg_len_bounds(s);
            lemma_seg_count_nonneg(s.skip(seg_len(s)));
        }
    }
}

proof fn lemma_seg_len_is(s: Seq<char>, k: int)
    requires
        0 <= k <= s.len(),
        forall|t: int| 0 <= t < k ==> s[t] != '/',
        k < s.len() ==> s[k] == '/',
    ensures
        seg_len(s) == k,
    decreases k,
{
    if k > 0 {
        lemma_seg_len_is(s.drop_first(), k - 1);
    }
}

/// The command line of the receiving side: a shell that makes the target
/// directory and unpacks the compressed archive into it, stripping the
/// carried number of leading components.
pub fn receive_args(remote: &str, info: TarInfo) -> (r: Vec<String>)
    ensures
        r@.len() == 5,
        r@[0]@ == "/bin/sh"@,
        r@[1]@ == "-c"@,
        r@[2]@ == "mkdir -p \"$1\" && exec tar --strip-components "@ + spec_decimal(
            info.spec_strip_components() as nat,
        ) + " -C \"$1\" -z -xv"@,
        r@[3]@ == "-"@,
        r@[4]@ == remote@,
{
    let mut script: Vec<char> = Vec::new();
    push_str_chars(&mut script, "mkdir -p \"$1\" && exec tar --strip-components ");
    push_decimal(&mut script, info.strip_components());
    push_str_chars(&mut script, " -C \"$1\" -z -xv");
    let mut out: Vec<String> = Vec::new();
    out.push(chars_to_string(&str_to_chars("/bin/sh")));
    out.push(chars_to_string(&str_to_chars("-c")));
    out.push(chars_to_string(&script));
    out.push(chars_to_string(&str_to_chars("-")));
    out.push(chars_to_string(&str_to_chars(remote)));
    out
}

/// The command line of the sending side, with the strip count the receiver
/// needs: an absolute path is archived from the filesystem root with its
/// leading slashes removed, a relative one from the working directory; the
/// receiver strips all but the last path component.
pub fn send_args(local: &str) -> (r: (TarInfo, Vec<String>))
    requires
        seg_count(local@) >= 1,
    ensures
        r.0.spec_strip_components() == seg_count(local@) - 1,
        r.1@.len() == 6,
        r.1@[0]@ == "tar"@,
        r.1@[1]@ == "-C"@,
        r.1@[2]@ == (if local@.len() > 0 && local@[0] == '/' {
            "/"@
        } else {
            "."@
        }),
        r.1@[3]@ == "-c"@,
        r.1@[4]@ == "-z"@,
        r.1@[5]@ == (if local@.len() > 0 && local@[0] == '/' {
            spec_drop_leading_slashes(local@)
        } else {
            local@
        }),
{
    let v = str_to_chars(local);
    let n = v.len();
    let absolute = n > 0 && v[0] == '/';
    let archived = if absolute {
        let mut k: usize = 0;
        while k < n && v[k] == '/'
            invariant
                n == v@.len(),
                v@ == local@,
                k <= n,
                forall|t: int| 0 <= t < k ==> v@[t] == '/',
            decreases n - k,
        {
            k += 1;
        }
        proof {
            lemma_drop_leading_is(local@, k as int);
        }
        let tail = subrange_chars(&v, k, n);
        proof {
            assert(tail@ =~= local@.skip(k as int));
        }
        chars_to_string(&tail)
    } else {
        chars_to_string(&v)
    };
    let working_dir = if absolute {
        chars_to_string(&str_to_chars("/"))
    } else {
        chars_to_string(&str_to_chars("."))
    };
    let segments = count_segments(local);
    let info = TarInfo::new(segments - 1);
    let mut out: Vec<String> = Vec::new();
    out.push(chars_to_string(&str_to_chars("tar")));
    out.push(chars_to_string(&str_to_chars("-C")));
    out.push(working_dir);
    out.push(chars_to_string(&str_to_chars("-c")));
    out.push(chars_to_string(&str_to_chars("-z")));
    out.push(archived);
    (info, out)
}

proof fn lemma_drop_leading_is(s: Seq<char>, k: int)
    requires
        0 <= k <= s.len(),
        forall|t: int| 0 <= t < k ==> s[t] == '/',
        k < s.len() ==> s[k] != '/',
    ensures
        spec_drop_leading_slashes(s) == s.skip(k),
    decreases k,
{
    if k == 0 {
        assert(s.skip(0) =~= s);
    } else {
        assert(s[0] == '/');
        lemma_drop_leading_is(s.drop_first(), k - 1);
        assert(s.drop_first().skip(k - 1) =~= s.skip(k));
    }
}

} // verus!
