//! Character-level utilities shared by the engine: conversions between
//! strings and character vectors, path joining, trimming, splitting and
//! decimal formatting, each against an exact sequence-level specification.

use vstd::prelude::*;
use vstd::string::StrSliceExecFns;

verus! {

// ---------------------------------------------------------------------------
// Conversions between `str`/`String` and `Vec<char>`
// ---------------------------------------------------------------------------

/// Collects the characters of a string slice into a vector.
pub fn str_to_chars(s: &str) -> (r: Vec<char>)
    ensures
        r@ == s@,
{
    let n = s.unicode_len();
    let mut v: Vec<char> = Vec::new();
    let mut i: usize = 0;
    while i < n
        invariant
            n == s@.len(),
            i <= n,
            v@ == s@.take(i as int),
        decreases n - i,
    {
        v.push(s.get_char(i));
        i += 1;
        proof {
            assert(s@.take(i as int) =~= s@.take(i - 1).push(s@[i - 1]));
        }
    }
    proof {
        assert(s@.take(n as int) =~= s@);
    }
    v
}

/// Relies on `String`'s `FromIterator<char>` implementation: collecting
/// characters yields the string of exactly those characters in order.
#[verifier::external_body]
pub fn chars_to_string(v: &Vec<char>) -> (r: String)
    ensures
        r@ == v@,
{
    v.iter().collect()
}

/// Appends every character of `s` to `v`.
pub fn push_str_chars(v: &mut Vec<char>, s: &str)
    ensures
        final(v)@ == old(v)@ + s@,
{
    let mut tail = str_to_chars(s);
    v.append(&mut tail);
}

// ---------------------------------------------------------------------------
// Path joining
// ---------------------------------------------------------------------------

/// The sequence `a + "/" + b`.
pub open spec fn spec_path_join(a: Seq<char>, b: Seq<char>) -> Seq<char> {
    a + seq!['/'] + b
}

/// Joins two path fragments with a `/` separator.
pub fn path_join(a: &str, b: &str) -> (r: String)
    ensures
        r@ == spec_path_join(a@, b@),
{
    let mut v = str_to_chars(a);
    v.push('/');
    let mut tail = str_to_chars(b);
    v.append(&mut tail);
    proof {
        assert(v@ =~= spec_path_join(a@, b@));
    }
    chars_to_string(&v)
}

/// Concatenates two strings.
pub fn str_concat(a: &str, b: &str) -> (r: String)
    ensures
        r@ == a@ + b@,
{
    let mut v = str_to_chars(a);
    let mut tail = str_to_chars(b);
    v.append(&mut tail);
    chars_to_string(&v)
}

/// Compares two string slices character by character.
pub fn str_eq(a: &str, b: &str) -> (r: bool)
    ensures
        r == (a@ == b@),
{
    let av = str_to_chars(a);
    let bv = str_to_chars(b);
    let n = av.len();
    if n != bv.len() {
        return false;
    }
    let mut k: usize = 0;
    while k < n
        invariant
            n == av@.len() == bv@.len(),
            av@ == a@,
            bv@ == b@,
            k <= n,
            forall|j: int| 0 <= j < k ==> av@[j] == bv@[j],
        decreases n - k,
    {
        if av[k] != bv[k] {
            return false;
        }
        k += 1;
    }
    proof {
        assert(a@ =~= b@);
    }
    true
}

// ---------------------------------------------------------------------------
// Trimming
// ---------------------------------------------------------------------------

/// True for the blank characters that trimming removes: space, tab, newline
/// and carriage return.
pub open spec fn spec_is_space(c: char) -> bool {
    c == ' ' || c == '\t' || c == '\n' || c == '\r'
}

/// Decides whether a character is blank.
pub fn is_space(c: char) -> (r: bool)
    ensures
        r == spec_is_space(c),
{
    c == ' ' || c == '\t' || c == '\n' || c == '\r'
}

/// `s` without its leading blank characters.
pub open spec fn spec_trim_front(s: Seq<char>) -> Seq<char>
    decreases s.len(),
{
    if s.len() > 0 && spec_is_space(s[0]) {
        spec_trim_front(s.drop_first())
    } else {
        s
    }
}

/// `s` without its trailing blank characters.
pub open spec fn spec_trim_back(s: Seq<char>) -> Seq<char>
    decreases s.len(),
{
    if s.len() > 0 && spec_is_space(s[s.len() - 1]) {
        spec_trim_back(s.drop_last())
    } else {
        s
    }
}

/// `s` without leading and trailing blank characters.
pub open spec fn spec_trim(s: Seq<char>) -> Seq<char> {
    spec_trim_back(spec_trim_front(s))
}

proof fn lemma_trim_front_skip(s: Seq<char>, lo: int)
    requires
        0 <= lo <= s.len(),
        forall|j: int| 0 <= j < lo ==> spec_is_space(s[j]),
        lo < s.len() ==> !spec_is_space(s[lo]),
    ensures
        spec_trim_front(s) == s.skip(lo),
    decreases lo,
{
    if lo == 0 {
        assert(s.skip(0) =~= s);
    } else {
        assert(spec_is_space(s[0]));
        assert(s.len() > 0);
        lemma_trim_front_skip(s.drop_first(), lo - 1);
        assert(s.drop_first().skip(lo - 1) =~= s.skip(lo));
    }
}

proof fn lemma_trim_back_take(s: Seq<char>, hi: int)
    requires
        0 <= hi <= s.len(),
        forall|j: int| hi <= j < s.len() ==> spec_is_space(s[j]),
        hi > 0 ==> !spec_is_space(s[hi - 1]),
    ensures
        spec_trim_back(s) == s.take(hi),
    decreases s.len(),
{
    if hi == s.len() {
        if s.len() > 0 && spec_is_space(s[s.len() - 1]) {
            assert(hi > 0 && !spec_is_space(s[hi - 1]));
            assert(false);
        }
        assert(s.take(hi) =~= s);
    } else {
        assert(spec_is_space(s[s.len() - 1]));
        assert(s.len() > 0);
        lemma_trim_back_take(s.drop_last(), hi);
        assert(s.drop_last().take(hi) =~= s.take(hi));
    }
}

/// Removes leading and trailing blank characters from a string.
pub fn trim(s: &str) -> (r: String)
    ensures
        r@ == spec_trim(s@),
{
    let v = str_to_chars(s);
    let n = v.len();
    let mut lo: usize = 0;
    while lo < n && is_space(v[lo])
        invariant
            n == v@.len(),
            lo <= n,
            v@ == s@,
            forall|j: int| 0 <= j < lo ==> spec_is_space(s@[j]),
        decreases n - lo,
    {
        lo += 1;
    }
    proof {
        lemma_trim_front_skip(s@, lo as int);
    }
    let mut hi: usize = n;
    while hi > lo && is_space(v[hi - 1])
        invariant
            n == v@.len(),
            lo <= hi <= n,
            v@ == s@,
            forall|j: int| hi <= j < n ==> spec_is_space(s@[j]),
        decreases hi,
    {
        hi -= 1;
    }
    let mut out: Vec<char> = Vec::new();
    let mut i: usize = lo;
    while i < hi
        invariant
            lo <= i <= hi <= n,
            n == v@.len(),
            v@ == s@,
            out@ == s@.subrange(lo as int, i as int),
        decreases hi - i,
    {
        out.push(v[i]);
        i += 1;
        proof {
            assert(s@.subrange(lo as int, i as int) =~= s@.subrange(lo as int, i - 1).push(s@[i - 1]));
        }
    }
    proof {
        let front = s@.skip(lo as int);
        lemma_trim_back_take(front, hi - lo);
        assert(forall|j: int| (hi - lo) <= j < front.len() ==> spec_is_space(#[trigger] front[j]));
        assert(front.take(hi - lo) =~= s@.subrange(lo as int, hi as int));
    }
    chars_to_string(&out)
}

// ---------------------------------------------------------------------------
// Decimal formatting
// ---------------------------------------------------------------------------

/// The digit character for a value below ten.
pub open spec fn spec_digit_char(d: nat) -> char
    recommends
        d < 10,
{
    ((d + 0x30) as u8) as char
}

/// The decimal representation of `n`, most significant digit first.
pub open spec fn spec_decimal(n: nat) -> Seq<char>
    decreases n,
{
    if n < 10 {
        seq![spec_digit_char(n)]
    } else {
        spec_decimal(n / 10).push(spec_digit_char(n % 10))
    }
}

/// Appends the decimal representation of `n` to `v`.
pub fn push_decimal(v: &mut Vec<char>, n: usize)
    ensures
        final(v)@ == old(v)@ + spec_decimal(n as nat),
    decreases n,
{
    if n < 10 {
        let d = (n as u8) + 0x30;
        v.push(d as char);
    } else {
        push_decimal(v, n / 10);
        let d = ((n % 10) as u8) + 0x30;
        v.push(d as char);
    }
}

/// Formats `n` in decimal.
pub fn usize_to_string(n: usize) -> (r: String)
    ensures
        r@ == spec_decimal(n as nat),
{
    let mut v: Vec<char> = Vec::new();
    push_decimal(&mut v, n);
    chars_to_string(&v)
}

// ---------------------------------------------------------------------------
// Splitting
// ---------------------------------------------------------------------------

/// The index of the first occurrence of `c` in `s`, if any.
pub open spec fn spec_find_char(s: Seq<char>, c: char) -> Option<int> {
    if exists|i: int| 0 <= i < s.len() && s[i] == c {
        Some(choose|i: int| 0 <= i < s.len() && s[i] == c && forall|j: int| 0 <= j < i ==> s[j] != c)
    } else {
        None
    }
}

/// Finds the first occurrence of `c` in `v`.
pub fn find_char(v: &Vec<char>, c: char) -> (r: Option<usize>)
    ensures
        match r {
            Some(i) => {
                &&& 0 <= i < v@.len()
                &&& v@[i as int] == c
                &&& forall|j: int| 0 <= j < i ==> v@[j] != c
            },
            None => forall|j: int| 0 <= j < v@.len() ==> v@[j] != c,
        },
{
    let n = v.len();
    let mut i: usize = 0;
    while i < n
        invariant
            n == v@.len(),
            i <= n,
            forall|j: int| 0 <= j < i ==> v@[j] != c,
        decreases n - i,
    {
        if v[i] == c {
            return Some(i);
        }
        i += 1;
    }
    None
}

/// Copies `v[lo..hi]` into a fresh vector.
pub fn subrange_chars(v: &Vec<char>, lo: usize, hi: usize) -> (r: Vec<char>)
    requires
        lo <= hi <= v@.len(),
    ensures
        r@ == v@.subrange(lo as int, hi as int),
{
    let mut out: Vec<char> = Vec::new();
    let mut i: usize = lo;
    while i < hi
        invariant
            lo <= i <= hi <= v@.len(),
            out@ == v@.subrange(lo as int, i as int),
        decreases hi - i,
    {
        out.push(v[i]);
        i += 1;
        proof {
            assert(v@.subrange(lo as int, i as int) =~= v@.subrange(lo as int, i - 1).push(v@[i - 1]));
        }
    }
    out
}

/// Splits `s` at the first occurrence of `c`: the part before and the part
/// after the separator, or `None` when `c` does not occur.
pub fn split_once(s: &str, c: char) -> (r: Option<(String, String)>)
    ensures
        match r {
            Some(pair) => exists|i: int|
                {
                    &&& 0 <= i < s@.len()
                    &&& s@[i] == c
                    &&& (forall|j: int| 0 <= j < i ==> s@[j] != c)
                    &&& pair.0@ == s@.subrange(0, i)
                    &&& pair.1@ == s@.subrange(i + 1, s@.len() as int)
                },
            None => forall|j: int| 0 <= j < s@.len() ==> s@[j] != c,
        },
{
    let v = str_to_chars(s);
    let n = v.len();
    match find_char(&v, c) {
        Some(i) => {
            let before = subrange_chars(&v, 0, i);
            let after = subrange_chars(&v, i + 1, n);
            let b = chars_to_string(&before);
            let a = chars_to_string(&after);
            proof {
                assert(0 <= i < s@.len() && s@[i as int] == c && (forall|j: int|
                    0 <= j < i ==> s@[j] != c) && b@ == s@.subrange(0, i as int) && a@
                    == s@.subrange(i + 1, s@.len() as int));
            }
            Some((b, a))
        },
        None => None,
    }
}

} // verus!
