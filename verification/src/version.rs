//! The semantic-version ordering of the toolbox.
//!
//! Version strings such as `v1.10.0` are compared numerically where they hold
//! runs of digits and lexicographically elsewhere, so that `v1.9.3` sorts
//! before `v1.10.0`.  A version string is split into tokens: each maximal run
//! of decimal digits becomes a number token (with leading zeros stripped, so
//! that magnitudes can be compared by length and then digit by digit), and
//! each maximal run of other characters becomes a text token.  Token
//! sequences are compared lexicographically by class rank first — a
//! pre-release marker (a `-` or `.` followed by `alpha`, `beta`, `pre` or
//! `rc`) ranks below the end of the string, numbers above it, and any other
//! text highest — then numbers by magnitude and text character by
//! character.  So `v1.0.0-rc1` sorts before `v1.0.0`, while `v1.0.0.1`
//! sorts after it.  The resulting relation is total and transitive, which
//! the lemmas at the end of this module establish, and is the order in
//! which locally installed versions are ranked.

use vstd::prelude::*;
use vstd::multiset::Multiset;
use crate::text::str_to_chars;

verus! {

// ---------------------------------------------------------------------------
// The specification order
// ---------------------------------------------------------------------------

/// True when `c` is a decimal digit.
pub open spec fn spec_is_digit(c: char) -> bool {
    '0' <= c && c <= '9'
}

/// Decides whether a character is a decimal digit.
pub fn is_digit(c: char) -> (r: bool)
    ensures
        r == spec_is_digit(c),
{
    '0' <= c && c <= '9'
}

/// One token of a version string: a run of digits with leading zeros
/// stripped, or a run of non-digit characters.
pub enum VersionToken {
    Number(Seq<char>),
    Text(Seq<char>),
}

/// The length of the maximal prefix of `s` whose characters all satisfy
/// `spec_is_digit == d`.
pub open spec fn run_len(s: Seq<char>, d: bool) -> int
    decreases s.len(),
{
    if s.len() == 0 || spec_is_digit(s[0]) != d {
        0
    } else {
        1 + run_len(s.drop_first(), d)
    }
}

pub proof fn lemma_run_len_bounds(s: Seq<char>, d: bool)
    ensures
        0 <= run_len(s, d) <= s.len(),
    decreases s.len(),
{
    if s.len() > 0 && spec_is_digit(s[0]) == d {
        lemma_run_len_bounds(s.drop_first(), d);
    }
}

/// `s` without its leading `'0'` characters.
pub open spec fn strip_zeros(s: Seq<char>) -> Seq<char>
    decreases s.len(),
{
    if s.len() > 0 && s[0] == '0' {
        strip_zeros(s.drop_first())
    } else {
        s
    }
}

/// The token sequence of a version string.
pub open spec fn tokens_of(s: Seq<char>) -> Seq<VersionToken>
    decreases s.len(),
{
    if s.len() == 0 {
        Seq::empty()
    } else {
        let d = spec_is_digit(s[0]);
        let k = run_len(s, d);
        proof {
            lemma_run_len_bounds(s, d);
            lemma_run_len_bounds(s.drop_first(), d);
            assert(k >= 1);
        }
        let tok = if d {
            VersionToken::Number(strip_zeros(s.take(k)))
        } else {
            VersionToken::Text(s.take(k))
        };
        seq![tok] + tokens_of(s.skip(k))
    }
}

/// Strict lexicographic order on character sequences, by code point; a
/// proper prefix sorts before any extension of it.
pub open spec fn lex_lt(u: Seq<char>, v: Seq<char>) -> bool
    decreases u.len(),
{
    if v.len() == 0 {
        false
    } else if u.len() == 0 {
        true
    } else if u[0] != v[0] {
        u[0] < v[0]
    } else {
        lex_lt(u.drop_first(), v.drop_first())
    }
}

/// Strict numeric order on digit runs with leading zeros stripped: a shorter
/// run is a smaller number, and equally long runs compare digit by digit.
pub open spec fn num_lt(u: Seq<char>, v: Seq<char>) -> bool {
    u.len() < v.len() || (u.len() == v.len() && lex_lt(u, v))
}

/// True when `p` is a prefix of `u`.
pub open spec fn starts_with(u: Seq<char>, p: Seq<char>) -> bool {
    p.len() <= u.len() && u.take(p.len() as int) == p
}

/// True when a text run marks a pre-release: a `-` or `.` separator
/// followed by one of the keywords `alpha`, `beta`, `pre` or `rc`, as in
/// `v1.0.0-rc1`.
pub open spec fn prerelease_text(u: Seq<char>) -> bool {
    &&& u.len() >= 2
    &&& (u[0] == '-' || u[0] == '.')
    &&& {
        let t = u.skip(1);
        starts_with(t, "alpha"@) || starts_with(t, "beta"@) || starts_with(t, "pre"@)
            || starts_with(t, "rc"@)
    }
}

/// The rank of a token's class.  The end of a version string ranks `1`, so
/// a pre-release text token sorts below the bare version it extends, while
/// numbers and any other text sort above it.
pub open spec fn tok_class(t: VersionToken) -> int {
    match t {
        VersionToken::Number(_) => 2,
        VersionToken::Text(u) => if prerelease_text(u) {
            0int
        } else {
            3int
        },
    }
}

/// Strict order on tokens: by class rank first, then numbers by magnitude
/// and text lexicographically.
pub open spec fn tok_lt(a: VersionToken, b: VersionToken) -> bool {
    if tok_class(a) != tok_class(b) {
        tok_class(a) < tok_class(b)
    } else {
        match (a, b) {
            (VersionToken::Number(u), VersionToken::Number(v)) => num_lt(u, v),
            (VersionToken::Text(u), VersionToken::Text(v)) => lex_lt(u, v),
            _ => false,
        }
    }
}

/// Lexicographic order on token sequences, with the end of a sequence
/// ranked between pre-release text and everything else: a pre-release
/// extension of a common prefix sorts below the bare prefix, any other
/// extension above it.
pub open spec fn toks_le(a: Seq<VersionToken>, b: Seq<VersionToken>) -> bool
    decreases a.len(),
{
    if a.len() == 0 && b.len() == 0 {
        true
    } else if a.len() == 0 {
        tok_class(b[0]) > 1
    } else if b.len() == 0 {
        tok_class(a[0]) < 1
    } else if a[0] == b[0] {
        toks_le(a.drop_first(), b.drop_first())
    } else {
        tok_lt(a[0], b[0])
    }
}

/// The version ordering: `a` sorts no later than `b`.
pub open spec fn version_le(a: Seq<char>, b: Seq<char>) -> bool {
    toks_le(tokens_of(a), tokens_of(b))
}

// ---------------------------------------------------------------------------
// Order lemmas
// ---------------------------------------------------------------------------

proof fn lemma_lex_lt_irrefl(u: Seq<char>)
    ensures
        !lex_lt(u, u),
    decreases u.len(),
{
    if u.len() > 0 {
        lemma_lex_lt_irrefl(u.drop_first());
    }
}

proof fn lemma_lex_lt_trichotomy(u: Seq<char>, v: Seq<char>)
    ensures
        lex_lt(u, v) || lex_lt(v, u) || u == v,
    decreases u.len(),
{
    if u.len() == 0 && v.len() == 0 {
        assert(u =~= v);
    } else if u.len() > 0 && v.len() > 0 && u[0] == v[0] {
        lemma_lex_lt_trichotomy(u.drop_first(), v.drop_first());
        if u.drop_first() == v.drop_first() {
            assert(u.drop_first().len() == u.len() - 1);
            assert(v.drop_first().len() == v.len() - 1);
            assert(u.len() == v.len());
            assert forall|i: int| 0 <= i < u.len() implies u[i] == v[i] by {
                if i >= 1 {
                    assert(u.drop_first()[i - 1] == v.drop_first()[i - 1]);
                }
            }
            assert(u =~= v);
        }
    }
}

proof fn lemma_lex_lt_trans(u: Seq<char>, v: Seq<char>, w: Seq<char>)
    requires
        lex_lt(u, v),
        lex_lt(v, w),
    ensures
        lex_lt(u, w),
    decreases u.len() + v.len() + w.len(),
{
    if u.len() == 0 {
        // w is nonempty because lex_lt(v, w)
    } else {
        // u nonempty; lex_lt(u, v) forces v nonempty, lex_lt(v, w) forces w nonempty
        if u[0] == v[0] {
            if v[0] == w[0] {
                lemma_lex_lt_trans(u.drop_first(), v.drop_first(), w.drop_first());
            }
        } else {
            if v[0] == w[0] {
            } else {
                // u[0] < v[0] < w[0]
            }
        }
    }
}

proof fn lemma_num_lt_trans(u: Seq<char>, v: Seq<char>, w: Seq<char>)
    requires
        num_lt(u, v),
        num_lt(v, w),
    ensures
        num_lt(u, w),
{
    if u.len() == v.len() && v.len() == w.len() {
        lemma_lex_lt_trans(u, v, w);
    }
}

proof fn lemma_tok_class_values(a: VersionToken)
    ensures
        tok_class(a) == 0 || tok_class(a) == 2 || tok_class(a) == 3,
{
}

proof fn lemma_tok_lt_irrefl(a: VersionToken)
    ensures
        !tok_lt(a, a),
{
    match a {
        VersionToken::Number(u) => lemma_lex_lt_irrefl(u),
        VersionToken::Text(u) => lemma_lex_lt_irrefl(u),
    }
}

proof fn lemma_tok_lt_trans(a: VersionToken, b: VersionToken, c: VersionToken)
    requires
        tok_lt(a, b),
        tok_lt(b, c),
    ensures
        tok_lt(a, c),
{
    if tok_class(a) == tok_class(b) && tok_class(b) == tok_class(c) {
        match (a, b, c) {
            (VersionToken::Number(u), VersionToken::Number(v), VersionToken::Number(w)) => {
                lemma_num_lt_trans(u, v, w);
            },
            (VersionToken::Text(u), VersionToken::Text(v), VersionToken::Text(w)) => {
                lemma_lex_lt_trans(u, v, w);
            },
            _ => {},
        }
    }
}

proof fn lemma_tok_trichotomy(a: VersionToken, b: VersionToken)
    ensures
        tok_lt(a, b) || tok_lt(b, a) || a == b,
{
    if tok_class(a) == tok_class(b) {
        match (a, b) {
            (VersionToken::Number(u), VersionToken::Number(v)) => {
                if u.len() == v.len() {
                    lemma_lex_lt_trichotomy(u, v);
                }
            },
            (VersionToken::Text(u), VersionToken::Text(v)) => {
                lemma_lex_lt_trichotomy(u, v);
            },
            _ => {},
        }
    }
}

proof fn lemma_toks_le_total(a: Seq<VersionToken>, b: Seq<VersionToken>)
    ensures
        toks_le(a, b) || toks_le(b, a),
    decreases a.len(),
{
    if a.len() == 0 && b.len() > 0 {
        lemma_tok_class_values(b[0]);
    } else if a.len() > 0 && b.len() == 0 {
        lemma_tok_class_values(a[0]);
    } else if a.len() > 0 && b.len() > 0 {
        if a[0] == b[0] {
            lemma_toks_le_total(a.drop_first(), b.drop_first());
        } else {
            lemma_tok_trichotomy(a[0], b[0]);
        }
    }
}

proof fn lemma_toks_le_trans(a: Seq<VersionToken>, b: Seq<VersionToken>, c: Seq<VersionToken>)
    requires
        toks_le(a, b),
        toks_le(b, c),
    ensures
        toks_le(a, c),
    decreases a.len() + b.len() + c.len(),
{
    if a.len() == 0 && b.len() == 0 {
        // a and b are the same empty sequence
        assert(a =~= b);
    } else if a.len() == 0 {
        // toks_le(a, b) says b opens above the end rank
        lemma_tok_class_values(b[0]);
        if c.len() > 0 && b[0] != c[0] {
            // tok_lt(b[0], c[0]): whichever way, c[0] ranks above the end too
            lemma_tok_class_values(c[0]);
        }
    } else if b.len() == 0 {
        // a opens below the end rank, and c is empty or opens above it
        lemma_tok_class_values(a[0]);
        if c.len() > 0 {
            lemma_tok_class_values(c[0]);
            assert(tok_class(a[0]) < tok_class(c[0]));
            assert(a[0] != c[0]);
        }
    } else if c.len() == 0 {
        // b opens below the end rank; so does a
        lemma_tok_class_values(a[0]);
        lemma_tok_class_values(b[0]);
        if a[0] != b[0] {
            // tok_lt(a[0], b[0]) with tok_class(b[0]) == 0 forces equal classes
            assert(tok_class(a[0]) == 0);
        }
    } else {
        if a[0] == b[0] {
            if b[0] == c[0] {
                lemma_toks_le_trans(a.drop_first(), b.drop_first(), c.drop_first());
            }
        } else {
            if b[0] == c[0] {
            } else {
                lemma_tok_lt_trans(a[0], b[0], c[0]);
                if a[0] == c[0] {
                    lemma_tok_lt_irrefl(a[0]);
                }
            }
        }
    }
}

/// The version ordering relates every pair of version strings: for any `a`
/// and `b`, `a` sorts no later than `b` or `b` sorts no later than `a`.
pub proof fn lemma_version_le_total(a: Seq<char>, b: Seq<char>)
    ensures
        version_le(a, b) || version_le(b, a),
{
    lemma_toks_le_total(tokens_of(a), tokens_of(b));
}

/// The version ordering is transitive.
pub proof fn lemma_version_le_trans(a: Seq<char>, b: Seq<char>, c: Seq<char>)
    requires
        version_le(a, b),
        version_le(b, c),
    ensures
        version_le(a, c),
{
    lemma_toks_le_trans(tokens_of(a), tokens_of(b), tokens_of(c));
}

/// The version ordering is reflexive.
pub proof fn lemma_version_le_refl(a: Seq<char>)
    ensures
        version_le(a, a),
{
    lemma_toks_le_refl(tokens_of(a));
}

proof fn lemma_toks_le_refl(a: Seq<VersionToken>)
    ensures
        toks_le(a, a),
    decreases a.len(),
{
    if a.len() > 0 {
        lemma_toks_le_refl(a.drop_first());
    }
}

// ---------------------------------------------------------------------------
// Sortedness
// ---------------------------------------------------------------------------

/// True when `s` is sorted ascending under the version ordering.
pub open spec fn versions_sorted(s: Seq<Seq<char>>) -> bool {
    forall|i: int, j: int| 0 <= i < j < s.len() ==> version_le(s[i], s[j])
}

/// In a sorted sequence of version strings, the last element is the maximum:
/// every element sorts no later than it.
pub proof fn lemma_sorted_last_is_max(s: Seq<Seq<char>>)
    requires
        versions_sorted(s),
        s.len() > 0,
    ensures
        forall|i: int| 0 <= i < s.len() ==> version_le(s[i], s.last()),
{
    assert forall|i: int| 0 <= i < s.len() implies version_le(s[i], s.last()) by {
        if i < s.len() - 1 {
            assert(version_le(s[i], s[s.len() - 1]));
        } else {
            lemma_version_le_refl(s[i]);
        }
    }
}

// ---------------------------------------------------------------------------
// The executable comparison
// ---------------------------------------------------------------------------

/// One token of a version string in executable form.
pub struct Token {
    pub num: bool,
    pub text: Vec<char>,
}

impl View for Token {
    type V = VersionToken;

    open spec fn view(&self) -> VersionToken {
        if self.num {
            VersionToken::Number(self.text@)
        } else {
            VersionToken::Text(self.text@)
        }
    }
}

proof fn lemma_run_len_is(s: Seq<char>, d: bool, k: int)
    requires
        0 <= k <= s.len(),
        forall|t: int| 0 <= t < k ==> spec_is_digit(s[t]) == d,
        k < s.len() ==> spec_is_digit(s[k]) != d,
    ensures
        run_len(s, d) == k,
    decreases k,
{
    if k == 0 {
    } else {
        assert(spec_is_digit(s[0]) == d);
        lemma_run_len_is(s.drop_first(), d, k - 1);
    }
}

proof fn lemma_strip_zeros_is(s: Seq<char>, k: int)
    requires
        0 <= k <= s.len(),
        forall|t: int| 0 <= t < k ==> s[t] == '0',
        k < s.len() ==> s[k] != '0',
    ensures
        strip_zeros(s) == s.skip(k),
    decreases k,
{
    if k == 0 {
        assert(s.skip(0) =~= s);
    } else {
        assert(s[0] == '0');
        lemma_strip_zeros_is(s.drop_first(), k - 1);
        assert(s.drop_first().skip(k - 1) =~= s.skip(k));
    }
}

/// Splits a version string's characters into tokens.
fn tokenize(v: &Vec<char>) -> (toks: Vec<Token>)
    ensures
        toks@.map_values(|t: Token| t@) == tokens_of(v@),
{
    let n = v.len();
    let mut toks: Vec<Token> = Vec::new();
    let mut i: usize = 0;
    proof {
        assert(v@.skip(0) =~= v@);
        assert(Seq::<Token>::empty().map_values(|t: Token| t@) + tokens_of(v@) =~= tokens_of(v@));
    }
    while i < n
        invariant
            n == v@.len(),
            i <= n,
            tokens_of(v@) == toks@.map_values(|t: Token| t@) + tokens_of(v@.skip(i as int)),
        decreases n - i,
    {
        let ghost prev_toks = toks@;
        let d = is_digit(v[i]);
        let mut j: usize = i + 1;
        while j < n && is_digit(v[j]) == d
            invariant
                n == v@.len(),
                i < j <= n,
                forall|t: int| i <= t < j ==> spec_is_digit(v@[t]) == d,
            decreases n - j,
        {
            j += 1;
        }
        proof {
            let rest = v@.skip(i as int);
            assert(forall|t: int|
                0 <= t < j - i ==> spec_is_digit(#[trigger] rest[t]) == d);
            lemma_run_len_is(rest, d, j - i);
        }
        let run = crate::text::subrange_chars(v, i, j);
        let tok;
        if d {
            let mut z: usize = 0;
            while z < run.len() && run[z] == '0'
                invariant
                    z <= run@.len(),
                    forall|t: int| 0 <= t < z ==> run@[t] == '0',
                decreases run@.len() - z,
            {
                z += 1;
            }
            proof {
                lemma_strip_zeros_is(run@, z as int);
            }
            let stripped = crate::text::subrange_chars(&run, z, run.len());
            proof {
                assert(run@.skip(z as int) =~= run@.subrange(z as int, run@.len() as int));
            }
            tok = Token { num: true, text: stripped };
        } else {
            tok = Token { num: false, text: run };
        }
        toks.push(tok);
        proof {
            let rest = v@.skip(i as int);
            assert(rest.take(j - i) =~= v@.subrange(i as int, j as int));
            assert(rest.skip(j - i) =~= v@.skip(j as int));
            assert(tok@ == tokens_of(rest)[0]);
            assert(tokens_of(rest) =~= seq![tok@] + tokens_of(v@.skip(j as int)));
            assert(toks@.map_values(|t: Token| t@) =~= prev_toks.map_values(|t: Token| t@).push(
                tok@,
            ));
            assert(toks@.map_values(|t: Token| t@) + tokens_of(v@.skip(j as int)) =~= prev_toks.map_values(
                |t: Token| t@,
            ) + tokens_of(v@.skip(i as int)));
        }
        i = j;
    }
    proof {
        assert(tokens_of(v@.skip(n as int)) =~= Seq::<VersionToken>::empty());
        assert(toks@.map_values(|t: Token| t@) + Seq::<VersionToken>::empty() =~= toks@.map_values(
            |t: Token| t@,
        ));
    }
    toks
}

proof fn lemma_lex_lt_skip_eq(u: Seq<char>, v: Seq<char>, k: int)
    requires
        0 <= k <= u.len(),
        k <= v.len(),
        forall|j: int| 0 <= j < k ==> u[j] == v[j],
    ensures
        lex_lt(u, v) == lex_lt(u.skip(k), v.skip(k)),
    decreases k,
{
    if k == 0 {
        assert(u.skip(0) =~= u);
        assert(v.skip(0) =~= v);
    } else {
        assert(u[0] == v[0]);
        assert(u.len() > 0 && v.len() > 0);
        lemma_lex_lt_skip_eq(u.drop_first(), v.drop_first(), k - 1);
        assert(u.drop_first().skip(k - 1) =~= u.skip(k));
        assert(v.drop_first().skip(k - 1) =~= v.skip(k));
    }
}

/// Compares two character runs lexicographically.
fn lex_lt_exec(u: &Vec<char>, v: &Vec<char>) -> (r: bool)
    ensures
        r == lex_lt(u@, v@),
{
    let un = u.len();
    let vn = v.len();
    let mut k: usize = 0;
    loop
        invariant
            un == u@.len(),
            vn == v@.len(),
            k <= un,
            k <= vn,
            forall|j: int| 0 <= j < k ==> u@[j] == v@[j],
        decreases un - k,
    {
        proof {
            lemma_lex_lt_skip_eq(u@, v@, k as int);
        }
        if k >= un {
            proof {
                assert(u@.skip(k as int) =~= Seq::<char>::empty());
            }
            return k < vn;
        }
        if k >= vn {
            return false;
        }
        let uc = u[k];
        let vc = v[k];
        if uc != vc {
            proof {
                assert(u@.skip(k as int)[0] == u@[k as int]);
                assert(v@.skip(k as int)[0] == v@[k as int]);
            }
            return uc < vc;
        }
        k += 1;
    }
}

/// Compares two character runs for equality.
fn chars_eq(u: &Vec<char>, v: &Vec<char>) -> (r: bool)
    ensures
        r == (u@ == v@),
{
    if u.len() != v.len() {
        return false;
    }
    let n = u.len();
    let mut k: usize = 0;
    while k < n
        invariant
            n == u@.len() == v@.len(),
            k <= n,
            forall|j: int| 0 <= j < k ==> u@[j] == v@[j],
        decreases n - k,
    {
        if u[k] != v[k] {
            return false;
        }
        k += 1;
    }
    proof {
        assert(u@ =~= v@);
    }
    true
}

/// Decides whether `v` carries `p` starting at index `from`.
fn has_at(v: &Vec<char>, from: usize, p: &str) -> (r: bool)
    requires
        from <= v@.len(),
    ensures
        r == starts_with(v@.skip(from as int), p@),
{
    let pv = str_to_chars(p);
    let pn = pv.len();
    let n = v.len();
    if pn > n - from {
        return false;
    }
    let mut j: usize = 0;
    while j < pn
        invariant
            pn == p@.len(),
            pv@ == p@,
            n == v@.len(),
            from + pn <= n,
            j <= pn,
            forall|t: int| 0 <= t < j ==> v@[from + t] == p@[t],
        decreases pn - j,
    {
        if v[from + j] != pv[j] {
            proof {
                assert(v@.skip(from as int).take(pn as int)[j as int] == v@[from + j]);
            }
            return false;
        }
        j += 1;
    }
    proof {
        assert(v@.skip(from as int).take(pn as int) =~= p@);
    }
    true
}

/// Decides whether a token is a pre-release marker.
fn tok_prerelease_exec(t: &Token) -> (r: bool)
    ensures
        r == (tok_class(t@) == 0),
{
    if t.num {
        return false;
    }
    let u = &t.text;
    if u.len() < 2 {
        return false;
    }
    let c0 = u[0];
    if c0 != '-' && c0 != '.' {
        return false;
    }
    let r = has_at(u, 1, "alpha") || has_at(u, 1, "beta") || has_at(u, 1, "pre") || has_at(
        u,
        1,
        "rc",
    );
    proof {
        assert(u@.skip(1) == t.text@.skip(1));
    }
    r
}

/// Computes a token's class rank.
fn tok_class_exec(t: &Token) -> (c: u8)
    ensures
        c as int == tok_class(t@),
{
    if t.num {
        2
    } else if tok_prerelease_exec(t) {
        0
    } else {
        3
    }
}

/// Compares two tokens under the strict token order.
fn tok_lt_exec(a: &Token, b: &Token) -> (r: bool)
    ensures
        r == tok_lt(a@, b@),
{
    let ca = tok_class_exec(a);
    let cb = tok_class_exec(b);
    if ca != cb {
        ca < cb
    } else if a.num {
        if a.text.len() != b.text.len() {
            a.text.len() < b.text.len()
        } else {
            lex_lt_exec(&a.text, &b.text)
        }
    } else {
        lex_lt_exec(&a.text, &b.text)
    }
}

/// Compares two tokens for equality.
fn tok_eq_exec(a: &Token, b: &Token) -> (r: bool)
    ensures
        r == (a@ == b@),
{
    if a.num != b.num {
        return false;
    }
    chars_eq(&a.text, &b.text)
}

proof fn lemma_toks_le_skip_eq(a: Seq<VersionToken>, b: Seq<VersionToken>, k: int)
    requires
        0 <= k <= a.len(),
        k <= b.len(),
        forall|j: int| 0 <= j < k ==> a[j] == b[j],
    ensures
        toks_le(a, b) == toks_le(a.skip(k), b.skip(k)),
    decreases k,
{
    if k == 0 {
        assert(a.skip(0) =~= a);
        assert(b.skip(0) =~= b);
    } else {
        assert(a[0] == b[0]);
        lemma_toks_le_skip_eq(a.drop_first(), b.drop_first(), k - 1);
        assert(a.drop_first().skip(k - 1) =~= a.skip(k));
        assert(b.drop_first().skip(k - 1) =~= b.skip(k));
    }
}

/// Decides whether version `a` sorts no later than version `b`.
pub fn version_le_exec(a: &str, b: &str) -> (r: bool)
    ensures
        r == version_le(a@, b@),
{
    let av = str_to_chars(a);
    let bv = str_to_chars(b);
    let ta = tokenize(&av);
    let tb = tokenize(&bv);
    let ghost sa = tokens_of(a@);
    let ghost sb = tokens_of(b@);
    let an = ta.len();
    let bn = tb.len();
    proof {
        assert(sa.len() == an && sb.len() == bn);
    }
    let mut k: usize = 0;
    loop
        invariant
            an == sa.len(),
            bn == sb.len(),
            ta@.map_values(|t: Token| t@) == sa,
            tb@.map_values(|t: Token| t@) == sb,
            an == ta@.len(),
            bn == tb@.len(),
            k <= an,
            k <= bn,
            forall|j: int| 0 <= j < k ==> sa[j] == sb[j],
            version_le(a@, b@) == toks_le(sa, sb),
        decreases an - k,
    {
        proof {
            lemma_toks_le_skip_eq(sa, sb, k as int);
        }
        if k >= an && k >= bn {
            return true;
        }
        if k >= an {
            proof {
                assert(sb.skip(k as int)[0] == sb[k as int]);
                assert(sb[k as int] == tb@.map_values(|t: Token| t@)[k as int]);
                lemma_tok_class_values(sb[k as int]);
            }
            let pre = tok_prerelease_exec(&tb[k]);
            return !pre;
        }
        if k >= bn {
            proof {
                assert(sa.skip(k as int)[0] == sa[k as int]);
                assert(sa[k as int] == ta@.map_values(|t: Token| t@)[k as int]);
                lemma_tok_class_values(sa[k as int]);
            }
            let pre = tok_prerelease_exec(&ta[k]);
            return pre;
        }
        proof {
            assert(sa.skip(k as int)[0] == sa[k as int]);
            assert(sb.skip(k as int)[0] == sb[k as int]);
            assert(sa[k as int] == ta@.map_values(|t: Token| t@)[k as int]);
        }
        if !tok_eq_exec(&ta[k], &tb[k]) {
            let r = tok_lt_exec(&ta[k], &tb[k]);
            return r;
        }
        k += 1;
    }
}

// ---------------------------------------------------------------------------
// Sorting
// ---------------------------------------------------------------------------

/// The views of a sequence of strings.
pub open spec fn views_of(s: Seq<String>) -> Seq<Seq<char>> {
    s.map_values(|x: String| x@)
}

proof fn lemma_insert_to_multiset<A>(s: Seq<A>, k: int, x: A)
    requires
        0 <= k <= s.len(),
    ensures
        s.insert(k, x).to_multiset() =~= s.to_multiset().insert(x),
{
    broadcast use vstd::seq_lib::group_to_multiset_ensures;

    let inserted = s.insert(k, x);
    assert(inserted.remove(k) =~= s);
    assert(inserted[k] == x);
    assert(inserted.remove(k).to_multiset() =~= inserted.to_multiset().remove(x));
    assert(inserted.to_multiset().contains(x)) by {
        assert(inserted.contains(x));
    }
    assert(s.to_multiset() =~= inserted.to_multiset().remove(x));
    assert(s.to_multiset().insert(x) =~= inserted.to_multiset().remove(x).insert(x));
}

/// Sorts version strings ascending under the version ordering; the result
/// holds exactly the input strings, rearranged.
pub fn sort_versions(input: Vec<String>) -> (r: Vec<String>)
    ensures
        versions_sorted(views_of(r@)),
        views_of(r@).to_multiset() == views_of(input@).to_multiset(),
{
    broadcast use vstd::seq_lib::group_to_multiset_ensures;

    let mut src = input;
    let mut out: Vec<String> = Vec::new();
    let ghost all = views_of(src@);
    while src.len() > 0
        invariant
            versions_sorted(views_of(out@)),
            views_of(out@).to_multiset().add(views_of(src@).to_multiset()) == all.to_multiset(),
        decreases src@.len(),
    {
        let ghost pre_src = src@;
        let ghost pre_out = out@;
        let x = match src.pop() {
            Some(x) => x,
            None => {
                proof {
                    assert(false);
                }
                return out;
            },
        };
        proof {
            broadcast use vstd::seq_lib::group_to_multiset_ensures;

            assert(pre_src.drop_last() =~= pre_src.remove(pre_src.len() - 1));
            assert(views_of(pre_src.drop_last()) =~= views_of(pre_src).drop_last());
            assert(views_of(pre_src).drop_last() =~= views_of(pre_src).remove(
                views_of(pre_src).len() - 1,
            ));
            assert(views_of(pre_src).remove(views_of(pre_src).len() - 1).to_multiset() =~= views_of(
                pre_src,
            ).to_multiset().remove(x@));
            assert(views_of(pre_src).to_multiset().contains(x@)) by {
                assert(views_of(pre_src)[views_of(pre_src).len() - 1] == x@);
                assert(views_of(pre_src).contains(x@));
            }
        }
        let n = out.len();
        let mut k: usize = 0;
        while k < n && version_le_exec(out[k].as_str(), x.as_str())
            invariant
                n == out@.len(),
                k <= n,
                forall|j: int| 0 <= j < k ==> version_le(views_of(out@)[j], x@),
            decreases n - k,
        {
            k += 1;
        }
        proof {
            if k < n {
                lemma_version_le_total(views_of(out@)[k as int], x@);
                assert(version_le(x@, views_of(out@)[k as int]));
            }
        }
        out.insert(k, x);
        proof {
            broadcast use vstd::seq_lib::group_to_multiset_ensures;

            let prev = views_of(pre_out);
            let now = views_of(out@);
            assert(now =~= prev.insert(k as int, x@));
            lemma_insert_to_multiset(prev, k as int, x@);
            // sortedness of the new sequence
            assert forall|i: int, j: int| 0 <= i < j < now.len() implies version_le(
                now[i],
                now[j],
            ) by {
                if i < k && j == k {
                } else if i == k && j > k {
                    assert(now[j] == prev[j - 1]);
                    if k < prev.len() {
                        if j - 1 > k {
                            assert(version_le(prev[k as int], prev[j - 1]));
                            lemma_version_le_trans(x@, prev[k as int], prev[j - 1]);
                        }
                    }
                } else if i < k && j > k {
                    assert(now[i] == prev[i] && now[j] == prev[j - 1]);
                    if j - 1 == i {
                        assert(version_le(prev[i], x@));
                        assert(version_le(x@, prev[j - 1]));
                    } else {
                        assert(version_le(prev[i], prev[j - 1]));
                    }
                } else if i > k || j < k {
                    assert(i > k ==> now[i] == prev[i - 1] && now[j] == prev[j - 1]);
                    assert(j < k ==> now[i] == prev[i] && now[j] == prev[j]);
                }
            }
            // multiset bookkeeping
            assert(views_of(out@).to_multiset().add(views_of(src@).to_multiset())
                =~= all.to_multiset());
        }
    }
    proof {
        broadcast use vstd::seq_lib::group_to_multiset_ensures;

        assert(views_of(src@).to_multiset() =~= Multiset::<Seq<char>>::empty()) by {
            assert(views_of(src@) =~= Seq::<Seq<char>>::empty());
            assert(Seq::<Seq<char>>::empty().to_multiset().len() == 0);
        }
        assert(views_of(out@).to_multiset() =~= all.to_multiset());
    }
    out
}

} // verus!
