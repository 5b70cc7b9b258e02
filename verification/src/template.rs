//! Template substitution for package URLs and extraction commands.
//!
//! A template holds literal characters and placeholders of the form
//! `{key}`.  Substitution replaces each placeholder with the value bound to
//! its key and copies every other character through; a placeholder with no
//! closing brace and a key that is not bound are both errors.  The engine
//! binds the keys `name`, `version`, `stripped_version` (the version with a
//! leading `v` removed), `os` and `arch`.

use vstd::prelude::*;
use crate::error::Error;
use crate::text::str_to_chars;
use crate::text::chars_to_string;
use crate::text::subrange_chars;

verus! {

// ---------------------------------------------------------------------------
// Specification
// ---------------------------------------------------------------------------

/// The index of the first occurrence of `c` in `s`, or `None`.
pub open spec fn first_index_of(s: Seq<char>, c: char) -> Option<int>
    decreases s.len(),
{
    if s.len() == 0 {
        None
    } else if s[0] == c {
        Some(0)
    } else {
        match first_index_of(s.drop_first(), c) {
            Some(i) => Some(i + 1),
            None => None,
        }
    }
}

pub proof fn lemma_first_index_of(s: Seq<char>, c: char)
    ensures
        match first_index_of(s, c) {
            Some(i) => {
                &&& 0 <= i < s.len()
                &&& s[i] == c
                &&& forall|j: int| 0 <= j < i ==> s[j] != c
            },
            None => forall|j: int| 0 <= j < s.len() ==> s[j] != c,
        },
    decreases s.len(),
{
    if s.len() > 0 && s[0] != c {
        lemma_first_index_of(s.drop_first(), c);
        match first_index_of(s.drop_first(), c) {
            Some(i) => {
                assert(s[i + 1] == s.drop_first()[i]);
                assert forall|j: int| 0 <= j < i + 1 implies s[j] != c by {
                    if j >= 1 {
                        assert(s.drop_first()[j - 1] != c);
                    }
                }
            },
            None => {
                assert forall|j: int| 0 <= j < s.len() implies s[j] != c by {
                    if j >= 1 {
                        assert(s.drop_first()[j - 1] != c);
                    }
                }
            },
        }
    }
}

/// Prepends `p` to the content of `o`, propagating failure.
pub open spec fn opt_prepend(p: Seq<char>, o: Option<Seq<char>>) -> Option<Seq<char>> {
    match o {
        Some(t) => Some(p + t),
        None => None,
    }
}

/// The result of substituting the bindings of `env` into `s`: literal
/// characters are copied, each `{key}` placeholder becomes `env[key]`, and
/// the result is `None` when a placeholder is unterminated or its key is
/// unbound.
pub open spec fn spec_subst(s: Seq<char>, env: Map<Seq<char>, Seq<char>>) -> Option<Seq<char>>
    decreases s.len(),
{
    if s.len() == 0 {
        Some(Seq::empty())
    } else if s[0] != '{' {
        opt_prepend(seq![s[0]], spec_subst(s.drop_first(), env))
    } else {
        match first_index_of(s, '}') {
            None => None,
            Some(close) => {
                proof {
                    lemma_first_index_of(s, '}');
                }
                let key = s.subrange(1, close);
                if env.contains_key(key) {
                    opt_prepend(env[key], spec_subst(s.skip(close + 1), env))
                } else {
                    None
                }
            },
        }
    }
}

/// `version` with one leading `v` removed, if present.
pub open spec fn spec_strip_v(version: Seq<char>) -> Seq<char> {
    if version.len() > 0 && version[0] == 'v' {
        version.drop_first()
    } else {
        version
    }
}

/// The bindings the engine substitutes into its templates.
pub open spec fn spec_env(
    name: Seq<char>,
    version: Seq<char>,
    os: Seq<char>,
    arch: Seq<char>,
) -> Map<Seq<char>, Seq<char>> {
    Map::empty().insert("name"@, name).insert("version"@, version).insert(
        "stripped_version"@,
        spec_strip_v(version),
    ).insert("os"@, os).insert("arch"@, arch)
}

// ---------------------------------------------------------------------------
// Execution
// ---------------------------------------------------------------------------

/// `version` with one leading `v` removed, if present.
pub fn strip_v(version: &str) -> (r: String)
    ensures
        r@ == spec_strip_v(version@),
{
    let v = str_to_chars(version);
    if v.len() > 0 && v[0] == 'v' {
        let rest = subrange_chars(&v, 1, v.len());
        proof {
            assert(rest@ =~= spec_strip_v(version@));
        }
        chars_to_string(&rest)
    } else {
        chars_to_string(&v)
    }
}

/// Substitutes the engine's bindings into `template`.
///
/// Returns the substituted string, or the unchanged template wrapped in
/// [`Error::TemplateFailure`] when a placeholder is unterminated or names an
/// unknown key.
pub fn substitute(template: &str, name: &str, version: &str, os: &str, arch: &str) -> (r: Result<
    String,
    Error,
>)
    ensures
        match r {
            Ok(s) => spec_subst(template@, spec_env(name@, version@, os@, arch@)) == Some(s@),
            Err(e) => {
                &&& spec_subst(template@, spec_env(name@, version@, os@, arch@)) is None
                &&& e matches Error::TemplateFailure(t) && t@ == template@
            },
        },
{
    let ghost env = spec_env(name@, version@, os@, arch@);
    let v = str_to_chars(template);
    let n = v.len();
    let stripped = strip_v(version);
    let mut out: Vec<char> = Vec::new();
    let mut i: usize = 0;
    proof {
        assert(v@.skip(0) =~= v@);
        assert(Seq::<char>::empty() + spec_subst(v@, env)->0 =~= spec_subst(v@, env)->0);
    }
    while i < n
        invariant
            n == v@.len(),
            v@ == template@,
            i <= n,
            stripped@ == spec_strip_v(version@),
            env == spec_env(name@, version@, os@, arch@),
            spec_subst(template@, env) == opt_prepend(out@, spec_subst(v@.skip(i as int), env)),
        decreases n - i,
    {
        let ghost rest = v@.skip(i as int);
        proof {
            assert(rest[0] == v@[i as int]);
        }
        let c = v[i];
        if c != '{' {
            out.push(c);
            i += 1;
            proof {
                assert(rest.drop_first() =~= v@.skip(i as int));
                match spec_subst(v@.skip(i as int), env) {
                    Some(t) => {
                        assert(out@ + t =~= out@.drop_last() + (seq![c] + t));
                    },
                    None => {},
                }
            }
        } else {
            let mut j: usize = i + 1;
            while j < n && v[j] != '}'
                invariant
                    n == v@.len(),
                    i < j <= n,
                    v@[i as int] == '{',
                    forall|t: int| i < t < j ==> v@[t] != '}',
                decreases n - j,
            {
                j += 1;
            }
            proof {
                lemma_first_index_of(rest, '}');
                assert(rest[0] == '{');
                if j < n {
                    assert(v@[j as int] == '}');
                    assert(rest[j - i] == '}');
                    assert(forall|t: int| 0 <= t < j - i ==> rest[t] != '}');
                    assert(first_index_of(rest, '}') == Some(j - i)) by {
                        match first_index_of(rest, '}') {
                            Some(w) => {
                                assert(rest[w] == '}');
                                assert(!(w < j - i));
                                assert(!(w > j - i));
                            },
                            None => {
                                assert(rest[j - i] == '}');
                            },
                        }
                    }
                } else {
                    assert(forall|t: int| 0 <= t < rest.len() ==> rest[t] != '}');
                    assert(first_index_of(rest, '}') is None) by {
                        match first_index_of(rest, '}') {
                            Some(w) => {
                                assert(rest[w] == '}');
                            },
                            None => {},
                        }
                    }
                }
            }
            if j >= n {
                return Err(Error::TemplateFailure(chars_to_string(&v)));
            }
            let key = subrange_chars(&v, i + 1, j);
            proof {
                assert(key@ =~= rest.subrange(1, j - i));
            }
            // Compare against the bound keys, latest binding first, so that
            // each match names the binding that a map lookup would find.
            let value: &str = if str_eq_chars(&key, "arch") {
                arch
            } else if str_eq_chars(&key, "os") {
                os
            } else if str_eq_chars(&key, "stripped_version") {
                stripped.as_str()
            } else if str_eq_chars(&key, "version") {
                version
            } else if str_eq_chars(&key, "name") {
                name
            } else {
                proof {
                    assert(!env.contains_key(key@));
                }
                return Err(Error::TemplateFailure(chars_to_string(&v)));
            };
            proof {
                assert(env.contains_key(key@) && env[key@] == value@);
            }
            let mut tail = str_to_chars(value);
            let ghost pre_out = out@;
            let ghost i0 = i as int;
            out.append(&mut tail);
            i = j + 1;
            proof {
                assert(rest.skip(j - i0 + 1) =~= v@.skip(i as int));
                match spec_subst(v@.skip(i as int), env) {
                    Some(t) => {
                        assert(out@ + t =~= pre_out + (value@ + t));
                    },
                    None => {},
                }
            }
        }
    }
    proof {
        assert(v@.skip(n as int) =~= Seq::<char>::empty());
        assert(out@ + Seq::<char>::empty() =~= out@);
    }
    Ok(chars_to_string(&out))
}

/// Compares a character vector against a string slice.
fn str_eq_chars(v: &Vec<char>, s: &str) -> (r: bool)
    ensures
        r == (v@ == s@),
{
    let sv = str_to_chars(s);
    let n = v.len();
    if n != sv.len() {
        return false;
    }
    let mut k: usize = 0;
    while k < n
        invariant
            n == v@.len() == sv@.len(),
            sv@ == s@,
            k <= n,
            forall|j: int| 0 <= j < k ==> v@[j] == sv@[j],
        decreases n - k,
    {
        if v[k] != sv[k] {
            return false;
        }
        k += 1;
    }
    proof {
        assert(v@ =~= s@);
    }
    true
}

// ---------------------------------------------------------------------------
// Word splitting
// ---------------------------------------------------------------------------

/// The maximal runs of non-space characters of `s`, in order: the
/// space-separated words, with empty fragments dropped.
pub open spec fn spec_words(s: Seq<char>) -> Seq<Seq<char>>
    decreases s.len(),
{
    if s.len() == 0 {
        Seq::empty()
    } else if s[0] == ' ' {
        spec_words(s.drop_first())
    } else {
        let k = word_len(s);
        proof {
            lemma_word_len_bounds(s);
        }
        seq![s.take(k)] + spec_words(s.skip(k))
    }
}

/// The length of the maximal prefix of `s` without a space.
pub open spec fn word_len(s: Seq<char>) -> int
    decreases s.len(),
{
    if s.len() == 0 || s[0] == ' ' {
        0
    } else {
        1 + word_len(s.drop_first())
    }
}

pub proof fn lemma_word_len_bounds(s: Seq<char>)
    ensures
        0 <= word_len(s) <= s.len(),
        s.len() > 0 && s[0] != ' ' ==> word_len(s) >= 1,
    decreases s.len(),
{
    if s.len() > 0 && s[0] != ' ' {
        lemma_word_len_bounds(s.drop_first());
    }
}

proof fn lemma_word_len_is(s: Seq<char>, k: int)
    requires
        0 <= k <= s.len(),
        forall|t: int| 0 <= t < k ==> s[t] != ' ',
        k < s.len() ==> s[k] == ' ',
    ensures
        word_len(s) == k,
    decreases k,
{
    if k > 0 {
        lemma_word_len_is(s.drop_first(), k - 1);
    }
}

/// Splits `s` into its space-separated words, dropping empty fragments.
pub fn split_words(s: &str) -> (r: Vec<String>)
    ensures
        r@.map_values(|w: String| w@) == spec_words(s@),
{
    let v = str_to_chars(s);
    let n = v.len();
    let mut out: Vec<String> = Vec::new();
    let mut i: usize = 0;
    proof {
        assert(v@.skip(0) =~= v@);
        assert(Seq::<String>::empty().map_values(|w: String| w@) + spec_words(v@) =~= spec_words(
            v@,
        ));
    }
    while i < n
        invariant
            n == v@.len(),
            v@ == s@,
            i <= n,
            spec_words(s@) == out@.map_values(|w: String| w@) + spec_words(v@.skip(i as int)),
        decreases n - i,
    {
        let ghost rest = v@.skip(i as int);
        proof {
            assert(rest[0] == v@[i as int]);
        }
        if v[i] == ' ' {
            i += 1;
            proof {
                assert(rest.drop_first() =~= v@.skip(i as int));
            }
        } else {
            let mut j: usize = i + 1;
            while j < n && v[j] != ' '
                invariant
                    n == v@.len(),
                    i < j <= n,
                    forall|t: int| i <= t < j ==> v@[t] != ' ',
                decreases n - j,
            {
                j += 1;
            }
            proof {
                assert(forall|t: int| 0 <= t < j - i ==> rest[t] != ' ');
                lemma_word_len_is(rest, j - i);
            }
            let word = subrange_chars(&v, i, j);
            let ghost pre_out = out@;
            out.push(chars_to_string(&word));
            i = j;
            proof {
                assert(word@ =~= rest.take(word_len(rest)));
                assert(rest.skip(word_len(rest)) =~= v@.skip(i as int));
                assert(out@.map_values(|w: String| w@) =~= pre_out.map_values(|w: String| w@).push(
                    word@,
                ));
                assert(out@.map_values(|w: String| w@) + spec_words(v@.skip(i as int)) =~= pre_out.map_values(
                    |w: String| w@,
                ) + spec_words(rest));
            }
        }
    }
    proof {
        assert(v@.skip(n as int) =~= Seq::<char>::empty());
        assert(out@.map_values(|w: String| w@) + Seq::<Seq<char>>::empty() =~= out@.map_values(
            |w: String| w@,
        ));
    }
    out
}

} // verus!
