//! The catalog: immutable definitions of the tools the toolbox manages.

use vstd::prelude::*;
use crate::error::Error;
use crate::platform::spec_normalize_os;
use crate::platform::spec_normalize_arch;
use crate::platform::normalize_os;
use crate::platform::normalize_arch;
use crate::template::spec_env;
use crate::template::spec_subst;
use crate::template::spec_words;
use crate::template::split_words;
use crate::template::substitute;
use crate::text::str_eq;
use crate::upstream::UpstreamDefinition;
use crate::upstream::spec_upstream_eq;
use crate::upstream::spec_package_url;

verus! {

/// One catalog entry: everything the engine knows about a tool.
pub struct ToolDefinition {
    /// The unique identifier: subcommand name and on-disk key.
    pub name: String,
    /// Presentation only.
    pub description: String,
    /// Where releases and version metadata live.
    pub upstream: UpstreamDefinition,
    /// Whitespace-tokenized command template; empty means the downloaded
    /// bytes are the binary as-is.
    pub extract_command: String,
    /// Names of tools that must be on `PATH` when this tool runs.
    pub dependencies: Vec<String>,
    /// Alternative subcommand names; presentation only.
    pub aliases: Vec<String>,
    /// Overrides from the normalized OS name to an upstream-specific spelling.
    pub os_map: Vec<(String, String)>,
    /// Overrides from the normalized architecture name to an
    /// upstream-specific spelling.
    pub arch_map: Vec<(String, String)>,
}

// ---------------------------------------------------------------------------
// Association-list lookup
// ---------------------------------------------------------------------------

/// The value of the first pair of `m` whose key reads `k`, if any.
pub open spec fn spec_lookup(m: Seq<(String, String)>, k: Seq<char>) -> Option<Seq<char>>
    decreases m.len(),
{
    if m.len() == 0 {
        None
    } else if m[0].0@ == k {
        Some(m[0].1@)
    } else {
        spec_lookup(m.drop_first(), k)
    }
}

/// Looks `k` up in an association list.
fn lookup(m: &Vec<(String, String)>, k: &str) -> (r: Option<String>)
    ensures
        match r {
            Some(v) => spec_lookup(m@, k@) == Some(v@),
            None => spec_lookup(m@, k@) is None,
        },
{
    let n = m.len();
    let mut i: usize = 0;
    proof {
        assert(m@.skip(0) =~= m@);
    }
    while i < n
        invariant
            n == m@.len(),
            i <= n,
            spec_lookup(m@, k@) == spec_lookup(m@.skip(i as int), k@),
        decreases n - i,
    {
        proof {
            assert(m@.skip(i as int)[0] == m@[i as int]);
        }
        if str_eq(m[i].0.as_str(), k) {
            let v = m[i].1.clone();
            return Some(v);
        }
        i += 1;
        proof {
            assert(m@.skip(i - 1).drop_first() =~= m@.skip(i as int));
        }
    }
    None
}

// ---------------------------------------------------------------------------
// The platform spellings of a definition
// ---------------------------------------------------------------------------

/// The upstream spelling of the host OS: the normalized name, overridden by
/// the definition's OS map where it has an entry.
pub open spec fn spec_os(d: &ToolDefinition, host_os: Seq<char>) -> Seq<char> {
    let n = spec_normalize_os(host_os);
    match spec_lookup(d.os_map@, n) {
        Some(v) => v,
        None => n,
    }
}

/// The upstream spelling of the host architecture.
pub open spec fn spec_arch(d: &ToolDefinition, host_arch: Seq<char>) -> Seq<char> {
    let n = spec_normalize_arch(host_arch);
    match spec_lookup(d.arch_map@, n) {
        Some(v) => v,
        None => n,
    }
}

/// The substitution bindings of this definition for a resolved version on
/// the given host platform.
pub open spec fn spec_def_env(
    d: &ToolDefinition,
    version: Seq<char>,
    host_os: Seq<char>,
    host_arch: Seq<char>,
) -> Map<Seq<char>, Seq<char>> {
    spec_env(d.name@, version, spec_os(d, host_os), spec_arch(d, host_arch))
}

/// The substitution of `input` under a definition's bindings.
pub open spec fn spec_replace(
    d: &ToolDefinition,
    input: Seq<char>,
    version: Seq<char>,
    host_os: Seq<char>,
    host_arch: Seq<char>,
) -> Option<Seq<char>> {
    spec_subst(input, spec_def_env(d, version, host_os, host_arch))
}

/// The substitution of every word of a command template; `None` when any
/// word fails.
pub open spec fn spec_subst_words(
    ws: Seq<Seq<char>>,
    env: Map<Seq<char>, Seq<char>>,
) -> Option<Seq<Seq<char>>>
    decreases ws.len(),
{
    if ws.len() == 0 {
        Some(Seq::empty())
    } else {
        match spec_subst(ws[0], env) {
            None => None,
            Some(h) => match spec_subst_words(ws.drop_first(), env) {
                None => None,
                Some(t) => Some(seq![h] + t),
            },
        }
    }
}

impl ToolDefinition {
    /// The tool's unique name.
    pub fn name(&self) -> (r: &str)
        ensures
            r@ == self.name@,
    {
        self.name.as_str()
    }

    /// The tool's description.
    pub fn description(&self) -> (r: &str)
        ensures
            r@ == self.description@,
    {
        self.description.as_str()
    }

    /// The upstream spelling of the host OS name.
    pub fn os(&self, host_os: &str) -> (r: String)
        ensures
            r@ == spec_os(self, host_os@),
    {
        let n = normalize_os(host_os);
        match lookup(&self.os_map, n.as_str()) {
            Some(v) => v,
            None => n,
        }
    }

    /// The upstream spelling of the host architecture name.
    pub fn arch(&self, host_arch: &str) -> (r: String)
        ensures
            r@ == spec_arch(self, host_arch@),
    {
        let n = normalize_arch(host_arch);
        match lookup(&self.arch_map, n.as_str()) {
            Some(v) => v,
            None => n,
        }
    }

    /// Substitutes this definition's bindings into `input`.
    pub fn replace(&self, input: &str, version: &str, host_os: &str, host_arch: &str) -> (r:
        Result<String, Error>)
        ensures
            match r {
                Ok(s) => spec_replace(self, input@, version@, host_os@, host_arch@) == Some(s@),
                Err(e) => {
                    &&& spec_replace(self, input@, version@, host_os@, host_arch@) is None
                    &&& e matches Error::TemplateFailure(t) && t@ == input@
                },
            },
    {
        let os = self.os(host_os);
        let arch = self.arch(host_arch);
        substitute(input, self.name.as_str(), version, os.as_str(), arch.as_str())
    }

    /// The package URL for a resolved version: the upstream's template with
    /// this definition's bindings substituted.
    pub fn package_url(&self, version: &str, host_os: &str, host_arch: &str) -> (r: Result<
        String,
        Error,
    >)
        ensures
            match r {
                Ok(u) => spec_replace(
                    self,
                    spec_package_url(&self.upstream),
                    version@,
                    host_os@,
                    host_arch@,
                ) == Some(u@),
                Err(e) => {
                    &&& spec_replace(
                        self,
                        spec_package_url(&self.upstream),
                        version@,
                        host_os@,
                        host_arch@,
                    ) is None
                    &&& e matches Error::TemplateFailure(t) && t@ == spec_package_url(
                        &self.upstream,
                    )
                },
            },
    {
        let template = self.upstream.package_url();
        self.replace(template.as_str(), version, host_os, host_arch)
    }

    /// The extraction command for a resolved version: the command template
    /// split into words, each with this definition's bindings substituted.
    /// An empty result means the download is the binary as-is.
    pub fn extract_command(&self, version: &str, host_os: &str, host_arch: &str) -> (r: Result<
        Vec<String>,
        Error,
    >)
        ensures
            r matches Ok(cmd) ==> spec_subst_words(
                spec_words(self.extract_command@),
                spec_def_env(self, version@, host_os@, host_arch@),
            ) == Some(cmd@.map_values(|w: String| w@)),
            r matches Err(e) ==> spec_subst_words(
                spec_words(self.extract_command@),
                spec_def_env(self, version@, host_os@, host_arch@),
            ) is None && e is TemplateFailure,
    {
        let ghost env = spec_def_env(self, version@, host_os@, host_arch@);
        let words = split_words(self.extract_command.as_str());
        let ghost all = spec_words(self.extract_command@);
        let n = words.len();
        let mut out: Vec<String> = Vec::new();
        let mut i: usize = 0;
        proof {
            assert(all.skip(0) =~= all);
            assert(words@.map_values(|w: String| w@).len() == n);
        }
        while i < n
            invariant
                n == words@.len(),
                words@.map_values(|w: String| w@) == all,
                all == spec_words(self.extract_command@),
                i <= n,
                out@.len() == i,
                env == spec_def_env(self, version@, host_os@, host_arch@),
                match spec_subst_words(all.skip(i as int), env) {
                    Some(t) => spec_subst_words(all, env) == Some(
                        out@.map_values(|w: String| w@) + t,
                    ),
                    None => spec_subst_words(all, env) is None,
                },
            decreases n - i,
        {
            proof {
                assert(all.skip(i as int)[0] == all[i as int]);
                assert(all[i as int] == words@.map_values(|w: String| w@)[i as int]);
            }
            let os = self.os(host_os);
            let arch = self.arch(host_arch);
            let w = substitute(
                words[i].as_str(),
                self.name.as_str(),
                version,
                os.as_str(),
                arch.as_str(),
            );
            match w {
                Ok(s) => {
                    let ghost pre = out@;
                    out.push(s);
                    i += 1;
                    proof {
                        assert(all.skip(i - 1).drop_first() =~= all.skip(i as int));
                        match spec_subst_words(all.skip(i as int), env) {
                            Some(t) => {
                                assert(out@.map_values(|w: String| w@) =~= pre.map_values(
                                    |w: String| w@,
                                ).push(spec_subst(all[i - 1], env)->0));
                                assert(pre.map_values(|w: String| w@) + (seq![
                                    spec_subst(all[i - 1], env)->0,
                                ] + t) =~= out@.map_values(|w: String| w@) + t);
                            },
                            None => {},
                        }
                    }
                },
                Err(e) => {
                    proof {
                        assert(all.skip(i as int).len() > 0);
                        assert(all.skip(i as int)[0] == all[i as int]);
                        assert(spec_subst(all[i as int], env) is None);
                        assert(spec_subst_words(all.skip(i as int), env) is None);
                        assert(spec_subst_words(all, env) is None);
                    }
                    return Err(e);
                },
            }
        }
        proof {
            assert(all.skip(n as int) =~= Seq::<Seq<char>>::empty());
            assert(out@.map_values(|w: String| w@) + Seq::<Seq<char>>::empty() =~= out@.map_values(
                |w: String| w@,
            ));
        }
        Ok(out)
    }

    /// A copy of this definition, field for field.
    pub fn duplicate(&self) -> (r: ToolDefinition)
        ensures
            spec_def_eq(&r, self),
    {
        ToolDefinition {
            name: self.name.clone(),
            description: self.description.clone(),
            upstream: self.upstream.duplicate(),
            extract_command: self.extract_command.clone(),
            dependencies: clone_strings(&self.dependencies),
            aliases: clone_strings(&self.aliases),
            os_map: clone_pairs(&self.os_map),
            arch_map: clone_pairs(&self.arch_map),
        }
    }
}

/// The views of a list of strings.
pub open spec fn strings_view(s: Seq<String>) -> Seq<Seq<char>> {
    s.map_values(|x: String| x@)
}

/// The views of an association list.
pub open spec fn pairs_view(s: Seq<(String, String)>) -> Seq<(Seq<char>, Seq<char>)> {
    s.map_values(|x: (String, String)| (x.0@, x.1@))
}

/// True when two definitions read the same, field for field.
pub open spec fn spec_def_eq(a: &ToolDefinition, b: &ToolDefinition) -> bool {
    &&& a.name@ == b.name@
    &&& a.description@ == b.description@
    &&& spec_upstream_eq(&a.upstream, &b.upstream)
    &&& a.extract_command@ == b.extract_command@
    &&& strings_view(a.dependencies@) == strings_view(b.dependencies@)
    &&& strings_view(a.aliases@) == strings_view(b.aliases@)
    &&& pairs_view(a.os_map@) == pairs_view(b.os_map@)
    &&& pairs_view(a.arch_map@) == pairs_view(b.arch_map@)
}

/// Copies a list of strings.
pub fn clone_strings(v: &Vec<String>) -> (r: Vec<String>)
    ensures
        strings_view(r@) == strings_view(v@),
        r@.len() == v@.len(),
{
    let n = v.len();
    let mut out: Vec<String> = Vec::new();
    let mut i: usize = 0;
    while i < n
        invariant
            n == v@.len(),
            i <= n,
            out@.len() == i,
            forall|j: int| 0 <= j < i ==> out@[j]@ == v@[j]@,
        decreases n - i,
    {
        out.push(v[i].clone());
        i += 1;
    }
    proof {
        assert(strings_view(out@) =~= strings_view(v@));
    }
    out
}

/// Copies an association list.
fn clone_pairs(v: &Vec<(String, String)>) -> (r: Vec<(String, String)>)
    ensures
        pairs_view(r@) == pairs_view(v@),
{
    let n = v.len();
    let mut out: Vec<(String, String)> = Vec::new();
    let mut i: usize = 0;
    while i < n
        invariant
            n == v@.len(),
            i <= n,
            out@.len() == i,
            forall|j: int| 0 <= j < i ==> out@[j].0@ == v@[j].0@ && out@[j].1@ == v@[j].1@,
        decreases n - i,
    {
        let p = (v[i].0.clone(), v[i].1.clone());
        out.push(p);
        i += 1;
    }
    proof {
        assert(pairs_view(out@) =~= pairs_view(v@));
    }
    out
}

// ---------------------------------------------------------------------------
// The repository
// ---------------------------------------------------------------------------

/// Which tools stand in when no subcommand names one.
pub struct DefaultTools {
    /// The tool that takes over when the first argument names no tool.
    pub with_subcommand: String,
    /// The tool that takes over when there are no arguments, or only flags.
    pub no_subcommand: String,
}

/// The whole catalog: the tool definitions and the default tool names.
pub struct Repository {
    pub default: DefaultTools,
    pub tools: Vec<ToolDefinition>,
}

impl Repository {
    /// The catalog entries.
    pub fn tools(&self) -> (r: &Vec<ToolDefinition>)
        ensures
            r@ == self.tools@,
    {
        &self.tools
    }

    /// The name of the tool that handles an unrecognized subcommand.
    pub fn default_with_subcommand(&self) -> (r: &str)
        ensures
            r@ == self.default.with_subcommand@,
    {
        self.default.with_subcommand.as_str()
    }

    /// The name of the tool that handles a bare invocation.
    pub fn default_no_subcommand(&self) -> (r: &str)
        ensures
            r@ == self.default.no_subcommand@,
    {
        self.default.no_subcommand.as_str()
    }

    /// The first catalog entry named `name`, or `None` when the catalog
    /// holds no tool of that name.
    pub fn find(&self, name: &str) -> (r: Option<&ToolDefinition>)
        ensures
            match r {
                Some(d) => {
                    &&& d.name@ == name@
                    &&& exists|i: int| 0 <= i < self.tools@.len() && self.tools@[i] == *d
                },
                None => forall|i: int|
                    0 <= i < self.tools@.len() ==> self.tools@[i].name@ != name@,
            },
    {
        let n = self.tools.len();
        let mut i: usize = 0;
        while i < n
            invariant
                n == self.tools@.len(),
                i <= n,
                forall|j: int| 0 <= j < i ==> self.tools@[j].name@ != name@,
            decreases n - i,
        {
            if str_eq(self.tools[i].name.as_str(), name) {
                return Some(&self.tools[i]);
            }
            i += 1;
        }
        None
    }
}

} // verus!
