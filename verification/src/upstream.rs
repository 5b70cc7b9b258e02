//! Upstream sources of tool releases.
//!
//! An upstream knows three things: the URL that answers "what is the latest
//! version", the template of the URL that serves a release package, and how
//! to read a version token out of the latest-version response.  The two
//! kinds are GitHub release feeds and plain version-file endpoints.

use vstd::prelude::*;
use crate::error::Error;
use crate::text::chars_to_string;
use crate::text::push_str_chars;
use crate::text::str_to_chars;
use crate::text::spec_trim;
use crate::text::trim;

verus! {

/// Where a GitHub release's package comes from: a named artifact file of the
/// release, or an explicit URL template.
pub enum PackageSource {
    File(String),
    PackageUrl(String),
}

/// A GitHub release feed: `repo` is the `owner/name` pair.
pub struct GithubReleaseUpstream {
    pub repo: String,
    pub source: PackageSource,
}

/// A plain endpoint: `version_url` serves the latest version as text, and
/// `package_url` is the package URL template.
pub struct SimpleUpstream {
    pub version_url: String,
    pub package_url: String,
}

/// The closed set of upstream kinds.
pub enum UpstreamDefinition {
    GithubRelease(GithubReleaseUpstream),
    Simple(SimpleUpstream),
}

// ---------------------------------------------------------------------------
// The YAML lookup that GitHub release responses go through
// ---------------------------------------------------------------------------

/// The string value at `key` in the document `doc`, read by serde_yaml; a
/// function of the arguments alone.
pub uninterp spec fn yaml_str_field(doc: Seq<char>, key: Seq<char>) -> Option<Seq<char>>;

/// Relies on serde_yaml::from_str and serde_yaml::Value::get: parses `doc`
/// as a YAML or JSON document and hands back the string value at `key`, or
/// `None` when the document does not parse or holds no string there.
#[verifier::external_body]
fn lookup_str_field(doc: &str, key: &str) -> (r: Option<String>)
    ensures
        match r {
            Some(s) => yaml_str_field(doc@, key@) == Some(s@),
            None => yaml_str_field(doc@, key@) is None,
        },
{
    match serde_yaml::from_str::<serde_yaml::Value>(doc) {
        Ok(v) => v.get(key).and_then(|x| x.as_str()).map(|s| s.to_string()),
        Err(_) => None,
    }
}

// ---------------------------------------------------------------------------
// The three operations
// ---------------------------------------------------------------------------

/// The URL answering "what is the latest version" for each upstream kind.
pub open spec fn spec_version_url(u: &UpstreamDefinition) -> Seq<char> {
    match u {
        UpstreamDefinition::GithubRelease(g) => "https://api.github.com/repos/"@ + g.repo@
            + "/releases/latest"@,
        UpstreamDefinition::Simple(s) => s.version_url@,
    }
}

/// The package URL template for each upstream kind; for a GitHub artifact
/// file the template still holds the `{version}` placeholder.
pub open spec fn spec_package_url(u: &UpstreamDefinition) -> Seq<char> {
    match u {
        UpstreamDefinition::GithubRelease(g) => match g.source {
            PackageSource::File(f) => "https://github.com/"@ + g.repo@
                + "/releases/download/{version}/"@ + f@,
            PackageSource::PackageUrl(p) => p@,
        },
        UpstreamDefinition::Simple(s) => s.package_url@,
    }
}

/// The version that a latest-version response denotes: for a plain endpoint
/// the trimmed body; for a GitHub release feed the `tag_name` field, with
/// failure exactly when the document holds none.
pub open spec fn spec_parse_version(u: &UpstreamDefinition, response: Seq<char>) -> Option<
    Seq<char>,
> {
    match u {
        UpstreamDefinition::GithubRelease(_) => yaml_str_field(response, "tag_name"@),
        UpstreamDefinition::Simple(_) => Some(spec_trim(response)),
    }
}

/// True when two upstreams read the same, field for field.
pub open spec fn spec_upstream_eq(a: &UpstreamDefinition, b: &UpstreamDefinition) -> bool {
    match (a, b) {
        (UpstreamDefinition::GithubRelease(x), UpstreamDefinition::GithubRelease(y)) => {
            &&& x.repo@ == y.repo@
            &&& match (&x.source, &y.source) {
                (PackageSource::File(f), PackageSource::File(g)) => f@ == g@,
                (PackageSource::PackageUrl(f), PackageSource::PackageUrl(g)) => f@ == g@,
                _ => false,
            }
        },
        (UpstreamDefinition::Simple(x), UpstreamDefinition::Simple(y)) => {
            &&& x.version_url@ == y.version_url@
            &&& x.package_url@ == y.package_url@
        },
        _ => false,
    }
}

impl UpstreamDefinition {
    /// A copy of this upstream, field for field.
    pub fn duplicate(&self) -> (r: UpstreamDefinition)
        ensures
            spec_upstream_eq(&r, self),
    {
        match self {
            UpstreamDefinition::GithubRelease(g) => UpstreamDefinition::GithubRelease(
                GithubReleaseUpstream {
                    repo: g.repo.clone(),
                    source: match &g.source {
                        PackageSource::File(f) => PackageSource::File(f.clone()),
                        PackageSource::PackageUrl(p) => PackageSource::PackageUrl(p.clone()),
                    },
                },
            ),
            UpstreamDefinition::Simple(s) => UpstreamDefinition::Simple(
                SimpleUpstream {
                    version_url: s.version_url.clone(),
                    package_url: s.package_url.clone(),
                },
            ),
        }
    }

    /// The URL to query for the latest version.
    pub fn version_url(&self) -> (r: String)
        ensures
            r@ == spec_version_url(self),
    {
        match self {
            UpstreamDefinition::GithubRelease(g) => {
                let mut out: Vec<char> = Vec::new();
                push_str_chars(&mut out, "https://api.github.com/repos/");
                push_str_chars(&mut out, g.repo.as_str());
                push_str_chars(&mut out, "/releases/latest");
                chars_to_string(&out)
            },
            UpstreamDefinition::Simple(s) => s.version_url.clone(),
        }
    }

    /// The package URL template, before substitution.
    pub fn package_url(&self) -> (r: String)
        ensures
            r@ == spec_package_url(self),
    {
        match self {
            UpstreamDefinition::GithubRelease(g) => {
                match &g.source {
                    PackageSource::File(f) => {
                        let mut out: Vec<char> = Vec::new();
                        push_str_chars(&mut out, "https://github.com/");
                        push_str_chars(&mut out, g.repo.as_str());
                        push_str_chars(&mut out, "/releases/download/{version}/");
                        push_str_chars(&mut out, f.as_str());
                        chars_to_string(&out)
                    },
                    PackageSource::PackageUrl(p) => p.clone(),
                }
            },
            UpstreamDefinition::Simple(s) => s.package_url.clone(),
        }
    }

    /// Reads the version token out of a latest-version response: the
    /// `tag_name` field for a GitHub release feed, the trimmed body for a
    /// plain endpoint.  Fails with [`Error::ParseFailure`], carrying the
    /// trimmed body, exactly when no token is there.
    pub fn parse_version_from_response(&self, response: &str) -> (r: Result<String, Error>)
        ensures
            match r {
                Ok(v) => spec_parse_version(self, response@) == Some(v@),
                Err(e) => {
                    &&& spec_parse_version(self, response@) is None
                    &&& e matches Error::ParseFailure(b) && b@ == spec_trim(response@)
                },
            },
    {
        match self {
            UpstreamDefinition::GithubRelease(_) => {
                match lookup_str_field(response, "tag_name") {
                    Some(v) => Ok(v),
                    None => Err(Error::ParseFailure(trim(response))),
                }
            },
            UpstreamDefinition::Simple(_) => Ok(trim(response)),
        }
    }
}

} // verus!
