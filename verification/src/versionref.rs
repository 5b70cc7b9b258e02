//! Version candidates: what a caller may ask a tool to resolve against.

use vstd::prelude::*;
use vstd::string::StringExecFns;
use crate::text::str_eq;

verus! {

/// One candidate in a version-resolution search order: the newest remote
/// version, whatever is installed locally, or a concrete version string.
#[derive(Debug)]
pub enum VersionRef {
    Latest,
    Local,
    Specific(String),
}

/// The mathematical shape of a [`VersionRef`].
pub enum VersionRefView {
    Latest,
    Local,
    Specific(Seq<char>),
}

impl View for VersionRef {
    type V = VersionRefView;

    open spec fn view(&self) -> VersionRefView {
        match self {
            VersionRef::Latest => VersionRefView::Latest,
            VersionRef::Local => VersionRefView::Local,
            VersionRef::Specific(s) => VersionRefView::Specific(s@),
        }
    }
}

impl VersionRef {
    /// Reads a candidate from its textual form: `latest`, `local`, or a
    /// concrete version string.
    pub fn parse(s: &str) -> (r: VersionRef)
        ensures
            r@ == spec_parse_version_ref(s@),
    {
        if str_eq(s, "latest") {
            VersionRef::Latest
        } else if str_eq(s, "local") {
            VersionRef::Local
        } else {
            VersionRef::Specific(String::from_str(s))
        }
    }

}

/// The candidate that a textual form denotes.
pub open spec fn spec_parse_version_ref(s: Seq<char>) -> VersionRefView {
    if s == "latest"@ {
        VersionRefView::Latest
    } else if s == "local"@ {
        VersionRefView::Local
    } else {
        VersionRefView::Specific(s)
    }
}

/// The views of a candidate list.
pub open spec fn refs_view(s: Seq<VersionRef>) -> Seq<VersionRefView> {
    s.map_values(|r: VersionRef| r@)
}

} // verus!
