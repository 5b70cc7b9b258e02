//! The tool lifecycle engine: a per-invocation handle that resolves a
//! version, installs the binary on demand, and prepares dispatch to it.
//!
//! A [`Tool`] pairs a catalog definition with a mutable version-resolution
//! state: an ordered list of [`VersionRef`] candidates.  The first candidate
//! to yield a concrete version wins, and the list then collapses to that
//! single specific version, so that later resolutions are cheap and stable.

use vstd::prelude::*;
use vstd::string::StringExecFns;
use nix::NixPath;
use crate::definition::ToolDefinition;
use crate::download::Downloader;
use crate::download::bump;
use crate::error::Error;
use crate::fsutil;
use crate::text::chars_to_string;
use crate::text::path_join;
use crate::text::spec_path_join;
use crate::text::str_concat;
use crate::text::str_to_chars;
use crate::upstream::spec_parse_version;
use crate::version::sort_versions;
use crate::version::versions_sorted;
use crate::version::views_of;
use crate::versionref::VersionRef;
use crate::versionref::VersionRefView;
use crate::versionref::refs_view;

verus! {

/// A tool handle: the definition, the exec root it installs under, the host
/// platform spellings, and the mutable version-resolution state.
pub struct Tool {
    /// The catalog entry this handle works for.
    pub definition: ToolDefinition,
    /// The directory that holds one subdirectory per tool.
    pub root: String,
    /// The host operating-system name, as the toolchain reports it.
    pub host_os: String,
    /// The host architecture name, as the toolchain reports it.
    pub host_arch: String,
    /// The version-resolution search order; collapses to one specific
    /// version when resolution first succeeds.
    pub candidates: Vec<VersionRef>,
}

/// How many `Latest` candidates a search order holds: an upper bound on the
/// network requests one resolution pass may issue.
pub open spec fn count_latest(s: Seq<VersionRefView>) -> int
    decreases s.len(),
{
    if s.len() == 0 {
        0
    } else {
        (if s[0] is Latest {
            1int
        } else {
            0int
        }) + count_latest(s.drop_first())
    }
}

proof fn lemma_count_latest_nonneg(s: Seq<VersionRefView>)
    ensures
        count_latest(s) >= 0,
    decreases s.len(),
{
    if s.len() > 0 {
        lemma_count_latest_nonneg(s.drop_first());
    }
}

proof fn lemma_count_latest_take(s: Seq<VersionRefView>, i: int)
    requires
        0 <= i <= s.len(),
    ensures
        count_latest(s.take(i)) <= count_latest(s),
        i < s.len() ==> count_latest(s.take(i + 1)) == count_latest(s.take(i)) + (
        if s[i] is Latest {
            1int
        } else {
            0int
        }),
    decreases s.len(),
{
    if i == 0 {
        assert(s.take(0) =~= Seq::empty());
        lemma_count_latest_nonneg(s);
        if 0 < s.len() {
            assert(s.take(1) =~= seq![s[0]]);
            assert(seq![s[0]].drop_first() =~= Seq::<VersionRefView>::empty());
        }
    } else {
        assert(s.len() > 0);
        lemma_count_latest_take(s.drop_first(), i - 1);
        assert(s.take(i).drop_first() =~= s.drop_first().take(i - 1));
        assert(s.take(i)[0] == s[0]);
        if i < s.len() {
            assert(s.take(i + 1).drop_first() =~= s.drop_first().take(i));
            assert(s.take(i + 1)[0] == s[0]);
            assert(s.drop_first()[i - 1] == s[i]);
        }
    }
}

// ---------------------------------------------------------------------------
// Local version enumeration
// ---------------------------------------------------------------------------

/// The version names among scanned directory entries that actually hold the
/// tool's binary, in scan order: an entry whose binary is missing is
/// excluded, even though its directory exists.
pub open spec fn keep_installed(entries: Seq<(String, bool)>) -> Seq<Seq<char>>
    decreases entries.len(),
{
    if entries.len() == 0 {
        Seq::empty()
    } else {
        let rest = keep_installed(entries.drop_first());
        if entries[0].1 {
            seq![entries[0].0@] + rest
        } else {
            rest
        }
    }
}

/// A scanned entry whose binary is missing contributes nothing: the
/// installed versions are the same with or without it, even though its
/// directory exists.
pub proof fn lemma_missing_binary_excluded(entries: Seq<(String, bool)>, i: int)
    requires
        0 <= i < entries.len(),
        !entries[i].1,
    ensures
        keep_installed(entries) == keep_installed(entries.remove(i)),
    decreases entries.len(),
{
    if i == 0 {
        assert(entries.remove(0) =~= entries.drop_first());
    } else {
        lemma_missing_binary_excluded(entries.drop_first(), i - 1);
        assert(entries.remove(i).drop_first() =~= entries.drop_first().remove(i - 1));
        assert(entries.remove(i)[0] == entries[0]);
        assert(entries.remove(i).len() > 0);
    }
}

/// Turns scanned directory entries, each a version name paired with whether
/// the tool's binary exists inside, into the sorted list of installed
/// versions: entries without the binary are dropped, the rest are sorted
/// ascending under the version ordering.
pub fn versions_from_entries(entries: Vec<(String, bool)>) -> (r: Vec<String>)
    ensures
        versions_sorted(views_of(r@)),
        views_of(r@).to_multiset() == keep_installed(entries@).to_multiset(),
{
    let n = entries.len();
    let mut kept: Vec<String> = Vec::new();
    let mut i: usize = 0;
    proof {
        assert(entries@.skip(0) =~= entries@);
        assert(Seq::<String>::empty().map_values(|x: String| x@) + keep_installed(entries@)
            =~= keep_installed(entries@));
    }
    while i < n
        invariant
            n == entries@.len(),
            i <= n,
            keep_installed(entries@) == views_of(kept@) + keep_installed(entries@.skip(i as int)),
        decreases n - i,
    {
        let ghost rest = entries@.skip(i as int);
        proof {
            assert(rest[0] == entries@[i as int]);
        }
        let has_binary = entries[i].1;
        if has_binary {
            let ghost pre = kept@;
            let name = entries[i].0.clone();
            kept.push(name);
            proof {
                assert(views_of(kept@) =~= pre.map_values(|x: String| x@).push(
                    entries@[i as int].0@,
                ));
                assert(rest.drop_first() =~= entries@.skip(i + 1));
                assert(views_of(kept@) + keep_installed(entries@.skip(i + 1)) =~= views_of(pre) + (
                seq![entries@[i as int].0@] + keep_installed(entries@.skip(i + 1))));
            }
        } else {
            proof {
                assert(rest.drop_first() =~= entries@.skip(i + 1));
            }
        }
        i += 1;
    }
    proof {
        assert(entries@.skip(n as int) =~= Seq::<(String, bool)>::empty());
        assert(views_of(kept@) + Seq::<Seq<char>>::empty() =~= views_of(kept@));
    }
    sort_versions(kept)
}

impl Tool {
    /// A handle with the run-style search order: whatever is installed,
    /// then the newest remote version.
    pub fn new(definition: ToolDefinition, root: String, host_os: String, host_arch: String) -> (r:
        Tool)
        ensures
            r.definition == definition,
            r.root == root,
            r.host_os == host_os,
            r.host_arch == host_arch,
            refs_view(r.candidates@) =~= seq![VersionRefView::Local, VersionRefView::Latest],
    {
        let mut candidates: Vec<VersionRef> = Vec::new();
        candidates.push(VersionRef::Local);
        candidates.push(VersionRef::Latest);
        proof {
            assert(refs_view(candidates@) =~= seq![VersionRefView::Local, VersionRefView::Latest]);
        }
        Tool { definition, root, host_os, host_arch, candidates }
    }

    /// A handle with a caller-chosen search order.
    pub fn new_with_version(
        definition: ToolDefinition,
        root: String,
        host_os: String,
        host_arch: String,
        version_refs: Vec<VersionRef>,
    ) -> (r: Tool)
        ensures
            r.definition == definition,
            r.root == root,
            r.host_os == host_os,
            r.host_arch == host_arch,
            r.candidates == version_refs,
    {
        Tool { definition, root, host_os, host_arch, candidates: version_refs }
    }

    /// The tool's unique name.
    pub fn name(&self) -> (r: &str)
        ensures
            r@ == self.definition.name@,
    {
        self.definition.name.as_str()
    }

    /// The tool's description.
    pub fn description(&self) -> (r: &str)
        ensures
            r@ == self.definition.description@,
    {
        self.definition.description.as_str()
    }

    /// The directory that holds this tool's versioned installs.
    pub fn tool_dir_path(&self) -> (r: String)
        ensures
            r@ == spec_path_join(self.root@, self.definition.name@),
    {
        path_join(self.root.as_str(), self.definition.name.as_str())
    }

    /// The locally installed versions, sorted ascending under the version
    /// ordering: one entry for each subdirectory of the tool's directory
    /// that holds the tool's binary.
    pub fn find_local_versions(&self) -> (r: Result<Vec<String>, Error>)
        ensures
            r matches Ok(vs) ==> versions_sorted(views_of(vs@)),
            r matches Err(e) ==> e is IOFailure,
    {
        let dir = self.tool_dir_path();
        let names = match fsutil::list_dir(dir.as_str()) {
            Ok(names) => names,
            Err(_) => {
                return Err(Error::IOFailure(dir));
            },
        };
        let mut entries: Vec<(String, bool)> = Vec::new();
        let n = names.len();
        let mut i: usize = 0;
        while i < n
            invariant
                n == names@.len(),
                i <= n,
            decreases n - i,
        {
            let version_dir = path_join(dir.as_str(), names[i].as_str());
            let bin = path_join(version_dir.as_str(), self.definition.name.as_str());
            let present = fsutil::path_exists(bin.as_str());
            let name = names[i].clone();
            entries.push((name, present));
            i += 1;
        }
        Ok(versions_from_entries(entries))
    }

    /// The greatest locally installed version, or `None` when nothing is
    /// installed.
    pub fn find_local_version(&self) -> (r: Result<Option<String>, Error>)
        ensures
            r matches Err(e) ==> e is IOFailure,
    {
        let mut versions = self.find_local_versions()?;
        match versions.pop() {
            Some(v) => Ok(Some(v)),
            None => Ok(None),
        }
    }

    /// Asks the upstream for its newest version: fetches the version URL,
    /// with exactly one request, and reads the version token out of the
    /// response.
    pub fn find_latest_version(&self, dl: &mut Downloader) -> (r: Result<String, Error>)
        ensures
            final(dl).spec_fetches() == bump(old(dl).spec_fetches()),
            r matches Ok(v) ==> exists|resp: Seq<char>|
                spec_parse_version(&self.definition.upstream, resp) == Some(v@),
            r matches Err(e) ==> e is NetworkFailure || e is ParseFailure,
    {
        let url = self.definition.upstream.version_url();
        let msg = str_concat(self.definition.name.as_str(), " check latest");
        let response = match dl.string(url.as_str(), msg.as_str()) {
            Ok(s) => s,
            Err(e) => {
                return Err(e);
            },
        };
        match self.definition.upstream.parse_version_from_response(response.as_str()) {
            Ok(v) => {
                proof {
                    assert(spec_parse_version(&self.definition.upstream, response@) == Some(v@));
                }
                Ok(v)
            },
            Err(e) => Err(e),
        }
    }

    /// Resolves the version this handle works at, walking the candidate
    /// list in order: `Latest` asks the upstream, `Local` takes the
    /// greatest installed version, and `Specific` answers at once and stops
    /// everything.  A candidate that fails or yields nothing passes the
    /// turn on.  The first concrete version wins and replaces the whole
    /// candidate list, so a second call answers the same without further
    /// requests; when no candidate yields a version, resolution fails.
    pub fn resolve_version(&mut self, dl: &mut Downloader) -> (r: Result<String, Error>)
        ensures
            final(self).definition == old(self).definition,
            final(self).root == old(self).root,
            final(self).host_os == old(self).host_os,
            final(self).host_arch == old(self).host_arch,
            final(dl).spec_fetches() >= old(dl).spec_fetches(),
            final(dl).spec_fetches() <= old(dl).spec_fetches() + count_latest(
                refs_view(old(self).candidates@),
            ),
            old(self).candidates@.len() > 0 && old(self).candidates@[0] is Specific ==> {
                &&& r matches Ok(v) && old(self).candidates@[0]@ == VersionRefView::Specific(v@)
                &&& final(self).candidates@ == old(self).candidates@
                &&& final(dl).spec_fetches() == old(dl).spec_fetches()
            },
            r matches Ok(v) ==> {
                ||| refs_view(final(self).candidates@) =~= seq![VersionRefView::Specific(v@)]
                ||| {
                    &&& final(self).candidates@ == old(self).candidates@
                    &&& exists|i: int|
                        0 <= i < old(self).candidates@.len() && old(self).candidates@[i]@
                            == VersionRefView::Specific(v@)
                }
            },
            r matches Err(e) ==> {
                &&& e matches Error::ResolutionFailure(n) && n@ == old(self).definition.name@
                &&& final(self).candidates@ == old(self).candidates@
            },
            count_latest(refs_view(final(self).candidates@)) <= count_latest(
                refs_view(old(self).candidates@),
            ),
    {
        let ghost refs = refs_view(self.candidates@);
        let n = self.candidates.len();
        let mut found: Option<String> = None;
        let mut i: usize = 0;
        proof {
            lemma_count_latest_take(refs, 0);
        }
        while i < n && found.is_none()
            invariant
                n == self.candidates@.len(),
                i <= n,
                refs == refs_view(self.candidates@),
                *self == *old(self),
                dl.spec_fetches() >= old(dl).spec_fetches(),
                dl.spec_fetches() <= old(dl).spec_fetches() + count_latest(refs.take(i as int)),
                old(self).candidates@.len() > 0 && old(self).candidates@[0] is Specific ==> i == 0
                    && found is None,
            decreases n - i,
        {
            proof {
                assert(refs[i as int] == self.candidates@[i as int]@);
                lemma_count_latest_take(refs, i as int);
            }
            match &self.candidates[i] {
                VersionRef::Latest => {
                    match self.find_latest_version(dl) {
                        Ok(v) => {
                            found = Some(v);
                        },
                        Err(_) => (),
                    }
                },
                VersionRef::Local => {
                    match self.find_local_version() {
                        Ok(Some(v)) => {
                            found = Some(v);
                        },
                        _ => (),
                    }
                },
                VersionRef::Specific(v) => {
                    let out = v.clone();
                    proof {
                        lemma_count_latest_take(refs, n as int);
                        assert(refs.take(n as int) =~= refs);
                        if i == 0 {
                            assert(dl.spec_fetches() <= old(dl).spec_fetches() + count_latest(
                                refs.take(0),
                            ));
                            assert(count_latest(refs.take(0)) == 0) by {
                                assert(refs.take(0) =~= Seq::<VersionRefView>::empty());
                            }
                        }
                    }
                    return Ok(out);
                },
            }
            i += 1;
        }
        proof {
            lemma_count_latest_take(refs, n as int);
            assert(refs.take(n as int) =~= refs);
            assert(dl.spec_fetches() <= old(dl).spec_fetches() + count_latest(refs)) by {
                lemma_count_latest_take(refs, i as int);
            }
        }
        match found {
            Some(v) => {
                let mut collapsed: Vec<VersionRef> = Vec::new();
                collapsed.push(VersionRef::Specific(v.clone()));
                self.candidates = collapsed;
                proof {
                    assert(refs_view(self.candidates@) =~= seq![VersionRefView::Specific(v@)]);
                    lemma_count_latest_nonneg(refs);
                    assert(count_latest(refs_view(self.candidates@)) == 0) by {
                        assert(refs_view(self.candidates@).len() == 1);
                        assert(refs_view(self.candidates@)[0] == VersionRefView::Specific(v@));
                        assert(refs_view(self.candidates@).drop_first()
                            =~= Seq::<VersionRefView>::empty());
                        assert(count_latest(Seq::<VersionRefView>::empty()) == 0);
                    }
                }
                Ok(v)
            },
            None => Err(Error::ResolutionFailure(self.definition.name.clone())),
        }
    }

    /// The directory that holds the binary at the resolved version.
    pub fn exec_dir_path(&mut self, dl: &mut Downloader) -> (r: Result<String, Error>)
        ensures
            final(self).definition == old(self).definition,
            final(self).root == old(self).root,
            final(self).host_os == old(self).host_os,
            final(self).host_arch == old(self).host_arch,
            final(dl).spec_fetches() >= old(dl).spec_fetches(),
            final(dl).spec_fetches() <= old(dl).spec_fetches() + count_latest(
                refs_view(old(self).candidates@),
            ),
            count_latest(refs_view(final(self).candidates@)) <= count_latest(
                refs_view(old(self).candidates@),
            ),
            r matches Ok(p) ==> exists|v: Seq<char>|
                p@ == spec_path_join(
                    spec_path_join(old(self).root@, old(self).definition.name@),
                    v,
                ),
            r matches Err(e) ==> e is ResolutionFailure,
    {
        let version = self.resolve_version(dl)?;
        let dir = self.tool_dir_path();
        Ok(path_join(dir.as_str(), version.as_str()))
    }

    /// The path of the binary at the resolved version.
    pub fn exec_path(&mut self, dl: &mut Downloader) -> (r: Result<String, Error>)
        ensures
            final(self).definition == old(self).definition,
            final(self).root == old(self).root,
            final(self).host_os == old(self).host_os,
            final(self).host_arch == old(self).host_arch,
            final(dl).spec_fetches() >= old(dl).spec_fetches(),
            final(dl).spec_fetches() <= old(dl).spec_fetches() + count_latest(
                refs_view(old(self).candidates@),
            ),
            count_latest(refs_view(final(self).candidates@)) <= count_latest(
                refs_view(old(self).candidates@),
            ),
            r matches Ok(p) ==> exists|v: Seq<char>|
                p@ == spec_path_join(
                    spec_path_join(
                        spec_path_join(old(self).root@, old(self).definition.name@),
                        v,
                    ),
                    old(self).definition.name@,
                ),
            r matches Err(e) ==> e is ResolutionFailure,
    {
        let dir = self.exec_dir_path(dl)?;
        Ok(path_join(dir.as_str(), self.definition.name.as_str()))
    }

    /// Whether the binary at the resolved version exists on disk; a tool
    /// whose version cannot be resolved is not installed.
    pub fn is_installed(&mut self, dl: &mut Downloader) -> (r: Result<bool, Error>)
        ensures
            r is Ok,
            final(self).definition == old(self).definition,
            final(self).root == old(self).root,
            final(self).host_os == old(self).host_os,
            final(self).host_arch == old(self).host_arch,
            final(dl).spec_fetches() >= old(dl).spec_fetches(),
            final(dl).spec_fetches() <= old(dl).spec_fetches() + count_latest(
                refs_view(old(self).candidates@),
            ),
            count_latest(refs_view(final(self).candidates@)) <= count_latest(
                refs_view(old(self).candidates@),
            ),
    {
        match self.exec_path(dl) {
            Ok(bin) => Ok(fsutil::path_exists(bin.as_str())),
            Err(_) => Ok(false),
        }
    }

    /// Pumps a download stream into the file at `path`; on failure the
    /// partial file stays behind for inspection.
    fn pump_to_file(stream: crate::download::DownloadStream, url: &str, path: &str) -> (r: Result<
        (),
        Error,
    >)
        ensures
            r matches Err(e) ==> e is NetworkFailure || e is IOFailure,
    {
        let mut stream = stream;
        let mut out = match fsutil::create_file(path) {
            Ok(f) => f,
            Err(_) => {
                crate::download::finish_stream(stream);
                return Err(Error::IOFailure(chars_to_string(&str_to_chars(path))));
            },
        };
        let mut fuel: usize = usize::MAX;
        while fuel > 0
            decreases fuel,
        {
            fuel -= 1;
            match crate::download::next_chunk(&mut stream) {
                Ok(chunk) => {
                    if chunk.len() == 0 {
                        break;
                    }
                    match fsutil::write_all(&mut out, &chunk) {
                        Ok(()) => (),
                        Err(_) => {
                            crate::download::finish_stream(stream);
                            let _ = fsutil::close_file(out);
                            return Err(Error::IOFailure(chars_to_string(&str_to_chars(path))));
                        },
                    }
                },
                Err(()) => {
                    crate::download::finish_stream(stream);
                    let _ = fsutil::close_file(out);
                    return Err(Error::NetworkFailure(chars_to_string(&str_to_chars(url))));
                },
            }
        }
        crate::download::finish_stream(stream);
        match fsutil::close_file(out) {
            Ok(()) => Ok(()),
            Err(_) => Err(Error::IOFailure(chars_to_string(&str_to_chars(path)))),
        }
    }

    /// Installs this tool itself, without its dependencies.
    ///
    /// When the binary already exists and `force` is off this is a no-op
    /// reporting `false`.  Otherwise the package is downloaded from the
    /// substituted package URL; with no extraction command the bytes stream
    /// into `<binary>.part` directly, and with one they are staged and run
    /// through the filter into `<binary>.part`.  The temp file is then made
    /// executable and atomically renamed into place, and the result is
    /// `true`.  A filter that exits non-zero aborts the installation and
    /// leaves the temp files behind.
    pub fn real_install(&mut self, dl: &mut Downloader, force: bool) -> (r: Result<bool, Error>)
        ensures
            final(self).definition == old(self).definition,
            final(self).root == old(self).root,
            final(self).host_os == old(self).host_os,
            final(self).host_arch == old(self).host_arch,
            r matches Ok(b) && !b ==> !force,
            // The no-op path fetches at most what resolution needed: with no
            // remote candidate in the search order, nothing at all.
            r matches Ok(b) && !b ==> final(dl).spec_fetches() <= old(dl).spec_fetches()
                + count_latest(refs_view(old(self).candidates@)),
            // A real installation issues at least the package request.
            r matches Ok(b) && b ==> final(dl).spec_fetches() >= bump(old(dl).spec_fetches()),
            final(dl).spec_fetches() >= old(dl).spec_fetches(),
            final(dl).spec_fetches() <= old(dl).spec_fetches() + 2 * count_latest(
                refs_view(old(self).candidates@),
            ) + 1,
            r matches Err(e) ==> e is ResolutionFailure || e is TemplateFailure || e is IOFailure
                || e is NetworkFailure || e is ExtractionFailure,
    {
        let installed = match self.is_installed(dl) {
            Ok(b) => b,
            Err(e) => {
                return Err(e);
            },
        };
        if installed && !force {
            return Ok(false);
        }
        let version = match self.resolve_version(dl) {
            Ok(v) => v,
            Err(e) => {
                return Err(e);
            },
        };
        let dir = {
            let tool_dir = self.tool_dir_path();
            path_join(tool_dir.as_str(), version.as_str())
        };
        let bin = path_join(dir.as_str(), self.definition.name.as_str());
        let temp = str_concat(bin.as_str(), ".part");
        let url = match self.definition.package_url(
            version.as_str(),
            self.host_os.as_str(),
            self.host_arch.as_str(),
        ) {
            Ok(u) => u,
            Err(e) => {
                return Err(e);
            },
        };
        let extract = match self.definition.extract_command(
            version.as_str(),
            self.host_os.as_str(),
            self.host_arch.as_str(),
        ) {
            Ok(c) => c,
            Err(e) => {
                return Err(e);
            },
        };
        match fsutil::mkdir_p(dir.as_str()) {
            Ok(()) => (),
            Err(_) => {
                return Err(Error::IOFailure(dir));
            },
        }
        let msg = {
            let head = str_concat(self.definition.name.as_str(), "-");
            str_concat(head.as_str(), version.as_str())
        };
        let stream = match dl.stream(url.as_str(), msg.as_str()) {
            Ok(s) => s,
            Err(e) => {
                return Err(e);
            },
        };
        if extract.len() == 0 {
            match Self::pump_to_file(stream, url.as_str(), temp.as_str()) {
                Ok(()) => (),
                Err(e) => {
                    return Err(e);
                },
            }
        } else {
            let staged = str_concat(temp.as_str(), ".src");
            match Self::pump_to_file(stream, url.as_str(), staged.as_str()) {
                Ok(()) => (),
                Err(e) => {
                    return Err(e);
                },
            }
            match crate::extract::run_extraction(&extract, staged.as_str(), temp.as_str()) {
                Ok(()) => (),
                Err(e) => {
                    return Err(e);
                },
            }
            let _ = fsutil::unlink_path(staged.as_str());
        }
        match fsutil::chmod_exec(temp.as_str()) {
            Ok(()) => (),
            Err(_) => {
                return Err(Error::IOFailure(temp));
            },
        }
        match fsutil::rename_path(temp.as_str(), bin.as_str()) {
            Ok(()) => (),
            Err(_) => {
                return Err(Error::IOFailure(bin));
            },
        }
        Ok(true)
    }

    /// Installs this tool and then each of its declared dependencies, in
    /// declaration order, propagating `force`; reports `true` when any
    /// installation actually happened.  A dependency that is missing from
    /// the catalog or fails to install aborts the whole operation with a
    /// dependency failure naming it.
    pub fn install(&mut self, repo: &crate::definition::Repository, dl: &mut Downloader, force:
        bool) -> (r: Result<bool, Error>)
        ensures
            final(self).definition == old(self).definition,
            final(self).root == old(self).root,
            r matches Ok(b) && !b ==> !force,
            // The fully-satisfied path fetches at most what resolution
            // needed, for the tool itself and for each dependency in turn.
            r matches Ok(b) && !b ==> final(dl).spec_fetches() <= old(dl).spec_fetches()
                + count_latest(refs_view(old(self).candidates@))
                + old(self).definition.dependencies@.len(),
            // A reported installation issued at least one package request.
            r matches Ok(b) && b ==> final(dl).spec_fetches() >= bump(old(dl).spec_fetches()),
            final(dl).spec_fetches() >= old(dl).spec_fetches(),
            r matches Err(e) ==> e is DependencyFailure || e is ResolutionFailure || e
                is TemplateFailure || e is IOFailure || e is NetworkFailure || e
                is ExtractionFailure,
            // A dependency failure names a declared dependency.
            r matches Err(e) ==> (e matches Error::DependencyFailure(dep, _) ==> exists|i: int|
                0 <= i < old(self).definition.dependencies@.len()
                    && old(self).definition.dependencies@[i]@ == dep@),
    {
        let mut result = match self.real_install(dl, force) {
            Ok(b) => b,
            Err(e) => {
                return Err(e);
            },
        };
        let n = self.definition.dependencies.len();
        let mut i: usize = 0;
        while i < n
            invariant
                n == self.definition.dependencies@.len(),
                i <= n,
                self.definition == old(self).definition,
                self.root == old(self).root,
                self.host_os == old(self).host_os,
                self.host_arch == old(self).host_arch,
                force ==> result,
                dl.spec_fetches() >= old(dl).spec_fetches(),
                result ==> dl.spec_fetches() >= bump(old(dl).spec_fetches()),
                !result ==> dl.spec_fetches() <= old(dl).spec_fetches() + count_latest(
                    refs_view(old(self).candidates@),
                ) + i,
            decreases n - i,
        {
            let dep = self.definition.dependencies[i].clone();
            match repo.find(dep.as_str()) {
                None => {
                    proof {
                        assert(old(self).definition.dependencies@[i as int]@ == dep@);
                    }
                    return Err(
                        Error::DependencyFailure(
                            dep.clone(),
                            Box::new(Error::NotFound(dep)),
                        ),
                    );
                },
                Some(def) => {
                    let mut dep_tool = Tool::new(
                        def.duplicate(),
                        self.root.clone(),
                        self.host_os.clone(),
                        self.host_arch.clone(),
                    );
                    proof {
                        let cd = refs_view(dep_tool.candidates@);
                        assert(cd =~= seq![VersionRefView::Local, VersionRefView::Latest]);
                        assert(cd[0] == VersionRefView::Local);
                        assert(cd.drop_first() =~= seq![VersionRefView::Latest]);
                        assert(cd.drop_first()[0] == VersionRefView::Latest);
                        assert(cd.drop_first().drop_first() =~= Seq::<VersionRefView>::empty());
                        assert(count_latest(Seq::<VersionRefView>::empty()) == 0);
                        assert(count_latest(cd.drop_first()) == 1);
                        assert(count_latest(cd) == 1);
                    }
                    match dep_tool.real_install(dl, force) {
                        Ok(b) => {
                            result = result || b;
                        },
                        Err(e) => {
                            proof {
                                assert(old(self).definition.dependencies@[i as int]@ == dep@);
                            }
                            return Err(Error::DependencyFailure(dep, Box::new(e)));
                        },
                    }
                },
            }
            i += 1;
        }
        Ok(result)
    }

    /// Removes the binary at the resolved version, if it exists.
    pub fn remove(&mut self, dl: &mut Downloader) -> (r: Result<(), Error>)
        ensures
            r matches Err(e) ==> e is ResolutionFailure || e is IOFailure,
    {
        let bin = self.exec_path(dl)?;
        if fsutil::path_exists(bin.as_str()) {
            match fsutil::unlink_path(bin.as_str()) {
                Ok(()) => Ok(()),
                Err(_) => Err(Error::IOFailure(bin)),
            }
        } else {
            Ok(())
        }
    }
}

// ---------------------------------------------------------------------------
// Dependency PATH composition
// ---------------------------------------------------------------------------

/// Each directory followed by a `:`, in order: the search-path prefix that
/// puts these directories before everything inherited.
pub open spec fn spec_prefix_concat(dirs: Seq<Seq<char>>) -> Seq<char>
    decreases dirs.len(),
{
    if dirs.len() == 0 {
        Seq::empty()
    } else {
        dirs[0] + seq![':'] + spec_prefix_concat(dirs.drop_first())
    }
}

/// Builds the search-path prefix out of the dependency directories followed
/// by the tool's own directory.
pub fn compose_path_prefix(dep_dirs: &Vec<String>, own_dir: &str) -> (r: String)
    ensures
        r@ == spec_prefix_concat(views_of(dep_dirs@).push(own_dir@)),
{
    let ghost all = views_of(dep_dirs@).push(own_dir@);
    let mut out: Vec<char> = Vec::new();
    let n = dep_dirs.len();
    let mut i: usize = 0;
    proof {
        assert(all.skip(0) =~= all);
        assert(Seq::<char>::empty() + spec_prefix_concat(all) =~= spec_prefix_concat(all));
    }
    while i < n
        invariant
            n == dep_dirs@.len(),
            i <= n,
            all == views_of(dep_dirs@).push(own_dir@),
            all.len() == n + 1,
            spec_prefix_concat(all) == out@ + spec_prefix_concat(all.skip(i as int)),
        decreases n - i,
    {
        let ghost pre = out@;
        let ghost rest = all.skip(i as int);
        proof {
            assert(rest[0] == all[i as int]);
            assert(all[i as int] == dep_dirs@[i as int]@);
        }
        crate::text::push_str_chars(&mut out, dep_dirs[i].as_str());
        out.push(':');
        i += 1;
        proof {
            assert(rest.drop_first() =~= all.skip(i as int));
            assert(out@ =~= pre + (dep_dirs@[i - 1]@ + seq![':']));
            assert(pre + (rest[0] + seq![':'] + spec_prefix_concat(rest.drop_first())) =~= out@
                + spec_prefix_concat(all.skip(i as int)));
        }
    }
    let ghost pre = out@;
    let ghost rest = all.skip(n as int);
    proof {
        assert(rest[0] == all[n as int]);
        assert(all[n as int] == own_dir@);
    }
    crate::text::push_str_chars(&mut out, own_dir);
    out.push(':');
    proof {
        assert(rest.drop_first() =~= all.skip(n + 1));
        assert(all.skip(n + 1) =~= Seq::<Seq<char>>::empty());
        assert(spec_prefix_concat(Seq::<Seq<char>>::empty()) == Seq::<char>::empty());
        assert(out@ =~= pre + (own_dir@ + seq![':']));
        assert(pre + (rest[0] + seq![':'] + spec_prefix_concat(rest.drop_first())) =~= out@);
        assert(out@ + Seq::<char>::empty() =~= out@);
    }
    chars_to_string(&out)
}

/// One environment line `key=value`; the `PATH` line gets the prefix put
/// before its inherited value.
pub open spec fn spec_env_line(k: Seq<char>, v: Seq<char>, prefix: Seq<char>) -> Seq<char> {
    if k == "PATH"@ {
        k + seq!['='] + prefix + v
    } else {
        k + seq!['='] + v
    }
}

/// Turns the inherited environment into `key=value` lines, with the
/// search-path prefix put before the inherited `PATH` value.
pub fn compose_env(env: &Vec<(String, String)>, prefix: &str) -> (r: Vec<String>)
    ensures
        r@.len() == env@.len(),
        forall|i: int|
            0 <= i < env@.len() ==> r@[i]@ == spec_env_line(env@[i].0@, env@[i].1@, prefix@),
{
    let n = env.len();
    let mut out: Vec<String> = Vec::new();
    let mut i: usize = 0;
    while i < n
        invariant
            n == env@.len(),
            i <= n,
            out@.len() == i,
            forall|j: int|
                0 <= j < i ==> out@[j]@ == spec_env_line(env@[j].0@, env@[j].1@, prefix@),
        decreases n - i,
    {
        let mut line: Vec<char> = Vec::new();
        crate::text::push_str_chars(&mut line, env[i].0.as_str());
        line.push('=');
        if crate::text::str_eq(env[i].0.as_str(), "PATH") {
            crate::text::push_str_chars(&mut line, prefix);
        }
        crate::text::push_str_chars(&mut line, env[i].1.as_str());
        let entry = chars_to_string(&line);
        proof {
            assert(entry@ =~= spec_env_line(env@[i as int].0@, env@[i as int].1@, prefix@));
        }
        out.push(entry);
        i += 1;
    }
    out
}

// ---------------------------------------------------------------------------
// Dispatch
// ---------------------------------------------------------------------------

/// True when `p` reads as a versioned exec directory of the named tool:
/// `root/name/version` for some version.
pub open spec fn is_tool_exec_dir(p: Seq<char>, root: Seq<char>, name: Seq<char>) -> bool {
    exists|v: Seq<char>| p == spec_path_join(spec_path_join(root, name), v)
}

/// True when `p` is the search-path prefix for a tool: the exec directory
/// of each of its declared dependencies, in declaration order, then one of
/// the tool's own, each followed by `:`.
pub open spec fn is_path_prefix_for(
    p: Seq<char>,
    root: Seq<char>,
    name: Seq<char>,
    deps: Seq<String>,
) -> bool {
    exists|ds: Seq<Seq<char>>, ov: Seq<char>|
        {
            &&& ds.len() == deps.len()
            &&& (forall|i: int|
                0 <= i < ds.len() ==> is_tool_exec_dir(#[trigger] ds[i], root, deps[i]@))
            &&& p == spec_prefix_concat(ds.push(spec_path_join(spec_path_join(root, name), ov)))
        }
}

/// A not-yet-started invocation of an installed tool: the binary to run,
/// the logical name to show as `argv[0]`, the arguments, and the
/// search-path prefix to put before the inherited `PATH`.
pub struct CommandSpec {
    pub program: String,
    pub arg0: String,
    pub args: Vec<String>,
    pub path_prefix: String,
}

impl CommandSpec {
    /// The argument vector the invocation hands to the program: the
    /// rewritten `argv[0]`, then the arguments.
    pub fn argv(&self) -> (r: Vec<String>)
        ensures
            r@.len() == self.args@.len() + 1,
            r@[0]@ == self.arg0@,
            forall|j: int| 0 <= j < self.args@.len() ==> r@[j + 1]@ == self.args@[j]@,
    {
        let mut out: Vec<String> = Vec::new();
        out.push(self.arg0.clone());
        let n = self.args.len();
        let mut i: usize = 0;
        while i < n
            invariant
                n == self.args@.len(),
                i <= n,
                out@.len() == i + 1,
                out@[0]@ == self.arg0@,
                forall|j: int| 0 <= j < i ==> out@[j + 1]@ == self.args@[j]@,
            decreases n - i,
        {
            out.push(self.args[i].clone());
            i += 1;
        }
        out
    }
}

/// Relies on nix::unistd::execve (with NixPath::with_nix_path converting
/// the strings): replaces the current process image with `program`, the
/// given argument vector and environment lines; returns the `errno` value
/// when the replacement fails, and does not return when it succeeds.
#[verifier::external_body]
fn exec_replace(program: &String, args: &Vec<String>, env: &Vec<String>) -> (r: i32)
{
    let conv = |s: &String| s.as_str().with_nix_path(|c| c.to_owned());
    let argv = args.iter().map(conv).collect::<Result<Vec<_>, _>>();
    let envp = env.iter().map(conv).collect::<Result<Vec<_>, _>>();
    match (conv(program), argv, envp) {
        (Ok(p), Ok(a), Ok(en)) => match nix::unistd::execve(&p, &a, &en) {
            Err(e) => e as i32,
            Ok(i) => match i {},
        },
        (Err(e), _, _) | (_, Err(e), _) | (_, _, Err(e)) => e as i32,
    }
}

impl Tool {
    /// The search-path prefix of §[`compose_path_prefix`]: the exec
    /// directory of each declared dependency at its locally installed
    /// version, in declaration order, then this tool's own exec directory,
    /// each followed by `:`.
    pub fn build_path_env(&mut self, repo: &crate::definition::Repository, dl: &mut Downloader) -> (
        r: Result<String, Error>)
        ensures
            final(self).definition == old(self).definition,
            final(self).root == old(self).root,
            final(self).host_os == old(self).host_os,
            final(self).host_arch == old(self).host_arch,
            r matches Ok(p) ==> is_path_prefix_for(
                p@,
                old(self).root@,
                old(self).definition.name@,
                old(self).definition.dependencies@,
            ),
            r matches Err(e) ==> e is NotFound || e is ResolutionFailure,
    {
        let mut dirs: Vec<String> = Vec::new();
        let n = self.definition.dependencies.len();
        let mut i: usize = 0;
        while i < n
            invariant
                n == self.definition.dependencies@.len(),
                i <= n,
                *self == *old(self),
                dirs@.len() == i,
                forall|j: int|
                    0 <= j < i ==> is_tool_exec_dir(
                        #[trigger] dirs@[j]@,
                        old(self).root@,
                        old(self).definition.dependencies@[j]@,
                    ),
            decreases n - i,
        {
            let dep = self.definition.dependencies[i].clone();
            match repo.find(dep.as_str()) {
                None => {
                    return Err(Error::NotFound(dep));
                },
                Some(def) => {
                    let mut refs: Vec<VersionRef> = Vec::new();
                    refs.push(VersionRef::Local);
                    let mut dep_tool = Tool::new_with_version(
                        def.duplicate(),
                        self.root.clone(),
                        self.host_os.clone(),
                        self.host_arch.clone(),
                        refs,
                    );
                    proof {
                        assert(dep_tool.definition.name@
                            == old(self).definition.dependencies@[i as int]@);
                        assert(dep_tool.root@ == old(self).root@);
                    }
                    let dir = dep_tool.exec_dir_path(dl)?;
                    proof {
                        assert(is_tool_exec_dir(
                            dir@,
                            old(self).root@,
                            old(self).definition.dependencies@[i as int]@,
                        ));
                    }
                    dirs.push(dir);
                },
            }
            i += 1;
        }
        let own = self.exec_dir_path(dl)?;
        let prefix = compose_path_prefix(&dirs, own.as_str());
        proof {
            let root = old(self).root@;
            let name = old(self).definition.name@;
            let ds = views_of(dirs@);
            assert(ds.len() == n);
            assert forall|j: int| 0 <= j < ds.len() implies is_tool_exec_dir(
                #[trigger] ds[j],
                root,
                old(self).definition.dependencies@[j]@,
            ) by {
                assert(ds[j] == dirs@[j]@);
            }
            let ov = choose|v: Seq<char>|
                own@ == spec_path_join(spec_path_join(root, name), v);
            assert(prefix@ == spec_prefix_concat(
                ds.push(spec_path_join(spec_path_join(root, name), ov)),
            ));
            assert(is_path_prefix_for(
                prefix@,
                root,
                name,
                old(self).definition.dependencies@,
            ));
        }
        Ok(prefix)
    }

    /// A not-yet-started invocation of this tool, installing it first when
    /// it is not installed yet: the resolved binary path, `argv[0]`
    /// rewritten to the tool's name, the given arguments, and the
    /// search-path prefix for its dependencies.
    pub fn command(&mut self, repo: &crate::definition::Repository, dl: &mut Downloader, args: Vec<
        String,
    >) -> (r: Result<CommandSpec, Error>)
        ensures
            r matches Ok(c) ==> {
                &&& c.arg0@ == old(self).definition.name@
                &&& c.args == args
                &&& exists|v: Seq<char>|
                    c.program@ == spec_path_join(
                        spec_path_join(
                            spec_path_join(old(self).root@, old(self).definition.name@),
                            v,
                        ),
                        old(self).definition.name@,
                    )
                &&& is_path_prefix_for(
                    c.path_prefix@,
                    old(self).root@,
                    old(self).definition.name@,
                    old(self).definition.dependencies@,
                )
            },
    {
        let installed = match self.is_installed(dl) {
            Ok(b) => b,
            Err(e) => {
                return Err(e);
            },
        };
        if !installed {
            match self.install(repo, dl, false) {
                Ok(_) => (),
                Err(e) => {
                    return Err(e);
                },
            }
        }
        let program = self.exec_path(dl)?;
        let arg0 = self.definition.name.clone();
        let path_prefix = self.build_path_env(repo, dl)?;
        Ok(CommandSpec { program, arg0, args, path_prefix })
    }

    /// Runs this tool by process replacement, installing it first when it
    /// is not installed yet: the invocation is the [`CommandSpec`] of
    /// [`Tool::command`] — `argv[0]` rewritten to the tool's name — and the
    /// environment's `PATH` gets the spec's dependency prefix.  On success
    /// the call never returns, so every return reports a failure.
    pub fn run(&mut self, repo: &crate::definition::Repository, dl: &mut Downloader, args: Vec<
        String,
    >, env_vars: Vec<(String, String)>) -> (r: Result<(), Error>)
        ensures
            r is Err,
    {
        let spec = match self.command(repo, dl, args) {
            Ok(c) => c,
            Err(e) => {
                return Err(e);
            },
        };
        let env = compose_env(&env_vars, spec.path_prefix.as_str());
        let argv = spec.argv();
        let _errno = exec_replace(&spec.program, &argv, &env);
        Err(Error::IOFailure(spec.program))
    }
}

} // verus!
