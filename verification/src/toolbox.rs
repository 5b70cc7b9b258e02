//! The toolbox: owns the catalog and the shared downloader, resolves names
//! to tool handles, and enumerates what is installed.

use vstd::prelude::*;
use crate::definition::Repository;
use crate::definition::spec_def_eq;
use crate::download::Downloader;
use crate::error::Error;
use crate::text::chars_to_string;
use crate::text::path_join;
use crate::text::spec_path_join;
use crate::text::str_to_chars;
use crate::tool::Tool;
use crate::versionref::VersionRef;
use crate::versionref::VersionRefView;
use crate::versionref::refs_view;

verus! {

/// The catalog, the shared downloader, the data directory and the host
/// platform names.
pub struct Toolbox {
    /// The catalog of tool definitions.
    pub repository: Repository,
    /// The application data directory.
    pub root: String,
    /// The host operating-system name, as the toolchain reports it.
    pub host_os: String,
    /// The host architecture name, as the toolchain reports it.
    pub host_arch: String,
    /// The shared downloader.
    pub downloader: Downloader,
}

/// True when `idx` picks the names out of the catalog in order: each name
/// reads a catalog entry's name, at strictly increasing catalog positions.
pub open spec fn catalog_selection(
    names: Seq<String>,
    tools: Seq<crate::definition::ToolDefinition>,
    idx: Seq<int>,
) -> bool {
    &&& idx.len() == names.len()
    &&& (forall|k: int|
        0 <= k < idx.len() ==> 0 <= #[trigger] idx[k] < tools.len() && names[k]@
            == tools[idx[k]].name@)
    &&& (forall|k: int| 0 <= k && k + 1 < idx.len() ==> #[trigger] idx[k] < idx[k + 1])
}

/// True when the names read catalog entries' names, in catalog order.
pub open spec fn in_catalog_order(
    names: Seq<String>,
    tools: Seq<crate::definition::ToolDefinition>,
) -> bool {
    exists|idx: Seq<int>| catalog_selection(names, tools, idx)
}

impl Toolbox {
    /// A toolbox over the given catalog, rooted at the given data
    /// directory; its downloader has issued no request yet.
    pub fn create(repository: Repository, root: String, host_os: String, host_arch: String) -> (r:
        Result<Toolbox, Error>)
        ensures
            r matches Ok(t) ==> {
                &&& t.repository == repository
                &&& t.root == root
                &&& t.host_os == host_os
                &&& t.host_arch == host_arch
                &&& t.downloader.spec_fetches() == 0
            },
    {
        let downloader = Downloader::create()?;
        Ok(Toolbox { repository, root, host_os, host_arch, downloader })
    }

    /// The directory for auxiliary binaries under the data directory.
    pub fn bin_dir_path(&self) -> (r: String)
        ensures
            r@ == spec_path_join(self.root@, "bin"@),
    {
        path_join(self.root.as_str(), "bin")
    }

    /// The directory that holds the installed tools, one subdirectory per
    /// tool, under the data directory.
    pub fn exec_dir_path(&self) -> (r: String)
        ensures
            r@ == spec_path_join(self.root@, "exec"@),
    {
        path_join(self.root.as_str(), "exec")
    }

    /// A handle for the named tool with a caller-chosen version search
    /// order: a handle exactly when the catalog holds the name, and a
    /// not-found error naming it otherwise.
    pub fn tool_with_version(&self, name: &str, version_refs: Vec<VersionRef>) -> (r: Result<
        Tool,
        Error,
    >)
        ensures
            r matches Ok(t) ==> {
                &&& exists|i: int|
                    0 <= i < self.repository.tools@.len() && spec_def_eq(
                        &t.definition,
                        &self.repository.tools@[i],
                    ) && self.repository.tools@[i].name@ == name@
                &&& t.definition.name@ == name@
                &&& t.root@ == spec_path_join(self.root@, "exec"@)
                &&& t.host_os == self.host_os
                &&& t.host_arch == self.host_arch
                &&& t.candidates == version_refs
            },
            r matches Err(e) ==> {
                &&& e matches Error::NotFound(n) && n@ == name@
                &&& forall|i: int|
                    0 <= i < self.repository.tools@.len()
                        ==> self.repository.tools@[i].name@ != name@
            },
    {
        match self.repository.find(name) {
            Some(def) => Ok(
                Tool::new_with_version(
                    def.duplicate(),
                    self.exec_dir_path(),
                    self.host_os.clone(),
                    self.host_arch.clone(),
                    version_refs,
                ),
            ),
            None => Err(Error::NotFound(chars_to_string(&str_to_chars(name)))),
        }
    }

    /// A handle for the named tool with the run-style search order:
    /// whatever is installed, then the newest remote version.
    pub fn tool(&self, name: &str) -> (r: Result<Tool, Error>)
        ensures
            r matches Ok(t) ==> {
                &&& exists|i: int|
                    0 <= i < self.repository.tools@.len() && spec_def_eq(
                        &t.definition,
                        &self.repository.tools@[i],
                    ) && self.repository.tools@[i].name@ == name@
                &&& t.definition.name@ == name@
                &&& t.root@ == spec_path_join(self.root@, "exec"@)
                &&& t.host_os == self.host_os
                &&& t.host_arch == self.host_arch
                &&& refs_view(t.candidates@) =~= seq![
                    VersionRefView::Local,
                    VersionRefView::Latest,
                ]
            },
            r matches Err(e) ==> {
                &&& e matches Error::NotFound(n) && n@ == name@
                &&& forall|i: int|
                    0 <= i < self.repository.tools@.len()
                        ==> self.repository.tools@[i].name@ != name@
            },
    {
        let mut refs: Vec<VersionRef> = Vec::new();
        refs.push(VersionRef::Local);
        refs.push(VersionRef::Latest);
        proof {
            assert(refs_view(refs@) =~= seq![VersionRefView::Local, VersionRefView::Latest]);
        }
        self.tool_with_version(name, refs)
    }

    /// The names of the catalog's tools that are installed at their local
    /// version, in catalog order; the checks consult only the local
    /// filesystem, so no network request is issued.
    pub fn installed_tools(&mut self) -> (r: Result<Vec<String>, Error>)
        ensures
            r matches Ok(names) ==> in_catalog_order(names@, old(self).repository.tools@),
            final(self).downloader.spec_fetches() == old(self).downloader.spec_fetches(),
            final(self).repository == old(self).repository,
            final(self).root == old(self).root,
            final(self).host_os == old(self).host_os,
            final(self).host_arch == old(self).host_arch,
    {
        let mut names: Vec<String> = Vec::new();
        let ghost mut idxs: Seq<int> = Seq::empty();
        let n = self.repository.tools.len();
        let mut i: usize = 0;
        while i < n
            invariant
                n == self.repository.tools@.len(),
                i <= n,
                self.repository == old(self).repository,
                self.root == old(self).root,
                self.host_os == old(self).host_os,
                self.host_arch == old(self).host_arch,
                self.downloader.spec_fetches() == old(self).downloader.spec_fetches(),
                catalog_selection(names@, old(self).repository.tools@, idxs),
                forall|k: int| 0 <= k < idxs.len() ==> #[trigger] idxs[k] < i,
            decreases n - i,
        {
            let name = self.repository.tools[i].name.clone();
            let mut refs: Vec<VersionRef> = Vec::new();
            refs.push(VersionRef::Local);
            let mut tool = Tool::new_with_version(
                self.repository.tools[i].duplicate(),
                self.exec_dir_path(),
                self.host_os.clone(),
                self.host_arch.clone(),
                refs,
            );
            proof {
                let cd = refs_view(tool.candidates@);
                assert(cd =~= seq![VersionRefView::Local]);
                assert(cd[0] == VersionRefView::Local);
                assert(cd.drop_first() =~= Seq::<VersionRefView>::empty());
                assert(crate::tool::count_latest(Seq::<VersionRefView>::empty()) == 0);
                assert(crate::tool::count_latest(cd) == 0);
            }
            let installed = match tool.is_installed(&mut self.downloader) {
                Ok(b) => b,
                Err(e) => {
                    return Err(e);
                },
            };
            if installed {
                let ghost pre = names@;
                let ghost pre_idxs = idxs;
                names.push(name);
                proof {
                    idxs = idxs.push(i as int);
                    assert(self.repository.tools@ == old(self).repository.tools@);
                    assert forall|k: int| 0 <= k < idxs.len() implies 0 <= #[trigger] idxs[k]
                        < old(self).repository.tools@.len() && names@[k]@
                        == old(self).repository.tools@[idxs[k]].name@ by {
                        if k < idxs.len() - 1 {
                            assert(names@[k] == pre[k] && idxs[k] == pre_idxs[k]);
                        } else {
                            assert(names@[k]@ == old(self).repository.tools@[i as int].name@);
                        }
                    }
                    assert forall|k: int| 0 <= k && k + 1 < idxs.len() implies #[trigger] idxs[k]
                        < idxs[k + 1] by {
                        if k + 1 < idxs.len() - 1 {
                            assert(idxs[k] == pre_idxs[k] && idxs[k + 1] == pre_idxs[k + 1]);
                        } else {
                            assert(pre_idxs[k] < i as int);
                        }
                    }
                }
            }
            i += 1;
        }
        proof {
            assert(catalog_selection(names@, old(self).repository.tools@, idxs));
            assert(in_catalog_order(names@, old(self).repository.tools@));
        }
        Ok(names)
    }
}

} // verus!
