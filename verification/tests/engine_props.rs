use neatkube::definition::DefaultTools;
use neatkube::definition::Repository;
use neatkube::definition::ToolDefinition;
use neatkube::error::Error;
use neatkube::extract::run_extraction;
use neatkube::fsutil;
use neatkube::toolbox::Toolbox;
use neatkube::upstream::SimpleUpstream;
use neatkube::upstream::UpstreamDefinition;
use neatkube::versionref::VersionRef;

/// A fresh scratch directory for one test.
fn fresh_root(tag: &str) -> String {
    let pid = nix::unistd::getpid().as_raw();
    let nanos = std::time::SystemTime::now()
        .duration_since(std::time::UNIX_EPOCH)
        .unwrap()
        .as_nanos();
    let path = format!("/tmp/neatkube-check-{}-{}-{}", tag, pid, nanos);
    fsutil::mkdir_p(&path).unwrap();
    path
}

fn write_file(path: &str, bytes: &[u8]) {
    let mut f = fsutil::create_file(path).unwrap();
    fsutil::write_all(&mut f, &bytes.to_vec()).unwrap();
    fsutil::close_file(f).unwrap();
}

fn read_file(path: &str) -> Vec<u8> {
    let fd = nix::fcntl::open(
        path,
        nix::fcntl::OFlag::O_RDONLY,
        nix::sys::stat::Mode::empty(),
    )
    .unwrap();
    let mut out: Vec<u8> = vec![];
    let mut buf = [0u8; 4096];
    loop {
        let n = nix::unistd::read(fd, &mut buf).unwrap();
        if n == 0 {
            break;
        }
        out.extend_from_slice(&buf[..n]);
    }
    nix::unistd::close(fd).unwrap();
    out
}

fn simple_tool(name: &str, version_url: &str, package_url: &str, extract: &str) -> ToolDefinition {
    ToolDefinition {
        name: name.to_string(),
        description: "a test tool".to_string(),
        upstream: UpstreamDefinition::Simple(SimpleUpstream {
            version_url: version_url.to_string(),
            package_url: package_url.to_string(),
        }),
        extract_command: extract.to_string(),
        dependencies: vec![],
        aliases: vec![],
        os_map: vec![],
        arch_map: vec![],
    }
}

fn toolbox_with(root: &str, tools: Vec<ToolDefinition>) -> Toolbox {
    let repo = Repository {
        default: DefaultTools {
            with_subcommand: "kubectl".to_string(),
            no_subcommand: "k9s".to_string(),
        },
        tools,
    };
    Toolbox::create(repo, root.to_string(), "linux".to_string(), "x86_64".to_string()).unwrap()
}

/// Marks a version as installed on disk: the version directory with the
/// tool's binary inside.
fn install_fake(root: &str, tool: &str, version: &str) {
    let dir = format!("{}/exec/{}/{}", root, tool, version);
    fsutil::mkdir_p(&dir).unwrap();
    write_file(&format!("{}/{}", dir, tool), b"#!/bin/sh\nexit 0\n");
}

/// The gzipped tar archive of one file holding
/// b"hello from the extracted binary\n".
fn archive_bytes() -> Vec<u8> {
    vec![
        31, 139, 8, 0, 0, 0, 0, 0, 2, 3, 237, 205, 65, 10, 194, 48, 20, 4, 208, 172, 61, 69, 142,
        144, 69, 245, 62, 85, 83, 42, 84, 3, 49, 130, 222, 222, 208, 149, 184, 87, 4, 223, 219,
        204, 103, 24, 248, 83, 41, 225, 211, 82, 183, 27, 134, 53, 187, 247, 76, 105, 120, 185,
        215, 190, 175, 183, 33, 166, 240, 5, 183, 107, 27, 107, 127, 25, 254, 211, 156, 151, 165,
        196, 169, 150, 115, 108, 115, 142, 249, 222, 234, 120, 104, 249, 24, 247, 167, 203, 88,
        31, 155, 0, 0, 0, 0, 0, 0, 0, 0, 0, 192, 79, 122, 2, 154, 225, 39, 121, 0, 40, 0, 0,
    ]
}

#[test]
fn local_version_is_the_semantic_maximum() {
    let root = fresh_root("localmax");
    let tb = toolbox_with(&root, vec![simple_tool("foo", "http://127.0.0.1:9/v", "x", "")]);
    install_fake(&root, "foo", "v1.2.0");
    install_fake(&root, "foo", "v1.10.0");
    install_fake(&root, "foo", "v1.9.3");
    let tool = tb.tool("foo").unwrap();
    let versions = tool.find_local_versions().unwrap();
    let views: Vec<&str> = versions.iter().map(|s| s.as_str()).collect();
    assert_eq!(views, vec!["v1.2.0", "v1.9.3", "v1.10.0"]);
    assert_eq!(tool.find_local_version().unwrap().unwrap().as_str(), "v1.10.0");
}

#[test]
fn local_version_prefers_the_release_over_its_prerelease() {
    let root = fresh_root("prerelease");
    let tb = toolbox_with(&root, vec![simple_tool("foo", "http://127.0.0.1:9/v", "x", "")]);
    install_fake(&root, "foo", "v1.0.0-rc1");
    install_fake(&root, "foo", "v1.0.0");
    install_fake(&root, "foo", "v1.0.0-alpha");
    let tool = tb.tool("foo").unwrap();
    assert_eq!(tool.find_local_version().unwrap().unwrap().as_str(), "v1.0.0");
}

#[test]
fn version_directory_without_binary_is_not_installed() {
    let root = fresh_root("nobinary");
    let tb = toolbox_with(&root, vec![simple_tool("foo", "http://127.0.0.1:9/v", "x", "")]);
    install_fake(&root, "foo", "v1.0.0");
    // A bare version directory, binary missing: it must not count.
    fsutil::mkdir_p(&format!("{}/exec/foo/v9.9.9", root)).unwrap();
    let tool = tb.tool("foo").unwrap();
    let versions = tool.find_local_versions().unwrap();
    let views: Vec<&str> = versions.iter().map(|s| s.as_str()).collect();
    assert_eq!(views, vec!["v1.0.0"]);
}

#[test]
fn specific_candidate_resolves_without_network() {
    let root = fresh_root("specific");
    let mut tb = toolbox_with(&root, vec![simple_tool("foo", "http://127.0.0.1:9/v", "x", "")]);
    let mut tool = tb
        .tool_with_version("foo", vec![VersionRef::Specific("v2.0.0".to_string())])
        .unwrap();
    let v = tool.resolve_version(&mut tb.downloader).unwrap();
    assert_eq!(v.as_str(), "v2.0.0");
    assert_eq!(tb.downloader.fetch_count(), 0);
}

#[test]
fn resolution_reaches_the_latest_candidate() {
    let root = fresh_root("fallback");
    let mut tb = toolbox_with(&root, vec![simple_tool("foo", "http://127.0.0.1:9/v", "x", "")]);
    // Candidates [Local, Latest] with nothing installed: the Latest
    // candidate must be attempted, which shows as one issued request.
    let mut tool = tb.tool("foo").unwrap();
    match tool.resolve_version(&mut tb.downloader) {
        Err(Error::ResolutionFailure(n)) => assert_eq!(n.as_str(), "foo"),
        _ => panic!("expected a resolution failure"),
    }
    assert_eq!(tb.downloader.fetch_count(), 1);
}

#[test]
fn resolution_is_idempotent_and_stays_off_the_network() {
    let root = fresh_root("idempotent");
    let mut tb = toolbox_with(&root, vec![simple_tool("foo", "http://127.0.0.1:9/v", "x", "")]);
    install_fake(&root, "foo", "v3.0.0");
    let mut tool = tb.tool("foo").unwrap();
    let first = tool.resolve_version(&mut tb.downloader).unwrap();
    let second = tool.resolve_version(&mut tb.downloader).unwrap();
    assert_eq!(first.as_str(), "v3.0.0");
    assert_eq!(first.as_str(), second.as_str());
    // The local candidate answered and the result was memoized: no request
    // was ever issued.
    assert_eq!(tb.downloader.fetch_count(), 0);
}

#[test]
fn resolution_failure_names_the_tool() {
    let root = fresh_root("resfail");
    let mut tb = toolbox_with(&root, vec![simple_tool("foo", "http://127.0.0.1:9/v", "x", "")]);
    let mut tool = tb.tool_with_version("foo", vec![VersionRef::Local]).unwrap();
    match tool.resolve_version(&mut tb.downloader) {
        Err(Error::ResolutionFailure(n)) => assert_eq!(n.as_str(), "foo"),
        _ => panic!("expected a resolution failure"),
    }
}

#[test]
fn missing_tool_is_not_found() {
    let root = fresh_root("notfound");
    let tb = toolbox_with(&root, vec![]);
    match tb.tool("nope") {
        Err(Error::NotFound(n)) => assert_eq!(n.as_str(), "nope"),
        _ => panic!("expected not found"),
    }
}

#[test]
fn installed_tool_skips_the_pipeline_without_force() {
    let root = fresh_root("skipinstall");
    let mut tb = toolbox_with(&root, vec![simple_tool("foo", "http://127.0.0.1:9/v", "x", "")]);
    install_fake(&root, "foo", "v1.0.0");
    let mut tool = tb.tool("foo").unwrap();
    let changed = tool.install(&tb.repository, &mut tb.downloader, false).unwrap();
    assert!(!changed);
    // Already installed and not forced: no network call at all.
    assert_eq!(tb.downloader.fetch_count(), 0);
}

#[test]
fn forced_install_runs_the_pipeline_regardless() {
    let root = fresh_root("forceinstall");
    let mut tb = toolbox_with(
        &root,
        vec![simple_tool(
            "foo",
            "http://127.0.0.1:9/v",
            "http://127.0.0.1:9/pkg/{version}",
            "",
        )],
    );
    install_fake(&root, "foo", "v1.0.0");
    let mut tool = tb.tool("foo").unwrap();
    // Forced: the already-installed short circuit must not fire, so the
    // pipeline reaches the package download and reports its failure.
    match tool.install(&tb.repository, &mut tb.downloader, true) {
        Err(Error::NetworkFailure(url)) => {
            assert_eq!(url.as_str(), "http://127.0.0.1:9/pkg/v1.0.0")
        },
        other => panic!("expected the pipeline to run and fail: {:?}", other.map(|_| ())),
    }
}

#[test]
fn unreachable_package_is_a_network_failure() {
    let root = fresh_root("netfail");
    let mut tb = toolbox_with(
        &root,
        vec![simple_tool(
            "foo",
            "http://127.0.0.1:9/v",
            "http://127.0.0.1:9/pkg/{version}",
            "",
        )],
    );
    let mut tool = tb
        .tool_with_version("foo", vec![VersionRef::Specific("1.0".to_string())])
        .unwrap();
    match tool.install(&tb.repository, &mut tb.downloader, false) {
        Err(Error::NetworkFailure(url)) => {
            assert_eq!(url.as_str(), "http://127.0.0.1:9/pkg/1.0")
        },
        _ => panic!("expected a network failure"),
    }
    // The resolution took no request; only the package download did.
    assert_eq!(tb.downloader.fetch_count(), 1);
}

#[test]
fn extraction_pipeline_unpacks_the_archive() {
    let root = fresh_root("extractok");
    let staged = format!("{}/pkg.tar.gz", root);
    let out = format!("{}/binary.part", root);
    write_file(&staged, &archive_bytes());
    let argv = vec!["tar".to_string(), "-xzO".to_string()];
    run_extraction(&argv, &staged, &out).unwrap();
    assert_eq!(read_file(&out), b"hello from the extracted binary\n".to_vec());
}

#[test]
fn failing_extraction_propagates_the_exit_code() {
    let root = fresh_root("extractfail");
    let staged = format!("{}/pkg", root);
    let out = format!("{}/binary.part", root);
    write_file(&staged, b"whatever");
    let argv = vec!["false".to_string()];
    match run_extraction(&argv, &staged, &out) {
        Err(Error::ExtractionFailure(code)) => assert_eq!(code, Some(1)),
        _ => panic!("expected an extraction failure"),
    }
}

#[test]
fn extraction_with_a_failing_filter_produces_no_binary() {
    let root = fresh_root("extractnobin");
    let mut tb = toolbox_with(
        &root,
        vec![simple_tool(
            "foo",
            "http://127.0.0.1:9/v",
            "http://127.0.0.1:9/pkg/{version}",
            "false",
        )],
    );
    let mut tool = tb
        .tool_with_version("foo", vec![VersionRef::Specific("1.0".to_string())])
        .unwrap();
    // The pipeline aborts before any rename: no binary may appear, whatever
    // the failing stage was.
    assert!(tool.install(&tb.repository, &mut tb.downloader, false).is_err());
    assert!(!fsutil::path_exists(&format!("{}/exec/foo/1.0/foo", root)));
}

#[test]
fn dependencies_are_visited_after_the_tool() {
    let root = fresh_root("deps");
    let mut lead = simple_tool("alpha", "http://127.0.0.1:9/v", "x", "");
    lead.dependencies = vec!["beta".to_string()];
    let dep = simple_tool("beta", "http://127.0.0.1:9/v", "x", "");
    let mut tb = toolbox_with(&root, vec![lead, dep]);
    install_fake(&root, "alpha", "v1.0.0");
    install_fake(&root, "beta", "v2.0.0");
    let mut tool = tb.tool("alpha").unwrap();
    // Both the tool and its dependency are installed already: nothing to do.
    let changed = tool.install(&tb.repository, &mut tb.downloader, false).unwrap();
    assert!(!changed);
    assert_eq!(tb.downloader.fetch_count(), 0);
}

#[test]
fn failing_dependency_is_a_dependency_failure() {
    let root = fresh_root("depfail");
    let mut lead = simple_tool("alpha", "http://127.0.0.1:9/v", "x", "");
    lead.dependencies = vec!["beta".to_string()];
    let dep = simple_tool("beta", "http://127.0.0.1:9/v", "x", "");
    let mut tb = toolbox_with(&root, vec![lead, dep]);
    install_fake(&root, "alpha", "v1.0.0");
    // The dependency is not installed and cannot be resolved: the whole
    // install fails, naming the dependency.
    let mut tool = tb.tool("alpha").unwrap();
    match tool.install(&tb.repository, &mut tb.downloader, false) {
        Err(Error::DependencyFailure(name, cause)) => {
            assert_eq!(name.as_str(), "beta");
            assert!(matches!(*cause, Error::ResolutionFailure(_)));
        },
        _ => panic!("expected a dependency failure"),
    }
}

#[test]
fn missing_dependency_is_a_dependency_failure() {
    let root = fresh_root("depmissing");
    let mut lead = simple_tool("alpha", "http://127.0.0.1:9/v", "x", "");
    lead.dependencies = vec!["ghost".to_string()];
    let mut tb = toolbox_with(&root, vec![lead]);
    install_fake(&root, "alpha", "v1.0.0");
    let mut tool = tb.tool("alpha").unwrap();
    match tool.install(&tb.repository, &mut tb.downloader, false) {
        Err(Error::DependencyFailure(name, cause)) => {
            assert_eq!(name.as_str(), "ghost");
            assert!(matches!(*cause, Error::NotFound(_)));
        },
        _ => panic!("expected a dependency failure"),
    }
}

#[test]
fn command_spec_names_the_installed_binary() {
    let root = fresh_root("command");
    let mut tb = toolbox_with(&root, vec![simple_tool("foo", "http://127.0.0.1:9/v", "x", "")]);
    install_fake(&root, "foo", "v1.0.0");
    let mut tool = tb.tool("foo").unwrap();
    let spec = tool
        .command(&tb.repository, &mut tb.downloader, vec!["--help".to_string()])
        .unwrap();
    assert_eq!(spec.program.as_str(), format!("{}/exec/foo/v1.0.0/foo", root).as_str());
    assert_eq!(spec.arg0.as_str(), "foo");
    assert_eq!(spec.args.len(), 1);
    assert_eq!(spec.args[0].as_str(), "--help");
    assert_eq!(
        spec.path_prefix.as_str(),
        format!("{}/exec/foo/v1.0.0:", root).as_str()
    );
}

#[test]
fn path_prefix_lists_dependencies_first() {
    let root = fresh_root("pathenv");
    let mut lead = simple_tool("alpha", "http://127.0.0.1:9/v", "x", "");
    lead.dependencies = vec!["beta".to_string()];
    let dep = simple_tool("beta", "http://127.0.0.1:9/v", "x", "");
    let mut tb = toolbox_with(&root, vec![lead, dep]);
    install_fake(&root, "alpha", "v1.0.0");
    install_fake(&root, "beta", "v2.0.0");
    let mut tool = tb.tool("alpha").unwrap();
    let spec = tool.command(&tb.repository, &mut tb.downloader, vec![]).unwrap();
    assert_eq!(
        spec.path_prefix.as_str(),
        format!("{0}/exec/beta/v2.0.0:{0}/exec/alpha/v1.0.0:", root).as_str()
    );
}

#[test]
fn installed_tools_lists_only_what_is_on_disk() {
    let root = fresh_root("listinstalled");
    let mut tb = toolbox_with(
        &root,
        vec![
            simple_tool("here", "http://127.0.0.1:9/v", "x", ""),
            simple_tool("gone", "http://127.0.0.1:9/v", "x", ""),
        ],
    );
    install_fake(&root, "here", "v1.0.0");
    let names = tb.installed_tools().unwrap();
    let views: Vec<&str> = names.iter().map(|s| s.as_str()).collect();
    assert_eq!(views, vec!["here"]);
}

#[test]
fn remove_deletes_the_resolved_binary() {
    let root = fresh_root("remove");
    let mut tb = toolbox_with(&root, vec![simple_tool("foo", "http://127.0.0.1:9/v", "x", "")]);
    install_fake(&root, "foo", "v1.0.0");
    let bin = format!("{}/exec/foo/v1.0.0/foo", root);
    assert!(fsutil::path_exists(&bin));
    let mut tool = tb.tool_with_version("foo", vec![VersionRef::Local]).unwrap();
    tool.remove(&mut tb.downloader).unwrap();
    assert!(!fsutil::path_exists(&bin));
}

#[test]
fn downloader_reports_unreachable_urls() {
    let root = fresh_root("downloader");
    let mut tb = toolbox_with(&root, vec![]);
    match tb.downloader.string("http://127.0.0.1:9/hello", "hello") {
        Err(Error::NetworkFailure(url)) => assert_eq!(url.as_str(), "http://127.0.0.1:9/hello"),
        _ => panic!("expected a network failure"),
    }
    let target = format!("{}/fetched", root);
    match tb.downloader.file("http://127.0.0.1:9/hello", &target, "hello") {
        Err(Error::NetworkFailure(url)) => assert_eq!(url.as_str(), "http://127.0.0.1:9/hello"),
        _ => panic!("expected a network failure"),
    }
    assert!(!fsutil::path_exists(&target));
    assert!(!fsutil::path_exists(&format!("{}.part", target)));
    assert_eq!(tb.downloader.fetch_count(), 2);
}

#[test]
fn file_primitives_write_chmod_and_rename() {
    let root = fresh_root("fileprims");
    let temp = format!("{}/tool.part", root);
    let target = format!("{}/tool", root);
    write_file(&temp, b"payload");
    fsutil::chmod_exec(&temp).unwrap();
    fsutil::rename_path(&temp, &target).unwrap();
    assert!(!fsutil::path_exists(&temp));
    assert_eq!(read_file(&target), b"payload".to_vec());
    let st = nix::sys::stat::stat(target.as_str()).unwrap();
    assert_eq!(st.st_mode & 0o777, 0o755);
}

#[test]
fn environment_lines_prefix_only_the_path() {
    let env = vec![
        ("PATH".to_string(), "/usr/bin:/bin".to_string()),
        ("HOME".to_string(), "/root".to_string()),
    ];
    let lines = neatkube::tool::compose_env(&env, "/deps:/own:");
    let views: Vec<&str> = lines.iter().map(|s| s.as_str()).collect();
    assert_eq!(views, vec!["PATH=/deps:/own:/usr/bin:/bin", "HOME=/root"]);
}

#[test]
fn path_prefix_joins_directories_with_colons() {
    let deps = vec!["/a".to_string(), "/b".to_string()];
    let prefix = neatkube::tool::compose_path_prefix(&deps, "/own");
    assert_eq!(prefix.as_str(), "/a:/b:/own:");
    let none: Vec<String> = vec![];
    assert_eq!(neatkube::tool::compose_path_prefix(&none, "/own").as_str(), "/own:");
}

#[test]
fn toolbox_paths_sit_under_the_data_directory() {
    let root = fresh_root("paths");
    let tb = toolbox_with(&root, vec![]);
    assert_eq!(tb.exec_dir_path().as_str(), format!("{}/exec", root).as_str());
    assert_eq!(tb.bin_dir_path().as_str(), format!("{}/bin", root).as_str());
}

#[test]
fn run_reports_a_failed_process_replacement() {
    let root = fresh_root("runfail");
    let mut tb = toolbox_with(&root, vec![simple_tool("foo", "http://127.0.0.1:9/v", "x", "")]);
    // An installed "binary" that the kernel will refuse to exec: a plain
    // data file without a shebang and without the execute bit.
    let dir = format!("{}/exec/foo/v1.0.0", root);
    fsutil::mkdir_p(&dir).unwrap();
    write_file(&format!("{}/foo", dir), b"not a program");
    let mut tool = tb.tool("foo").unwrap();
    let r = tool.run(
        &tb.repository,
        &mut tb.downloader,
        vec![],
        vec![("PATH".to_string(), "/usr/bin".to_string())],
    );
    assert!(matches!(r, Err(Error::IOFailure(_))));
}
