use neatkube::definition::ToolDefinition;
use neatkube::error::Error;
use neatkube::platform::normalize_arch;
use neatkube::platform::normalize_os;
use neatkube::template::split_words;
use neatkube::template::strip_v;
use neatkube::template::substitute;
use neatkube::upstream::GithubReleaseUpstream;
use neatkube::upstream::PackageSource;
use neatkube::upstream::SimpleUpstream;
use neatkube::upstream::UpstreamDefinition;

fn simple_upstream(version_url: &str, package_url: &str) -> UpstreamDefinition {
    UpstreamDefinition::Simple(SimpleUpstream {
        version_url: version_url.to_string(),
        package_url: package_url.to_string(),
    })
}

fn definition(name: &str, package_url: &str, extract: &str) -> ToolDefinition {
    ToolDefinition {
        name: name.to_string(),
        description: "a tool".to_string(),
        upstream: simple_upstream("https://example/version", package_url),
        extract_command: extract.to_string(),
        dependencies: vec![],
        aliases: vec![],
        os_map: vec![],
        arch_map: vec![],
    }
}

#[test]
fn package_url_substitution() {
    // The documented example: every placeholder kind at once.
    let d = definition("foo", "https://example/{name}-{os}-{arch}/{stripped_version}.tar.gz", "");
    let url = d.package_url("v1.2.3", "linux", "x86_64").unwrap();
    assert_eq!(url.as_str(), "https://example/foo-linux-amd64/1.2.3.tar.gz");
}

#[test]
fn substitution_replaces_each_binding() {
    let s = substitute("{name} {version} {stripped_version} {os} {arch}", "t", "v2", "linux", "arm64")
        .unwrap();
    assert_eq!(s.as_str(), "t v2 2 linux arm64");
}

#[test]
fn substitution_without_placeholders_copies() {
    let s = substitute("plain text", "t", "v2", "linux", "arm64").unwrap();
    assert_eq!(s.as_str(), "plain text");
}

#[test]
fn unknown_key_is_refused() {
    let r = substitute("x{bogus}y", "t", "v2", "linux", "arm64");
    match r {
        Err(Error::TemplateFailure(t)) => assert_eq!(t.as_str(), "x{bogus}y"),
        _ => panic!("expected a template failure"),
    }
}

#[test]
fn unterminated_placeholder_is_refused() {
    let r = substitute("x{name", "t", "v2", "linux", "arm64");
    assert!(matches!(r, Err(Error::TemplateFailure(_))));
}

#[test]
fn stripped_version_only_drops_a_leading_v() {
    assert_eq!(strip_v("v1.2.3").as_str(), "1.2.3");
    assert_eq!(strip_v("1.2.3").as_str(), "1.2.3");
    assert_eq!(strip_v("version").as_str(), "ersion");
    assert_eq!(strip_v("").as_str(), "");
}

#[test]
fn words_split_on_spaces_dropping_empties() {
    let ws = split_words("  tar  -xzO ");
    let views: Vec<&str> = ws.iter().map(|s| s.as_str()).collect();
    assert_eq!(views, vec!["tar", "-xzO"]);
    assert!(split_words("").is_empty());
    assert!(split_words("   ").is_empty());
}

#[test]
fn extract_command_substitutes_each_word() {
    let d = definition("foo", "https://example/pkg", "tar -xzO {name}-{version}");
    let cmd = d.extract_command("v1.0", "linux", "x86_64").unwrap();
    let views: Vec<&str> = cmd.iter().map(|s| s.as_str()).collect();
    assert_eq!(views, vec!["tar", "-xzO", "foo-v1.0"]);
}

#[test]
fn empty_extract_command_means_no_filter() {
    let d = definition("foo", "https://example/pkg", "");
    let cmd = d.extract_command("v1.0", "linux", "x86_64").unwrap();
    assert!(cmd.is_empty());
}

#[test]
fn platform_names_are_normalized() {
    assert_eq!(normalize_os("macos").as_str(), "darwin");
    assert_eq!(normalize_os("linux").as_str(), "linux");
    assert_eq!(normalize_arch("x86_64").as_str(), "amd64");
    assert_eq!(normalize_arch("x86").as_str(), "386");
    assert_eq!(normalize_arch("aarch64").as_str(), "arm64");
    assert_eq!(normalize_arch("riscv64").as_str(), "riscv64");
}

#[test]
fn platform_maps_override_normalized_names() {
    let mut d = definition("foo", "{os}/{arch}", "");
    d.os_map = vec![("linux".to_string(), "Linux".to_string())];
    d.arch_map = vec![("amd64".to_string(), "x86_64".to_string())];
    let url = d.package_url("v1", "linux", "x86_64").unwrap();
    assert_eq!(url.as_str(), "Linux/x86_64");
}

#[test]
fn github_release_urls() {
    let u = UpstreamDefinition::GithubRelease(GithubReleaseUpstream {
        repo: "owner/repo".to_string(),
        source: PackageSource::File("tool.tar.gz".to_string()),
    });
    assert_eq!(
        u.version_url().as_str(),
        "https://api.github.com/repos/owner/repo/releases/latest"
    );
    assert_eq!(
        u.package_url().as_str(),
        "https://github.com/owner/repo/releases/download/{version}/tool.tar.gz"
    );
}

#[test]
fn github_release_parses_the_tag_name() {
    let u = UpstreamDefinition::GithubRelease(GithubReleaseUpstream {
        repo: "owner/repo".to_string(),
        source: PackageSource::PackageUrl("https://example/{version}".to_string()),
    });
    let v = u.parse_version_from_response("{\"tag_name\": \"v1.2.3\", \"name\": \"x\"}").unwrap();
    assert_eq!(v.as_str(), "v1.2.3");
}

#[test]
fn github_release_reports_the_trimmed_body_on_failure() {
    let u = UpstreamDefinition::GithubRelease(GithubReleaseUpstream {
        repo: "owner/repo".to_string(),
        source: PackageSource::PackageUrl("https://example/{version}".to_string()),
    });
    match u.parse_version_from_response("  {\"other\": 1}\n") {
        Err(Error::ParseFailure(body)) => assert_eq!(body.as_str(), "{\"other\": 1}"),
        _ => panic!("expected a parse failure"),
    }
}

#[test]
fn simple_upstream_trims_the_body() {
    let u = simple_upstream("https://example/version", "https://example/{version}");
    let v = u.parse_version_from_response("3.4.5\n").unwrap();
    assert_eq!(v.as_str(), "3.4.5");
    assert_eq!(u.version_url().as_str(), "https://example/version");
}
