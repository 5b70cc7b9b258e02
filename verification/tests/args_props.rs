use neatkube::args::CopyCommand;
use neatkube::args::FileLocation;
use neatkube::args::ToolCommand;
use neatkube::args::TransferPlan;
use neatkube::args::kv_parser;
use neatkube::args::upload_parser;
use neatkube::args::volume_parser;
use neatkube::definition::DefaultTools;
use neatkube::definition::Repository;
use neatkube::definition::ToolDefinition;
use neatkube::error::Error;
use neatkube::text::usize_to_string;
use neatkube::text::trim;
use neatkube::transfer::TarInfo;
use neatkube::transfer::count_segments;
use neatkube::transfer::receive_args;
use neatkube::transfer::send_args;
use neatkube::upstream::SimpleUpstream;
use neatkube::upstream::UpstreamDefinition;
use neatkube::versionref::VersionRef;

fn catalog(names: &[&str]) -> Repository {
    Repository {
        default: DefaultTools {
            with_subcommand: "kubectl".to_string(),
            no_subcommand: "k9s".to_string(),
        },
        tools: names
            .iter()
            .map(|n| ToolDefinition {
                name: n.to_string(),
                description: String::new(),
                upstream: UpstreamDefinition::Simple(SimpleUpstream {
                    version_url: String::new(),
                    package_url: String::new(),
                }),
                extract_command: String::new(),
                dependencies: vec![],
                aliases: vec![],
                os_map: vec![],
                arch_map: vec![],
            })
            .collect(),
    }
}

#[test]
fn kv_parser_splits_at_the_first_equals() {
    let (k, v) = kv_parser("a=b=c").unwrap();
    assert_eq!(k.as_str(), "a");
    assert_eq!(v.as_str(), "b=c");
    let m = kv_parser("novalue").unwrap_err();
    assert_eq!(m.as_str(), "Must be key=value");
}

#[test]
fn volume_parser_accepts_a_missing_path() {
    let (name, path) = volume_parser("secret:/mnt");
    assert_eq!(name.as_str(), "secret");
    assert_eq!(path.unwrap().as_str(), "/mnt");
    let (name, path) = volume_parser("secret");
    assert_eq!(name.as_str(), "secret");
    assert!(path.is_none());
}

#[test]
fn upload_parser_demands_a_path() {
    let (local, path) = upload_parser("./here:/there").unwrap();
    assert_eq!(local.as_str(), "./here");
    assert_eq!(path.as_str(), "/there");
    let m = upload_parser("nowhere").unwrap_err();
    assert_eq!(m.as_str(), "upload directories must be in the form of LOCAL:PATH");
}

#[test]
fn file_locations_split_on_the_first_colon() {
    match FileLocation::parse("pod:/etc/conf") {
        FileLocation::Remote { pod, path } => {
            assert_eq!(pod.as_str(), "pod");
            assert_eq!(path.as_str(), "/etc/conf");
        },
        _ => panic!("expected a remote location"),
    }
    match FileLocation::parse("./local") {
        FileLocation::Local { path } => assert_eq!(path.as_str(), "./local"),
        _ => panic!("expected a local location"),
    }
}

#[test]
fn copy_plans_upload_and_download() {
    let up = CopyCommand {
        namespace: None,
        source: FileLocation::parse("file.txt"),
        destination: FileLocation::parse("pod:/tmp/file.txt"),
    };
    match up.plan().unwrap() {
        TransferPlan::Upload { pod, local, remote } => {
            assert_eq!(pod.as_str(), "pod");
            assert_eq!(local.as_str(), "file.txt");
            assert_eq!(remote.as_str(), "/tmp/file.txt");
        },
        _ => panic!("expected an upload"),
    }
    let down = CopyCommand {
        namespace: None,
        source: FileLocation::parse("pod:/tmp/file.txt"),
        destination: FileLocation::parse("file.txt"),
    };
    assert!(matches!(down.plan().unwrap(), TransferPlan::Download { .. }));
    let bad = CopyCommand {
        namespace: None,
        source: FileLocation::parse("a"),
        destination: FileLocation::parse("b"),
    };
    assert_eq!(bad.plan().unwrap_err().as_str(), "Can only copy between local and remote volumes");
}

#[test]
fn dispatch_picks_the_named_tool() {
    let repo = catalog(&["helm", "kubectl", "k9s"]);
    let c = ToolCommand::new(&repo, Some(("helm".to_string(), vec!["ls".to_string()])));
    assert_eq!(c.tool_name.as_str(), "helm");
    assert_eq!(c.args.len(), 1);
    assert_eq!(c.args[0].as_str(), "ls");
}

#[test]
fn dispatch_falls_back_for_unknown_words() {
    let repo = catalog(&["helm"]);
    // An unknown word goes to the subcommand default, put back in front.
    let c = ToolCommand::new(&repo, Some(("get".to_string(), vec!["pods".to_string()])));
    assert_eq!(c.tool_name.as_str(), "kubectl");
    let args: Vec<&str> = c.args.iter().map(|s| s.as_str()).collect();
    assert_eq!(args, vec!["get", "pods"]);
    // A flag-like word goes to the bare-invocation default.
    let c = ToolCommand::new(&repo, Some(("-n".to_string(), vec!["x".to_string()])));
    assert_eq!(c.tool_name.as_str(), "k9s");
    let args: Vec<&str> = c.args.iter().map(|s| s.as_str()).collect();
    assert_eq!(args, vec!["-n", "x"]);
    // No subcommand at all goes to the bare-invocation default.
    let c = ToolCommand::new(&repo, None);
    assert_eq!(c.tool_name.as_str(), "k9s");
    assert!(c.args.is_empty());
}

#[test]
fn version_refs_read_their_textual_forms() {
    assert!(matches!(VersionRef::parse("latest"), VersionRef::Latest));
    assert!(matches!(VersionRef::parse("local"), VersionRef::Local));
    match VersionRef::parse("v1.2.3") {
        VersionRef::Specific(v) => assert_eq!(v.as_str(), "v1.2.3"),
        _ => panic!("expected a specific version"),
    }
}

#[test]
fn tar_send_args_for_absolute_paths() {
    let (info, args) = send_args("/var/log/syslog");
    assert_eq!(info.strip_components(), 2);
    let views: Vec<&str> = args.iter().map(|s| s.as_str()).collect();
    assert_eq!(views, vec!["tar", "-C", "/", "-c", "-z", "var/log/syslog"]);
}

#[test]
fn tar_send_args_for_relative_paths() {
    let (info, args) = send_args("notes/today.txt");
    assert_eq!(info.strip_components(), 1);
    let views: Vec<&str> = args.iter().map(|s| s.as_str()).collect();
    assert_eq!(views, vec!["tar", "-C", ".", "-c", "-z", "notes/today.txt"]);
}

#[test]
fn tar_receive_args_carry_the_strip_count() {
    let args = receive_args("/data", TarInfo::new(2));
    let views: Vec<&str> = args.iter().map(|s| s.as_str()).collect();
    assert_eq!(
        views,
        vec![
            "/bin/sh",
            "-c",
            "mkdir -p \"$1\" && exec tar --strip-components 2 -C \"$1\" -z -xv",
            "-",
            "/data",
        ]
    );
}

#[test]
fn segment_counting_ignores_extra_slashes() {
    assert_eq!(count_segments("/var/log/syslog"), 3);
    assert_eq!(count_segments("a//b"), 2);
    assert_eq!(count_segments("."), 1);
    assert_eq!(count_segments("/"), 0);
}

#[test]
fn decimal_formatting() {
    assert_eq!(usize_to_string(0).as_str(), "0");
    assert_eq!(usize_to_string(7).as_str(), "7");
    assert_eq!(usize_to_string(12034).as_str(), "12034");
}

#[test]
fn trimming_removes_blank_edges() {
    assert_eq!(trim(" \t a b \n\r").as_str(), "a b");
    assert_eq!(trim("").as_str(), "");
    assert_eq!(trim("  ").as_str(), "");
}

#[test]
fn error_messages_name_their_context() {
    assert_eq!(
        Error::NotFound("kubectl".to_string()).message().as_str(),
        "tool not found: kubectl"
    );
    assert_eq!(
        Error::ResolutionFailure("foo".to_string()).message().as_str(),
        "no version found for foo"
    );
    assert_eq!(
        Error::NetworkFailure("http://x".to_string()).message().as_str(),
        "failed to fetch http://x"
    );
    assert_eq!(
        Error::ParseFailure("body".to_string()).message().as_str(),
        "no version in response: body"
    );
    assert_eq!(
        Error::ExtractionFailure(Some(2)).message().as_str(),
        "extraction command failed"
    );
    assert_eq!(Error::ExtractionFailure(None).message().as_str(), "extraction command killed");
    assert_eq!(Error::IOFailure("/p".to_string()).message().as_str(), "filesystem error at /p");
    assert_eq!(
        Error::TemplateFailure("{x}".to_string()).message().as_str(),
        "bad template: {x}"
    );
    assert_eq!(
        Error::DependencyFailure("dep".to_string(), Box::new(Error::NotFound("dep".to_string())))
            .message()
            .as_str(),
        "dependency dep failed: tool not found: dep"
    );
}
