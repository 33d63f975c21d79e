//! The companion modules: shortcuts, git context, project sniffing,
//! version handling, and the client-side helpers.

use lai::appinfo::{strip_v_prefix, update_status_failed, update_status_found, VersionInfo,
    WindowState};
use lai::client::{ask_payload, create_payload, interpret_last_response, message_from_json};
use lai::gitctx::{parse_commit_line, parse_git_log, GitCommit, GitContext};
use lai::json::JsonScalar;
use lai::project::{ProjectFile, ProjectInfo, ProjectType};
use lai::shortcuts::{validate_shortcut, ShortcutAction, ShortcutConfig};
use lai::store::{message_to_json, Message};
use lai::wire::Response;

#[test]
fn test_version_parsing() {
    let version_str = "0.2.0";
    assert_eq!(version_str, "0.2.0");
}

#[test]
fn tag_prefix_is_stripped() {
    assert_eq!(strip_v_prefix(&"v0.2.0".to_string()), "0.2.0");
    assert_eq!(strip_v_prefix(&"0.2.0".to_string()), "0.2.0");
    assert_eq!(strip_v_prefix(&"vv1".to_string()), "1");
    assert_eq!(strip_v_prefix(&"".to_string()), "");
}

fn release(version: &str) -> VersionInfo {
    VersionInfo {
        version: version.to_string(),
        release_date: "2024-01-01".to_string(),
        changelog: "notes".to_string(),
        download_url: "".to_string(),
        checksum: None,
        is_critical: false,
    }
}

#[test]
fn update_status_reflects_version_difference() {
    let s = update_status_found(&"0.1.0".to_string(), release("0.2.0"));
    assert!(s.has_update);
    assert_eq!(s.new_version.as_deref(), Some("0.2.0"));
    assert!(s.error.is_none());

    let same = update_status_found(&"0.2.0".to_string(), release("0.2.0"));
    assert!(!same.has_update);

    let failed = update_status_failed(&"0.1.0".to_string(), "offline".to_string());
    assert!(!failed.has_update);
    assert_eq!(failed.error.as_deref(), Some("offline"));
}

#[test]
fn window_state_default_geometry() {
    let w = WindowState::default();
    assert_eq!((w.x, w.y, w.width, w.height, w.maximized), (100, 100, 800, 600, false));
}

#[test]
fn test_format_for_ai() {
    let context = GitContext {
        is_repo: true,
        current_branch: Some("main".to_string()),
        uncommitted_changes: 3,
        recent_commits: vec![GitCommit {
            hash: "abc123def456".to_string(),
            author: "Test User".to_string(),
            date: "2 hours ago".to_string(),
            message: "Fix bug in parser".to_string(),
        }],
        remote_url: Some("git@github.com:user/repo.git".to_string()),
    };

    let formatted = context.format_for_ai();
    assert!(formatted.contains("Branch: main"));
    assert!(formatted.contains("Uncommitted changes: 3"));
    assert!(formatted.contains("abc123de"));
}

#[test]
fn empty_context_formats_as_non_repo() {
    let formatted = GitContext::empty().format_for_ai();
    assert_eq!(formatted, "Not a git repository");
}

#[test]
fn commit_log_lines_are_parsed() {
    let line = "abc\0Ada\0yesterday\0Fix the thing".to_string();
    let c = parse_commit_line(&line).expect("four fields");
    assert_eq!(c.hash, "abc");
    assert_eq!(c.author, "Ada");
    assert_eq!(c.date, "yesterday");
    assert_eq!(c.message, "Fix the thing");

    assert!(parse_commit_line(&"only\0three\0fields".to_string()).is_none());

    let log = "h1\0a1\0d1\0m1\nbroken line\nh2\0a2\0d2\0m2\n".to_string();
    let commits = parse_git_log(&log);
    assert_eq!(commits.len(), 2);
    assert_eq!(commits[0].hash, "h1");
    assert_eq!(commits[1].message, "m2");
}

#[test]
fn test_format_project_info() {
    let info = ProjectInfo {
        project_type: ProjectType::Node,
        version: Some("1.0.0".to_string()),
        name: Some("my-app".to_string()),
        description: None,
    };

    let formatted = info.format();
    assert!(formatted.contains("Node.js"));
    assert!(formatted.contains("my-app"));
    assert!(formatted.contains("v1.0.0"));
}

#[test]
fn test_project_icons() {
    assert_eq!(
        ProjectInfo {
            project_type: ProjectType::Node,
            version: None,
            name: None,
            description: None
        }
        .icon(),
        "📦"
    );
    assert_eq!(
        ProjectInfo {
            project_type: ProjectType::Rust,
            version: None,
            name: None,
            description: None
        }
        .icon(),
        "🦀"
    );
    assert_eq!(
        ProjectInfo {
            project_type: ProjectType::Python,
            version: None,
            name: None,
            description: None
        }
        .icon(),
        "🐍"
    );
}

#[test]
fn test_detect_unknown_project() {
    let info = ProjectInfo::detect(&Vec::new());
    assert_eq!(info.project_type, ProjectType::Unknown);
}

#[test]
fn detect_reads_compact_node_manifest() {
    let files = vec![ProjectFile {
        name: "package.json".to_string(),
        content: "{\"name\":\"my-app\",\"version\":\"1.0.0\",\"description\":\"A test app\"}"
            .to_string(),
    }];
    let info = ProjectInfo::detect(&files);
    assert_eq!(info.project_type, ProjectType::Node);
    assert_eq!(info.name.as_deref(), Some("my-app"));
    assert_eq!(info.version.as_deref(), Some("1.0.0"));
}

#[test]
fn detect_reads_go_module() {
    let files = vec![ProjectFile {
        name: "go.mod".to_string(),
        content: "module example.com/my-tool\n\ngo 1.21\n".to_string(),
    }];
    let info = ProjectInfo::detect(&files);
    assert_eq!(info.project_type, ProjectType::Go);
    assert_eq!(info.name.as_deref(), Some("example.com/my-tool"));
    assert!(info.version.is_none());
}

#[test]
fn detect_marker_precedence() {
    let files = vec![
        ProjectFile { name: "Gemfile".to_string(), content: "".to_string() },
        ProjectFile { name: "Cargo.toml".to_string(), content: "".to_string() },
    ];
    assert_eq!(ProjectInfo::detect(&files).project_type, ProjectType::Rust);
}

#[test]
fn file_types_from_names() {
    assert_eq!(lai::project::get_file_type(&"main.RS".to_string()), "rs");
    assert_eq!(lai::project::get_file_type(&"a.tar.GZ".to_string()), "gz");
    assert_eq!(lai::project::get_file_type(&"Makefile".to_string()), "unknown");
    assert_eq!(lai::project::get_file_type(&".gitignore".to_string()), "unknown");
    assert_eq!(lai::project::get_file_type(&"trailing.".to_string()), "unknown");
    assert_eq!(lai::project::get_file_type(&"".to_string()), "unknown");
}

#[test]
fn text_file_whitelist() {
    assert!(lai::project::is_text_file("rs"));
    assert!(lai::project::is_text_file("md"));
    assert!(lai::project::is_text_file("bashrc"));
    assert!(!lai::project::is_text_file("png"));
    assert!(!lai::project::is_text_file("exe"));
    assert!(!lai::project::is_text_file(""));
}

#[test]
fn shortcut_catalogue_is_consistent() {
    let actions = ShortcutAction::all_actions();
    assert_eq!(actions.len(), 12);
    assert_eq!(actions[0].display_name(), "Toggle Window");
    assert_eq!(actions[0].default_shortcut(), "CommandOrControl+Space");
    assert_eq!(actions[0].category(), "Window & Focus");
    assert_eq!(
        actions[1].description(),
        "Create a new conversation"
    );
    let config = ShortcutConfig::default();
    assert_eq!(config.shortcuts.len(), 12);
    assert!(config.shortcuts[0].enabled);
    assert!(config.shortcuts.iter().skip(1).all(|s| !s.enabled));
    assert_eq!(config.shortcuts[2].shortcut, "CommandOrControl+Comma");
}

#[test]
fn shortcut_format_checks() {
    assert_eq!(validate_shortcut(&"CommandOrControl+Space".to_string()), Ok(true));
    let empty = validate_shortcut(&"   ".to_string());
    assert_eq!(empty.unwrap_err(), "Shortcut cannot be empty");
    let plain = validate_shortcut(&"Q".to_string());
    assert!(plain.unwrap_err().contains("modifier"));
    let no_plus = validate_shortcut(&"Shift".to_string());
    assert!(no_plus.is_err());
}

#[test]
fn message_json_round_trip() {
    let m = Message {
        id: "test-id".to_string(),
        conversation_id: "conv-id".to_string(),
        role: "assistant".to_string(),
        content: "test content".to_string(),
        timestamp: 1234567890,
        tokens_used: Some(100),
    };
    let o = message_to_json(&m);
    let back = message_from_json(&o).expect("round trips");
    assert_eq!(back.id, "test-id");
    assert_eq!(back.content, "test content");
    assert_eq!(back.role, "assistant");
    assert_eq!(back.tokens_used, Some(100));
}

#[test]
fn interpret_last_response_paths() {
    let m = Message {
        id: "i".to_string(),
        conversation_id: "c".to_string(),
        role: "assistant".to_string(),
        content: "the answer".to_string(),
        timestamp: 7,
        tokens_used: None,
    };
    let ok = Response { status: "ok".to_string(), data: Some(message_to_json(&m)) };
    assert_eq!(interpret_last_response(&ok), Ok("the answer".to_string()));

    let no_data = Response { status: "ok".to_string(), data: None };
    assert_eq!(interpret_last_response(&no_data), Err("No data returned".to_string()));

    let err = Response {
        status: "error".to_string(),
        data: Some(lai::json::JsonObject {
            fields: vec![("error".to_string(), JsonScalar::Str("No messages found".to_string()))],
        }),
    };
    assert_eq!(
        interpret_last_response(&err),
        Err("Error: No messages found".to_string())
    );

    let opaque = Response { status: "error".to_string(), data: None };
    assert_eq!(interpret_last_response(&opaque), Err("Unknown error".to_string()));
}

#[test]
fn request_payload_shapes() {
    let p = ask_payload(&"why?".to_string(), None, Some("local".to_string()), true, false);
    assert_eq!(p.fields.len(), 5);
    assert_eq!(p.get_str(&"prompt".to_string()), Some("why?".to_string()));
    assert_eq!(p.get_str(&"provider".to_string()), Some("local".to_string()));
    assert!(matches!(p.fields[1].1, JsonScalar::Null));
    assert!(matches!(p.fields[3].1, JsonScalar::Bool(true)));

    let c = create_payload(&"hello".to_string(), Some("conv-9".to_string()));
    assert_eq!(c.get_str(&"content".to_string()), Some("hello".to_string()));
    assert_eq!(c.get_str(&"conversation_id".to_string()), Some("conv-9".to_string()));
    let c2 = create_payload(&"hello".to_string(), None);
    assert_eq!(c2.fields.len(), 1);
}
