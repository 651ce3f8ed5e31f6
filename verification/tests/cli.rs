use herdr_reviewr::cli::{
    change_report, first_line, list_json, listed, parse_invocation, parse_u32, row_line,
    skill_location, Invocation,
};
use herdr_reviewr::comments::{Author, Status, StoredComment};
use herdr_reviewr::json::Json;
use herdr_reviewr::model::{Comment, Side};

fn argv(parts: &[&str]) -> Vec<String> {
    parts.iter().map(|p| p.to_string()).collect()
}

fn stored(id: &str, status: Status, text: &str) -> StoredComment {
    StoredComment {
        id: id.into(),
        author: Author::Agent,
        status,
        created_at: "2024-01-02T03:04:05Z".into(),
        comment: Comment {
            file: "src/a.rs".into(),
            side: Side::New,
            start: 3,
            end: 4,
            lines: String::new(),
            text: text.into(),
            diff_anchored: true,
        },
    }
}

#[test]
fn add_reads_defaults_for_end_side_and_author() {
    let inv = parse_invocation(&argv(&[
        "herdr-reviewr", "comment", "add", "--file", "src/a.rs", "--start", "7", "--text", "hi",
    ]));
    assert_eq!(
        inv,
        Invocation::Add {
            author: Author::Agent,
            comment: Comment {
                file: "src/a.rs".into(),
                side: Side::New,
                start: 7,
                end: 7,
                lines: String::new(),
                text: "hi".into(),
                diff_anchored: true,
            },
        }
    );
}

#[test]
fn add_reads_explicit_end_side_author_and_lines() {
    let inv = parse_invocation(&argv(&[
        "herdr-reviewr", "comment", "add", "--file", "b.rs", "--start", "2", "--end", "5",
        "--side", "old", "--author", "user", "--lines", "-x", "--text", "t",
    ]));
    match inv {
        Invocation::Add { author, comment } => {
            assert_eq!(author, Author::User);
            assert_eq!(comment.side, Side::Old);
            assert_eq!((comment.start, comment.end), (2, 5));
            assert_eq!(comment.lines, "-x");
        }
        other => panic!("expected an add, got {other:?}"),
    }
}

#[test]
fn a_repeated_flag_keeps_its_last_value() {
    let inv = parse_invocation(&argv(&[
        "p", "comment", "add", "--file", "a", "--file", "b", "--start", "+3", "--text", "t",
    ]));
    match inv {
        Invocation::Add { comment, .. } => {
            assert_eq!(comment.file, "b");
            assert_eq!(comment.start, 3);
        }
        other => panic!("expected an add, got {other:?}"),
    }
}

#[test]
fn add_usage_errors() {
    let usage = |parts: &[&str]| parse_invocation(&argv(parts)) == Invocation::Usage;
    assert!(usage(&["p", "comment", "add", "--file", "a", "--start", "1"]), "missing text");
    assert!(usage(&["p", "comment", "add", "--file", "a", "--start", "1", "--text"]), "no value");
    assert!(usage(&["p", "comment", "add", "--bogus", "x"]), "unknown flag");
    assert!(usage(&["p", "comment", "add", "--file", "a", "--start", "x", "--text", "t"]));
    assert!(usage(&["p", "comment", "add", "--file", "a", "--start", "4294967296", "--text", "t"]));
    assert!(usage(&["p", "comment", "add", "--side", "left"]));
    assert!(usage(&["p", "comment", "add", "--author", "bot"]));
}

#[test]
fn add_refuses_a_zero_start_and_a_reversed_range() {
    assert_eq!(
        parse_invocation(&argv(&["p", "comment", "add", "--file", "a", "--start", "0", "--text", "t"])),
        Invocation::Refused { message: "--start must be >= 1".into() }
    );
    assert_eq!(
        parse_invocation(&argv(&[
            "p", "comment", "add", "--file", "a", "--start", "5", "--end", "4", "--text", "t",
        ])),
        Invocation::Refused { message: "--end must be >= --start".into() }
    );
}

#[test]
fn list_resolve_rm_and_skill_path_read_their_arguments() {
    assert_eq!(
        parse_invocation(&argv(&["p", "comment", "list"])),
        Invocation::List { json: false, all: false }
    );
    assert_eq!(
        parse_invocation(&argv(&["p", "comment", "list", "--all", "--json"])),
        Invocation::List { json: true, all: true }
    );
    assert_eq!(parse_invocation(&argv(&["p", "comment", "list", "-a"])), Invocation::Usage);
    assert_eq!(
        parse_invocation(&argv(&["p", "comment", "resolve", "c-1-aaaa"])),
        Invocation::Resolve { id: "c-1-aaaa".into() }
    );
    assert_eq!(parse_invocation(&argv(&["p", "comment", "resolve"])), Invocation::Usage);
    assert_eq!(
        parse_invocation(&argv(&["p", "comment", "rm", "c-1-aaaa"])),
        Invocation::Remove { id: "c-1-aaaa".into() }
    );
    assert_eq!(parse_invocation(&argv(&["p", "comment", "rm", "a", "b"])), Invocation::Usage);
    assert_eq!(parse_invocation(&argv(&["p", "skill-path"])), Invocation::SkillPath);
    assert_eq!(parse_invocation(&argv(&["p", "comment"])), Invocation::Usage);
    assert_eq!(parse_invocation(&argv(&["p"])), Invocation::Usage);
}

#[test]
fn u32_values_read_as_std_reads_them() {
    assert_eq!(parse_u32("42"), Some(42));
    assert_eq!(parse_u32("+7"), Some(7));
    assert_eq!(parse_u32("4294967295"), Some(u32::MAX));
    assert_eq!(parse_u32("4294967296"), None);
    assert_eq!(parse_u32("-1"), None);
    assert_eq!(parse_u32(""), None);
    assert_eq!(parse_u32("+"), None);
}

#[test]
fn listed_rows_are_open_only_unless_all() {
    let rows = vec![
        stored("c-1-aaaa", Status::Open, "a"),
        stored("c-2-bbbb", Status::Resolved, "b"),
    ];
    let open = listed(&rows, false);
    assert_eq!(open.len(), 1);
    assert_eq!(open[0].id, "c-1-aaaa");
    assert_eq!(listed(&rows, true).len(), 2);
}

#[test]
fn a_row_shows_the_first_line_of_the_text() {
    let sc = stored("c-1-aaaa", Status::Open, "first\r\nsecond");
    assert_eq!(row_line(&sc), "c-1-aaaa  open  agent  src/a.rs:3-4  first");
    assert_eq!(first_line(""), "");
    assert_eq!(first_line("\nx"), "");
    assert_eq!(first_line("ends\r"), "ends\r");
}

#[test]
fn list_json_holds_one_document_per_row() {
    let rows = vec![stored("c-1-aaaa", Status::Open, "a")];
    match list_json(&rows) {
        Json::Array(items) => {
            assert_eq!(items.len(), 1);
            match &items[0] {
                Json::Object(members) => {
                    assert_eq!(members[0], ("id".to_string(), Json::Str("c-1-aaaa".into())));
                    assert_eq!(members.len(), 10);
                }
                other => panic!("expected an object, got {other:?}"),
            }
        }
        other => panic!("expected an array, got {other:?}"),
    }
}

#[test]
fn resolve_and_rm_on_an_unknown_id_name_the_id() {
    assert_eq!(change_report("c-0-beef", Ok(true)), None);
    assert_eq!(
        change_report("c-0-beef", Ok(false)),
        Some("no such comment: c-0-beef".to_string())
    );
    assert_eq!(change_report("x", Err("disk full".into())), Some("disk full".to_string()));
}

#[test]
fn skill_path_prefers_the_installed_file_then_the_checkout() {
    let installed = Some("/opt/p/skills/reviewr-comments/SKILL.md".to_string());
    assert_eq!(skill_location(installed.clone(), true, true), Ok(installed.clone().unwrap()));
    assert_eq!(
        skill_location(installed.clone(), false, true),
        Ok("skills/reviewr-comments/SKILL.md".to_string())
    );
    assert_eq!(
        skill_location(installed, false, false),
        Err("SKILL.md not found at /opt/p/skills/reviewr-comments/SKILL.md or skills/reviewr-comments/SKILL.md"
            .to_string())
    );
    assert_eq!(
        skill_location(None, false, false),
        Err("SKILL.md not found at skills/reviewr-comments/SKILL.md or skills/reviewr-comments/SKILL.md"
            .to_string())
    );
}
