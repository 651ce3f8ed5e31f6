use herdr_reviewr::comments::{
    entries_signature, from_value, load_records, load_texts, now_iso, record_text, status_edit,
    store_file_name, to_value, valid_id, Author, Status, StatusEditError, civil_from_days,
    comments_dir, id_from_clock, iso_from_secs, join_path, with_status, StoredComment,
};
use herdr_reviewr::json::{json_string, member, parse_json, Json};
use herdr_reviewr::model::{Comment, Side};

fn sample_comment() -> Comment {
    Comment {
        file: "src/a.rs".into(),
        side: Side::New,
        start: 3,
        end: 4,
        lines: "+let x = 1;".into(),
        text: "why not a const?".into(),
        diff_anchored: true,
    }
}

fn stored(id: &str) -> StoredComment {
    StoredComment {
        id: id.into(),
        author: Author::User,
        status: Status::Open,
        created_at: "2024-01-02T03:04:05Z".into(),
        comment: sample_comment(),
    }
}

fn set_member(v: &mut Json, key: &str, value: Json) {
    if let Json::Object(members) = v {
        for m in members.iter_mut() {
            if m.0 == key {
                m.1 = value;
                return;
            }
        }
        members.push((key.to_string(), value));
    }
}

#[test]
fn to_value_and_from_value_round_trip_and_reject_bad_json() {
    let sc = StoredComment {
        id: "c-1-aaaa".into(),
        author: Author::User,
        status: Status::Open,
        created_at: now_iso(),
        comment: sample_comment(),
    };
    let v = to_value(&sc);
    assert_eq!(member(&v, "side"), &Json::Str("new".into()));
    let back = from_value(&v).unwrap();
    assert_eq!(back.id, sc.id);
    assert_eq!(back.comment.file, sc.comment.file);
    assert!(!back.comment.diff_anchored, "from_value never sets diff_anchored; load does");

    let only_id = Json::Object(vec![("id".to_string(), Json::Str("c-1-aaaa".into()))]);
    assert!(from_value(&only_id).is_none());
}

#[test]
fn a_record_round_trips_every_field() {
    let mut sc = stored("c-17-beef");
    sc.author = Author::Agent;
    sc.status = Status::Resolved;
    sc.comment.side = Side::Old;
    sc.comment.diff_anchored = false;
    let back = from_value(&to_value(&sc)).unwrap();
    assert_eq!(back, sc);
}

#[test]
fn a_record_spells_its_enums_in_lower_case() {
    let mut sc = stored("c-1-aaaa");
    sc.author = Author::Agent;
    sc.status = Status::Resolved;
    sc.comment.side = Side::Old;
    let v = to_value(&sc);
    assert_eq!(member(&v, "author"), &Json::Str("agent".into()));
    assert_eq!(member(&v, "status"), &Json::Str("resolved".into()));
    assert_eq!(member(&v, "side"), &Json::Str("old".into()));
    assert_eq!(member(&v, "start"), &Json::UInt(3));
}

#[test]
fn from_value_rejects_an_unknown_side_a_wide_line_and_a_bad_id() {
    let mut v = to_value(&stored("c-1-aaaa"));
    set_member(&mut v, "side", Json::Str("middle".into()));
    assert!(from_value(&v).is_none());

    let mut v = to_value(&stored("c-1-aaaa"));
    set_member(&mut v, "end", Json::UInt(1u64 << 40));
    assert!(from_value(&v).is_none());

    let mut v = to_value(&stored("c-1-aaaa"));
    set_member(&mut v, "id", Json::Str("../../../evil".into()));
    assert!(from_value(&v).is_none());
}

#[test]
fn from_value_ignores_unknown_fields() {
    let mut v = to_value(&stored("c-1-aaaa"));
    set_member(&mut v, "future_field", Json::UInt(42));
    assert_eq!(from_value(&v).unwrap().id, "c-1-aaaa");
}

#[test]
fn ids_must_be_a_prefix_and_id_characters() {
    assert!(valid_id("c-1-aaaa"));
    assert!(!valid_id("../../../evil"));
    assert!(!valid_id(""));
}

#[test]
fn load_skips_unreadable_documents_sorts_by_id_and_marks_them_anchored() {
    let docs = vec![
        to_value(&stored("c-2-bbbb")),
        Json::Str("{not json".into()),
        to_value(&stored("c-1-aaaa")),
    ];
    let loaded = load_records(&docs);
    assert_eq!(loaded.len(), 2);
    assert_eq!(loaded[0].id, "c-1-aaaa");
    assert_eq!(loaded[1].id, "c-2-bbbb");
    assert!(loaded.iter().all(|c| c.comment.diff_anchored));
}

#[test]
fn load_skips_a_path_traversal_id() {
    let mut v = to_value(&stored("c-1-aaaa"));
    set_member(&mut v, "id", Json::Str("../../../evil".into()));
    assert!(load_records(&[v]).is_empty());
}

#[test]
fn the_signature_changes_on_add_remove_and_edit() {
    let empty = entries_signature(&vec![]);
    let one = entries_signature(&vec![("c-1-aaaa.json".to_string(), 5u128)]);
    let edited = entries_signature(&vec![("c-1-aaaa.json".to_string(), 6u128)]);
    let two = entries_signature(&vec![
        ("c-1-aaaa.json".to_string(), 5u128),
        ("c-2-bbbb.json".to_string(), 7u128),
    ]);
    assert_ne!(empty, one);
    assert_ne!(one, edited);
    assert_ne!(one, two);
    assert_eq!(empty, 0xcbf2_9ce4_8422_2325, "no entries hash to the FNV offset basis");
}

#[test]
fn the_signature_does_not_depend_on_listing_order() {
    let a = ("c-1-aaaa.json".to_string(), 5u128);
    let b = ("c-2-bbbb.json".to_string(), 7u128);
    assert_eq!(
        entries_signature(&vec![a.clone(), b.clone()]),
        entries_signature(&vec![b, a])
    );
}

#[test]
fn only_json_files_are_store_files() {
    assert!(store_file_name("c-1-aaaa.json"));
    assert!(!store_file_name("c-1-aaaa.json.tmp"));
    assert!(!store_file_name(".json"));
    assert!(store_file_name("..json"));
    assert!(!store_file_name("notes.txt"));
}

#[test]
fn an_id_is_the_clock_reading_in_milliseconds_and_the_nanosecond_remainder_in_hex() {
    assert_eq!(id_from_clock(1_700_000_000, 123_456_789), "c-1700000000123-cd15");
    assert_eq!(id_from_clock(0, 0), "c-0-0000");
    assert_ne!(id_from_clock(5, 1_000_001), id_from_clock(5, 1_000_002));
    assert!(valid_id(&id_from_clock(1, 999_999_999)));
}

#[test]
fn civil_dates_stay_within_their_month() {
    assert_eq!(civil_from_days(19_419), (2023, 3, 3));
    assert_eq!(civil_from_days(19_417), (2023, 3, 1));
    assert_eq!(civil_from_days(19_416), (2023, 2, 28));
    assert_eq!(civil_from_days(11_016), (2000, 2, 29));
    assert_eq!(civil_from_days(0), (1970, 1, 1));
    assert_eq!(civil_from_days(-1), (1969, 12, 31));
}

#[test]
fn iso_renderings_read_back_as_their_second() {
    for secs in [0u64, 951_782_400, 1_709_164_799, 253_402_300_799] {
        let iso = iso_from_secs(secs);
        assert_eq!(herdr_reviewr::forge::parse_iso(&iso), Some(secs as i64), "{iso}");
    }
    assert_eq!(iso_from_secs(1_677_628_800), "2023-03-01T00:00:00Z");
}

#[test]
fn set_status_preserves_unknown_fields() {
    // A future writer added a field to a stored comment's file.
    let mut v = parse_json(&record_text(&stored("c-1-aaaa"))).unwrap();
    set_member(&mut v, "future_field", Json::UInt(42));
    let text = json_string(&v);

    let updated = status_edit(&text, Status::Resolved).unwrap();
    let raw = parse_json(&json_string(&updated)).unwrap();
    assert_eq!(member(&raw, "status"), &Json::Str("resolved".into()));
    assert_eq!(member(&raw, "future_field"), &Json::UInt(42), "unknown fields survive a rewrite");
}

#[test]
fn a_status_edit_refuses_text_that_is_not_json_and_a_document_without_members() {
    assert!(matches!(status_edit("{not json", Status::Open), Err(StatusEditError::NotJson(_))));
    assert!(matches!(status_edit("[1, 2]", Status::Open), Err(StatusEditError::NotAnObject)));
    assert!(matches!(status_edit("\"x\"", Status::Open), Err(StatusEditError::NotAnObject)));
    assert_eq!(
        status_edit("null", Status::Open).unwrap(),
        Json::Object(vec![("status".into(), Json::Str("open".into()))])
    );
}

#[test]
fn corrupt_files_are_skipped_not_deleted() {
    let texts = vec![record_text(&stored("c-5-aaaa")), "{not json".to_string()];
    assert_eq!(load_texts(&texts).len(), 1);
    assert_eq!(texts[1], "{not json", "corrupt file is never deleted");
}

#[test]
fn round_trips_a_comment_through_the_store() {
    let sc = stored("c-1-aaaa");
    let loaded = load_texts(&vec![record_text(&sc)]);
    assert_eq!(loaded, vec![sc]);
    assert!(loaded[0].comment.diff_anchored, "loader marks store comments diff-anchored");
}

#[test]
fn loading_texts_sorts_by_id_and_skips_what_does_not_parse() {
    let texts = vec![
        record_text(&stored("c-2-bbbb")),
        "".to_string(),
        "[]".to_string(),
        record_text(&stored("c-1-aaaa")),
    ];
    let loaded = load_texts(&texts);
    assert_eq!(loaded.len(), 2);
    assert_eq!(loaded[0].id, "c-1-aaaa");
    assert_eq!(loaded[1].id, "c-2-bbbb");
}

#[test]
fn with_status_sets_only_the_status() {
    let mut v = to_value(&stored("c-1-aaaa"));
    set_member(&mut v, "future_field", Json::UInt(42));
    set_member(&mut v, "score", Json::Float("0.5".into()));
    let out = with_status(v, Status::Resolved);
    assert_eq!(member(&out, "status"), &Json::Str("resolved".into()));
    assert_eq!(member(&out, "future_field"), &Json::UInt(42));
    assert_eq!(member(&out, "score"), &Json::Float("0.5".into()));
    assert_eq!(member(&out, "id"), &Json::Str("c-1-aaaa".into()));
    let fresh = with_status(Json::Null, Status::Open);
    assert_eq!(fresh, Json::Object(vec![("status".into(), Json::Str("open".into()))]));
    let bare = with_status(Json::Object(vec![]), Status::Open);
    assert_eq!(member(&bare, "status"), &Json::Str("open".into()));
}

#[test]
fn the_store_lives_under_the_git_dir() {
    assert_eq!(comments_dir("/work/repo", ".git"), "/work/repo/.git/reviewr/comments");
    assert_eq!(comments_dir("/work/repo", "/abs/git/wt"), "/abs/git/wt/reviewr/comments");
    assert_eq!(comments_dir("/work/repo/", ".git"), "/work/repo/.git/reviewr/comments");
    assert_eq!(join_path("", "a"), "a");
}
