use herdr_reviewr::forge::{absent_ok, cli_json, CliError};
use herdr_reviewr::forge_core::{forge_json, ForgeError};
use herdr_reviewr::git::Forge;
use herdr_reviewr::json::{json_string, member, parse_json, Json};

#[test]
fn a_document_reads_its_values_and_keeps_other_numbers_as_text() {
    let v = parse_json(r#"{"b": [1, -2, 2.5, true, null], "a": "x"}"#).unwrap();
    assert_eq!(member(&v, "a"), &Json::Str("x".into()));
    assert_eq!(
        member(&v, "b"),
        &Json::Array(vec![
            Json::UInt(1),
            Json::NegInt(-2),
            Json::Float("2.5".into()),
            Json::Bool(true),
            Json::Null,
        ])
    );
    assert!(parse_json("{\"a\": ").is_err());
    assert!(parse_json("").is_err());
}

#[test]
fn a_rendered_document_reads_back_as_itself() {
    let v = Json::Object(vec![
        ("id".into(), Json::Str("c-1".into())),
        ("n".into(), Json::UInt(18446744073709551615)),
        ("m".into(), Json::NegInt(-9)),
        ("f".into(), Json::Float("0.5".into())),
        ("list".into(), Json::Array(vec![Json::Null, Json::Bool(false)])),
    ]);
    let text = json_string(&v);
    assert_eq!(text, r#"{"f":0.5,"id":"c-1","list":[null,false],"m":-9,"n":18446744073709551615}"#);
    let back = parse_json(&text).unwrap();
    assert_eq!(member(&back, "id"), &Json::Str("c-1".into()));
    assert_eq!(member(&back, "n"), &Json::UInt(18446744073709551615));
    assert_eq!(member(&back, "m"), &Json::NegInt(-9));
    assert_eq!(member(&back, "f"), &Json::Float("0.5".into()));
}

#[test]
fn cli_output_that_is_not_json_is_an_other_failure() {
    assert_eq!(cli_json("[1]").unwrap(), Json::Array(vec![Json::UInt(1)]));
    assert!(matches!(cli_json("oops"), Err(CliError::Other(m)) if !m.is_empty()));
    assert_eq!(forge_json("{}").unwrap(), Json::Object(vec![]));
    assert!(matches!(forge_json("<html>"), Err(ForgeError::Other(m)) if !m.is_empty()));
}

#[test]
fn a_404_reads_as_absence_and_other_failures_stay() {
    assert_eq!(absent_ok(Ok(Json::Null)).unwrap(), Some(Json::Null));
    assert_eq!(absent_ok(Err(CliError::Other("glab: 404 Not Found (HTTP 404)".into()))).unwrap(), None);
    assert_eq!(
        absent_ok(Err(CliError::Other("HTTP 500".into()))),
        Err(CliError::Other("HTTP 500".into()))
    );
    assert_eq!(
        absent_ok(Err(CliError::NotAuthed(Forge::GitLab, "gitlab.com".into()))),
        Err(CliError::NotAuthed(Forge::GitLab, "gitlab.com".into()))
    );
}
