use pynit::contributor::{parse_contributor, Contributor};

#[test]
fn both_captures_give_complex() {
    let c = parse_contributor("name=\"Bo\",email=\"bo@x.io\"");
    assert_eq!(
        c,
        Contributor::Complex { name: "Bo".to_string(), email: "bo@x.io".to_string() }
    );
}

#[test]
fn both_captures_with_surrounding_text() {
    let c = parse_contributor("xx name=\"A\" yy email=\"b@c\" zz");
    assert_eq!(c, Contributor::Complex { name: "A".to_string(), email: "b@c".to_string() });
}

#[test]
fn name_only_gives_flat_capture() {
    let c = parse_contributor("name=\"Antoine L\"");
    assert_eq!(c, Contributor::Flat("Antoine L".to_string()));
}

#[test]
fn email_only_gives_flat_capture() {
    let c = parse_contributor("email=\"a@b.c\"");
    assert_eq!(c, Contributor::Flat("a@b.c".to_string()));
}

#[test]
fn neither_capture_keeps_token_verbatim() {
    let c = parse_contributor("Antoine Langlois");
    assert_eq!(c, Contributor::Flat("Antoine Langlois".to_string()));
}

#[test]
fn unterminated_quote_falls_through_to_verbatim() {
    let c = parse_contributor("name=\"Bo");
    assert_eq!(c, Contributor::Flat("name=\"Bo".to_string()));
}

#[test]
fn leftmost_match_wins() {
    let c = parse_contributor("name=\"A\" name=\"B\"");
    assert_eq!(c, Contributor::Flat("A".to_string()));
}

#[test]
fn failed_leftmost_start_is_skipped() {
    // the first name=" is not closed over class characters; the second is
    let c = parse_contributor("name=\"!bad\" name=\"ok\"");
    assert_eq!(c, Contributor::Flat("ok".to_string()));
}

#[test]
fn empty_capture_is_allowed() {
    let c = parse_contributor("name=\"\"");
    assert_eq!(c, Contributor::Flat(String::new()));
}

#[test]
fn name_class_excludes_at_sign() {
    // an @ stops the name class, so only the email pattern matches
    let c = parse_contributor("name=\"a@b\",email=\"a@b\"");
    assert_eq!(c, Contributor::Flat("a@b".to_string()));
}
