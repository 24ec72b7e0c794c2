use clnaddress::zap::{ZapError, ZapEvent, verify_zap_request};

const PK: &str = "deadbeefdeadbeefdeadbeefdeadbeefdeadbeefdeadbeefdeadbeefdeadbeef";
const OTHER_PK: &str = "00112233445566778899aabbccddeeff00112233445566778899aabbccddeeff";

fn event(kind: u16, tags: Vec<Vec<&str>>) -> ZapEvent {
    ZapEvent {
        kind,
        pubkey: PK.to_string(),
        tags: tags
            .into_iter()
            .map(|t| t.into_iter().map(|s| s.to_string()).collect())
            .collect(),
        json: String::new(),
    }
}

fn minimal_tags() -> Vec<Vec<&'static str>> {
    vec![vec!["p", OTHER_PK], vec!["relays", "wss://relay.example.com"]]
}

#[test]
fn minimal_well_formed_event_accepted() {
    let ev = event(9734, minimal_tags());
    assert_eq!(verify_zap_request(&ev, 1000), Ok(()));
}

#[test]
fn wrong_kind_rejected() {
    let ev = event(1, minimal_tags());
    assert_eq!(verify_zap_request(&ev, 1000), Err(ZapError::WrongKind));
}

#[test]
fn empty_tags_rejected() {
    let ev = event(9734, vec![]);
    assert_eq!(verify_zap_request(&ev, 1000), Err(ZapError::NoTags));
}

#[test]
fn missing_p_rejected() {
    let ev = event(9734, vec![vec!["relays", "wss://relay.example.com"]]);
    assert_eq!(verify_zap_request(&ev, 1000), Err(ZapError::MissingP));
}

#[test]
fn missing_relays_rejected() {
    let ev = event(9734, vec![vec!["p", OTHER_PK]]);
    assert_eq!(verify_zap_request(&ev, 1000), Err(ZapError::MissingRelays));
}

#[test]
fn empty_relays_tag_rejected() {
    let ev = event(9734, vec![vec!["p", OTHER_PK], vec!["relays"]]);
    assert_eq!(verify_zap_request(&ev, 1000), Err(ZapError::MissingRelays));
}

#[test]
fn two_e_tags_rejected() {
    let mut tags = minimal_tags();
    tags.push(vec!["e", "aa"]);
    tags.push(vec!["e", "bb"]);
    let ev = event(9734, tags);
    assert_eq!(verify_zap_request(&ev, 1000), Err(ZapError::TooManyE));
}

#[test]
fn one_e_tag_accepted() {
    let mut tags = minimal_tags();
    tags.push(vec!["e", "aa"]);
    let ev = event(9734, tags);
    assert_eq!(verify_zap_request(&ev, 1000), Ok(()));
}

#[test]
fn two_p_tags_rejected() {
    let mut tags = minimal_tags();
    tags.push(vec!["p", PK]);
    let ev = event(9734, tags);
    assert_eq!(verify_zap_request(&ev, 1000), Err(ZapError::TooManyP));
}

#[test]
fn amount_tag_mismatch_rejected() {
    let mut tags = minimal_tags();
    tags.push(vec!["amount", "999"]);
    let ev = event(9734, tags);
    assert_eq!(verify_zap_request(&ev, 1000), Err(ZapError::AmountMismatch));
}

#[test]
fn amount_tag_match_accepted() {
    let mut tags = minimal_tags();
    tags.push(vec!["amount", "1000"]);
    let ev = event(9734, tags);
    assert_eq!(verify_zap_request(&ev, 1000), Ok(()));
}

#[test]
fn amount_tag_unparseable_rejected() {
    let mut tags = minimal_tags();
    tags.push(vec!["amount", "12x"]);
    let ev = event(9734, tags);
    assert_eq!(verify_zap_request(&ev, 1000), Err(ZapError::AmountMismatch));
}

#[test]
fn amount_tag_without_value_rejected() {
    let mut tags = minimal_tags();
    tags.push(vec!["amount"]);
    let ev = event(9734, tags);
    assert_eq!(verify_zap_request(&ev, 1000), Err(ZapError::AmountMismatch));
}

#[test]
fn big_p_equal_to_own_pubkey_accepted() {
    let mut tags = minimal_tags();
    tags.push(vec!["P", PK]);
    let ev = event(9734, tags);
    assert_eq!(verify_zap_request(&ev, 1000), Ok(()));
}

#[test]
fn big_p_other_value_rejected() {
    let mut tags = minimal_tags();
    tags.push(vec!["P", OTHER_PK]);
    let ev = event(9734, tags);
    assert_eq!(verify_zap_request(&ev, 1000), Err(ZapError::PMismatch));
}

#[test]
fn big_p_uppercase_hex_of_own_pubkey_accepted() {
    // The key bytes are compared, not the hex spelling.
    let mut tags = minimal_tags();
    let upper = PK.to_uppercase();
    tags.push(vec!["P", upper.as_str()]);
    let ev = event(9734, tags);
    assert_eq!(verify_zap_request(&ev, 1000), Ok(()));
}

#[test]
fn big_p_invalid_hex_rejected() {
    let mut tags = minimal_tags();
    tags.push(vec!["P", "not-hex"]);
    let ev = event(9734, tags);
    assert_eq!(verify_zap_request(&ev, 1000), Err(ZapError::PMismatch));
}

#[test]
fn two_big_p_tags_rejected() {
    let mut tags = minimal_tags();
    tags.push(vec!["P", PK]);
    tags.push(vec!["P", PK]);
    let ev = event(9734, tags);
    assert_eq!(verify_zap_request(&ev, 1000), Err(ZapError::TooManyPUpper));
}

#[test]
fn valid_a_coordinate_accepted() {
    let mut tags = minimal_tags();
    let coord = format!("30023:{OTHER_PK}:my-article");
    tags.push(vec!["a", coord.as_str()]);
    let ev = event(9734, tags);
    assert_eq!(verify_zap_request(&ev, 1000), Ok(()));
}

#[test]
fn valid_two_part_a_coordinate_accepted() {
    let mut tags = minimal_tags();
    let coord = format!("30023:{OTHER_PK}");
    tags.push(vec!["a", coord.as_str()]);
    let ev = event(9734, tags);
    assert_eq!(verify_zap_request(&ev, 1000), Ok(()));
}

#[test]
fn a_coordinate_without_colon_rejected() {
    let mut tags = minimal_tags();
    tags.push(vec!["a", "justonepart"]);
    let ev = event(9734, tags);
    assert_eq!(verify_zap_request(&ev, 1000), Err(ZapError::InvalidACoord));
}

#[test]
fn a_coordinate_bad_kind_rejected() {
    let mut tags = minimal_tags();
    let coord = format!("abc:{OTHER_PK}");
    tags.push(vec!["a", coord.as_str()]);
    let ev = event(9734, tags);
    assert_eq!(verify_zap_request(&ev, 1000), Err(ZapError::InvalidACoord));
}

#[test]
fn a_coordinate_kind_too_large_rejected() {
    let mut tags = minimal_tags();
    let coord = format!("65536:{OTHER_PK}");
    tags.push(vec!["a", coord.as_str()]);
    let ev = event(9734, tags);
    assert_eq!(verify_zap_request(&ev, 1000), Err(ZapError::InvalidACoord));
}

#[test]
fn a_coordinate_bad_pubkey_rejected() {
    let mut tags = minimal_tags();
    tags.push(vec!["a", "30023:shortkey"]);
    let ev = event(9734, tags);
    assert_eq!(verify_zap_request(&ev, 1000), Err(ZapError::InvalidACoord));
}

#[test]
fn a_coordinate_four_parts_rejected() {
    let mut tags = minimal_tags();
    let coord = format!("30023:{OTHER_PK}:x:y");
    tags.push(vec!["a", coord.as_str()]);
    let ev = event(9734, tags);
    assert_eq!(verify_zap_request(&ev, 1000), Err(ZapError::InvalidACoord));
}

#[test]
fn a_coordinate_without_value_rejected() {
    let mut tags = minimal_tags();
    tags.push(vec!["a"]);
    let ev = event(9734, tags);
    assert_eq!(verify_zap_request(&ev, 1000), Err(ZapError::InvalidACoord));
}

#[test]
fn verdict_does_not_depend_on_tag_order() {
    let tags = vec![
        vec!["amount", "1000"],
        vec!["relays", "wss://a", "wss://b"],
        vec!["e", "aa"],
        vec!["p", OTHER_PK],
        vec!["P", PK],
    ];
    let forward = event(9734, tags.clone());
    let mut reversed_tags = tags;
    reversed_tags.reverse();
    let backward = event(9734, reversed_tags);
    assert_eq!(verify_zap_request(&forward, 1000), Ok(()));
    assert_eq!(verify_zap_request(&backward, 1000), Ok(()));
}

#[test]
fn unknown_tags_ignored() {
    let mut tags = minimal_tags();
    tags.push(vec!["t", "hashtag"]);
    tags.push(vec!["A", "not:checked"]);
    tags.push(vec![]);
    let ev = event(9734, tags);
    assert_eq!(verify_zap_request(&ev, 1000), Ok(()));
}

#[test]
fn error_reason_mentions_relays() {
    let ev = event(9734, vec![vec!["p", OTHER_PK]]);
    let err = verify_zap_request(&ev, 1000).unwrap_err();
    assert!(err.reason().contains("relays"));
}
