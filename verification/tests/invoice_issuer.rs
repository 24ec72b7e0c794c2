use clnaddress::amount::AmountBounds;
use clnaddress::invoice::{
    InvoiceQueryParams, LnurlError, ServerConfig, error_body, get_invoice, get_lnurlp_config,
};
use clnaddress::metadata::UserMetadata;
use nostr_sdk::prelude::{EventBuilder, FinalizeEvent, Keys, Kind, Tag};

fn config(zapper: Option<String>) -> ServerConfig {
    ServerConfig {
        bounds: AmountBounds::new(0, 100_000_000_000).unwrap(),
        default_description: "Thank you :)".to_string(),
        base_url: "https://example.com/path/".to_string(),
        host: "example.com".to_string(),
        port: None,
        nostr_pubkey: zapper,
    }
}

fn signed_zap_request(keys: &Keys, tags: Vec<Vec<&str>>, amount: u64) -> String {
    let mut all = vec![vec!["amount".to_string(), amount.to_string()]];
    for t in tags {
        all.push(t.into_iter().map(|s| s.to_string()).collect());
    }
    EventBuilder::new(Kind::ZapRequest, "")
        .tags(all.into_iter().map(|t| Tag::parse(t).unwrap()))
        .finalize(keys)
        .unwrap()
        .as_json()
}

#[test]
fn anonymous_invoice_uses_default_metadata() {
    let params = InvoiceQueryParams { amount: 1000, nostr: None };
    let spec = get_invoice(&params, None, None, &config(None)).unwrap();
    assert_eq!(spec.description, r#"[["text/plain","Thank you :)"]]"#);
    assert_eq!(spec.amount_msat, Some(1000));
    assert!(spec.deschashonly);
    assert_eq!(spec.label.len(), 36);
}

#[test]
fn labels_are_fresh_per_call() {
    let params = InvoiceQueryParams { amount: 1000, nostr: None };
    let a = get_invoice(&params, None, None, &config(None)).unwrap();
    let b = get_invoice(&params, None, None, &config(None)).unwrap();
    assert_ne!(a.label, b.label);
}

#[test]
fn zero_amount_requests_any_amount_invoice() {
    let params = InvoiceQueryParams { amount: 0, nostr: None };
    let spec = get_invoice(&params, None, None, &config(None)).unwrap();
    assert_eq!(spec.amount_msat, None);
}

#[test]
fn amount_out_of_bounds_is_bad_request() {
    let mut cfg = config(None);
    cfg.bounds = AmountBounds::new(10, 100).unwrap();
    let params = InvoiceQueryParams { amount: 5, nostr: None };
    let err = get_invoice(&params, None, None, &cfg).unwrap_err();
    assert_eq!(err.status_code(), 400);
    assert_eq!(err.reason(), "`amount` below minimum: 5<10");
}

#[test]
fn known_user_invoice_uses_user_metadata() {
    let params = InvoiceQueryParams { amount: 1000, nostr: None };
    let user = "alice".to_string();
    let meta = UserMetadata { is_email: Some(true), description: Some("Hi".to_string()) };
    let spec = get_invoice(&params, Some(&user), Some(&meta), &config(None)).unwrap();
    assert_eq!(
        spec.description,
        r#"[["text/plain","Hi"],["text/email","alice@example.com"]]"#
    );
}

#[test]
fn unknown_user_is_not_found() {
    let params = InvoiceQueryParams { amount: 1000, nostr: None };
    let user = "ghost".to_string();
    let err = get_invoice(&params, Some(&user), None, &config(None)).unwrap_err();
    assert_eq!(err.status_code(), 404);
    assert_eq!(err.reason(), "User `ghost` not found!");
}

#[test]
fn nostr_param_without_zap_config_refused() {
    let params = InvoiceQueryParams { amount: 1000, nostr: Some("{}".to_string()) };
    let err = get_invoice(&params, None, None, &config(None)).unwrap_err();
    assert!(matches!(err, LnurlError::ZapsNotConfigured));
    assert_eq!(err.status_code(), 400);
}

#[test]
fn malformed_nostr_param_refused() {
    let keys = Keys::generate();
    let zapper = Some(keys.public_key().to_hex());
    let params = InvoiceQueryParams { amount: 1000, nostr: Some("not json".to_string()) };
    let err = get_invoice(&params, None, None, &config(zapper)).unwrap_err();
    assert!(matches!(err, LnurlError::MalformedZapRequest));
    assert_eq!(err.status_code(), 400);
}

#[test]
fn tampered_signature_is_upstream_failure() {
    let keys = Keys::generate();
    let zapper = Some(keys.public_key().to_hex());
    let sender = Keys::generate();
    let json = signed_zap_request(
        &sender,
        vec![
            vec!["p", keys.public_key().to_hex().as_str()],
            vec!["relays", "wss://relay.example.com"],
        ],
        1000,
    );
    let tampered = json.replace("\"content\":\"\"", "\"content\":\"oops\"");
    assert_ne!(json, tampered);
    let params = InvoiceQueryParams { amount: 1000, nostr: Some(tampered) };
    let err = get_invoice(&params, None, None, &config(zapper)).unwrap_err();
    assert!(matches!(err, LnurlError::SignatureInvalid));
    assert_eq!(err.status_code(), 500);
}

#[test]
fn event_missing_relays_is_bad_request_mentioning_relays() {
    let keys = Keys::generate();
    let zapper = Some(keys.public_key().to_hex());
    let sender = Keys::generate();
    let json = signed_zap_request(
        &sender,
        vec![vec!["p", keys.public_key().to_hex().as_str()]],
        500,
    );
    let params = InvoiceQueryParams { amount: 500, nostr: Some(json) };
    let err = get_invoice(&params, None, None, &config(zapper)).unwrap_err();
    assert_eq!(err.status_code(), 400);
    assert!(err.reason().contains("relays"));
}

#[test]
fn valid_zap_request_becomes_the_description() {
    let keys = Keys::generate();
    let zapper = Some(keys.public_key().to_hex());
    let sender = Keys::generate();
    let json = signed_zap_request(
        &sender,
        vec![
            vec!["p", keys.public_key().to_hex().as_str()],
            vec!["relays", "wss://relay.example.com"],
        ],
        1000,
    );
    // The canonical serialization is used, not the wire text as received.
    let padded = format!(" {json} ");
    let params = InvoiceQueryParams { amount: 1000, nostr: Some(padded.clone()) };
    let spec = get_invoice(&params, None, None, &config(zapper)).unwrap();
    assert_eq!(spec.description, json);
    assert_ne!(spec.description, padded);
}

#[test]
fn zap_request_amount_mismatch_refused() {
    let keys = Keys::generate();
    let zapper = Some(keys.public_key().to_hex());
    let sender = Keys::generate();
    let json = signed_zap_request(
        &sender,
        vec![
            vec!["p", keys.public_key().to_hex().as_str()],
            vec!["relays", "wss://relay.example.com"],
        ],
        999,
    );
    let params = InvoiceQueryParams { amount: 1000, nostr: Some(json) };
    let err = get_invoice(&params, None, None, &config(zapper)).unwrap_err();
    assert!(matches!(
        err,
        LnurlError::InvalidZapRequest(clnaddress::zap::ZapError::AmountMismatch)
    ));
}

#[test]
fn lnurlp_config_anonymous() {
    let cfg = config(None);
    let c = get_lnurlp_config(None, None, &cfg).unwrap();
    assert_eq!(c.callback, "https://example.com/path/invoice");
    assert_eq!(c.min_sendable, 0);
    assert_eq!(c.max_sendable, 100_000_000_000);
    assert_eq!(c.tag, "payRequest");
    assert_eq!(c.metadata, r#"[["text/plain","Thank you :)"]]"#);
    assert!(!c.allows_nostr);
    assert!(c.nostr_pubkey.is_none());
    assert!(c.comment_allowed.is_none());
}

#[test]
fn lnurlp_config_for_user_builds_callback_and_advertises_zaps() {
    let zapper = "deadbeefdeadbeefdeadbeefdeadbeefdeadbeefdeadbeefdeadbeefdeadbeef".to_string();
    let cfg = config(Some(zapper.clone()));
    let user = "alice".to_string();
    let meta = UserMetadata { is_email: Some(true), description: Some("Hi".to_string()) };
    let c = get_lnurlp_config(Some(&user), Some(&meta), &cfg).unwrap();
    assert_eq!(c.callback, "https://example.com/path/invoice/alice");
    assert_eq!(
        c.metadata,
        r#"[["text/plain","Hi"],["text/email","alice@example.com"]]"#
    );
    assert!(c.allows_nostr);
    assert_eq!(c.nostr_pubkey, Some(zapper));
}

#[test]
fn lnurlp_config_unknown_user_is_not_found() {
    let cfg = config(None);
    let user = "ghost".to_string();
    let err = get_lnurlp_config(Some(&user), None, &cfg).unwrap_err();
    assert_eq!(err.status_code(), 404);
}

#[test]
fn unusable_base_url_is_internal_error() {
    let mut cfg = config(None);
    cfg.base_url = "not a url".to_string();
    let err = get_lnurlp_config(None, None, &cfg).unwrap_err();
    assert!(matches!(err, LnurlError::CallbackUrl));
    assert_eq!(err.status_code(), 500);
}

#[test]
fn error_body_shape() {
    assert_eq!(
        error_body(&"oops".to_string()),
        r#"{"reason":"oops","status":"ERROR"}"#
    );
    assert_eq!(
        error_body(&"say \"hi\"".to_string()),
        r#"{"reason":"say \"hi\"","status":"ERROR"}"#
    );
}
