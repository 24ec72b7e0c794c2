//! The LNURL-pay surface: the discovery configuration response and the
//! invoice issuer that turns a validated request into the parameters of a
//! node invoice call.

use vstd::prelude::*;
use crate::amount::{AmountBounds, AmountError, amount_verdict, validate_invoice_amount};
use crate::metadata::{
    UserMetadata, metadata_entries, anonymous_entries, generate_user_metadata, anonymous_metadata,
};
use crate::text::{json_of_metadata, json_of_string, serialize_metadata, push_json_string};
use crate::zap::{
    ZapError, zap_request_valid, zap_error_sound, parsed_zap, sig_valid_json, parse_zap_event,
    event_sig_valid, verify_zap_request,
};

verus! {

/// The query parameters of an invoice request: the amount in millisatoshi
/// and, optionally, a JSON-serialized signed zap-request event.
#[derive(Clone, Debug)]
pub struct InvoiceQueryParams {
    pub amount: u64,
    pub nostr: Option<String>,
}

/// The LNURL-pay discovery response.
#[derive(Clone, Debug)]
pub struct LnurlpConfig {
    pub callback: String,
    pub max_sendable: u64,
    pub min_sendable: u64,
    pub metadata: String,
    pub tag: String,
    pub comment_allowed: Option<u64>,
    pub allows_nostr: bool,
    pub nostr_pubkey: Option<String>,
}

/// The successful invoice response: the bolt11 string and an empty route
/// hint list.
#[derive(Clone, Debug)]
pub struct LnurlpCallback {
    pub pr: String,
    pub routes: Vec<String>,
}

/// The read-only configuration shared by all request handlers.
#[derive(Clone, Debug)]
pub struct ServerConfig {
    pub bounds: AmountBounds,
    pub default_description: String,
    pub base_url: String,
    pub host: String,
    pub port: Option<u16>,
    pub nostr_pubkey: Option<String>,
}

impl ServerConfig {
    pub open spec fn wf(self) -> bool {
        self.bounds.wf()
    }
}

/// Everything a request handler decides about a node invoice call: the
/// fixed amount (or any-amount), the description payload, a fresh label,
/// and description-hash-only encoding.
#[derive(Clone, Debug)]
pub struct InvoiceSpec {
    pub amount_msat: Option<u64>,
    pub description: String,
    pub label: String,
    pub deschashonly: bool,
}

/// Why an LNURL request failed, mapped to an HTTP status.
#[derive(Clone, Debug)]
pub enum LnurlError {
    AmountOutOfRange(AmountError),
    ZapsNotConfigured,
    MalformedZapRequest,
    InvalidZapRequest(ZapError),
    SignatureInvalid,
    UnknownUser { user: String },
    CallbackUrl,
}

impl LnurlError {
    /// The HTTP status owed for this error: validation failures are 400,
    /// an unknown user is 404, upstream and signature failures are 500.
    pub open spec fn status_spec(self) -> u16 {
        match self {
            LnurlError::AmountOutOfRange(_) => 400,
            LnurlError::ZapsNotConfigured => 400,
            LnurlError::MalformedZapRequest => 400,
            LnurlError::InvalidZapRequest(_) => 400,
            LnurlError::SignatureInvalid => 500,
            LnurlError::UnknownUser { .. } => 404,
            LnurlError::CallbackUrl => 500,
        }
    }

    pub fn status_code(&self) -> (r: u16)
        ensures
            r == self.status_spec(),
    {
        match self {
            LnurlError::AmountOutOfRange(_) => 400,
            LnurlError::ZapsNotConfigured => 400,
            LnurlError::MalformedZapRequest => 400,
            LnurlError::InvalidZapRequest(_) => 400,
            LnurlError::SignatureInvalid => 500,
            LnurlError::UnknownUser { .. } => 404,
            LnurlError::CallbackUrl => 500,
        }
    }

    /// The reason string surfaced to the caller.
    pub open spec fn reason_spec(self) -> Seq<char> {
        match self {
            LnurlError::AmountOutOfRange(e) => e.reason_spec(),
            LnurlError::ZapsNotConfigured => "Nostr Zaps not configured"@,
            LnurlError::MalformedZapRequest => "Could not parse Nostr event"@,
            LnurlError::InvalidZapRequest(e) => e.reason_spec(),
            LnurlError::SignatureInvalid => "Invalid Nostr event signature"@,
            LnurlError::UnknownUser { user } => "User `"@ + user@ + "` not found!"@,
            LnurlError::CallbackUrl => "Could not build callback URL"@,
        }
    }

    /// Renders the reason for the failure.
    pub fn reason(&self) -> (r: String)
        ensures
            r@ == self.reason_spec(),
    {
        match self {
            LnurlError::AmountOutOfRange(e) => e.reason(),
            LnurlError::ZapsNotConfigured => "Nostr Zaps not configured".to_owned(),
            LnurlError::MalformedZapRequest => "Could not parse Nostr event".to_owned(),
            LnurlError::InvalidZapRequest(e) => e.reason(),
            LnurlError::SignatureInvalid => "Invalid Nostr event signature".to_owned(),
            LnurlError::UnknownUser { user } => {
                let mut out: String = "User `".to_owned();
                out.append(user.as_str());
                out.append("` not found!");
                proof {
                    assert(out@ =~= self.reason_spec());
                }
                out
            },
            LnurlError::CallbackUrl => "Could not build callback URL".to_owned(),
        }
    }
}

/// The JSON error body sent with a failing HTTP response, with the fields
/// in the order a map-backed JSON writer emits them.
pub open spec fn error_body_spec(reason: Seq<char>) -> Seq<char> {
    "{\"reason\":"@ + json_of_string(reason) + ",\"status\":\"ERROR\"}"@
}

/// Renders the JSON error body for a reason string.
pub fn error_body(reason: &String) -> (r: String)
    ensures
        r@ == error_body_spec(reason@),
{
    let mut out: String = "{\"reason\":".to_owned();
    push_json_string(&mut out, reason);
    out.append(",\"status\":\"ERROR\"}");
    proof {
        assert(out@ =~= error_body_spec(reason@));
    }
    out
}

/// What the URL library makes of a base URL and a relative reference, if
/// anything: a function of the two texts alone.
pub uninterp spec fn url_join_spec(base: Seq<char>, rel: Seq<char>) -> Option<Seq<char>>;

/// Relies on `url::Url::parse` and `url::Url::join`: resolves a relative
/// reference against a base URL and prints the result.
#[verifier::external_body]
fn url_join(base: &str, rel: &str) -> (r: Option<String>)
    ensures
        match r {
            Some(s) => url_join_spec(base@, rel@) == Some(s@),
            None => url_join_spec(base@, rel@) is None,
        },
{
    match url::Url::parse(base) {
        Ok(u) => match u.join(rel) {
            Ok(joined) => Some(joined.to_string()),
            Err(_) => None,
        },
        Err(_) => None,
    }
}

/// Relies on `uuid::Uuid::new_v4` and its hyphenated rendering: a fresh
/// random 128-bit token printed as 36 characters. Nothing more is promised
/// of a random value.
#[verifier::external_body]
fn fresh_label() -> (r: String)
    ensures
        r@.len() == 36,
{
    uuid::Uuid::new_v4().to_string()
}

/// The invoice issuer: validates the amount, settles the description
/// payload (a verified zap request, a user's metadata array, or the
/// anonymous one), and fixes the parameters of the node invoice call.
pub fn get_invoice(
    params: &InvoiceQueryParams,
    user: Option<&String>,
    user_lookup: Option<&UserMetadata>,
    config: &ServerConfig,
) -> (r: Result<InvoiceSpec, LnurlError>)
    ensures
        amount_verdict(
            params.amount,
            config.bounds.min_sendable_msat,
            config.bounds.max_sendable_msat,
        ) matches Err(ae) ==> r == Err::<InvoiceSpec, LnurlError>(
            LnurlError::AmountOutOfRange(ae),
        ),
        r matches Err(LnurlError::AmountOutOfRange(ae)) ==> amount_verdict(
            params.amount,
            config.bounds.min_sendable_msat,
            config.bounds.max_sendable_msat,
        ) == Err::<(), AmountError>(ae),
        amount_verdict(
            params.amount,
            config.bounds.min_sendable_msat,
            config.bounds.max_sendable_msat,
        ) is Ok ==> match params.nostr {
            Some(d) => {
                &&& (config.nostr_pubkey is None ==> r == Err::<InvoiceSpec, LnurlError>(
                    LnurlError::ZapsNotConfigured,
                ))
                &&& (config.nostr_pubkey is Some ==> match parsed_zap(d@) {
                    None => r == Err::<InvoiceSpec, LnurlError>(LnurlError::MalformedZapRequest),
                    Some(ev) => {
                        &&& (!sig_valid_json(d@) ==> r == Err::<InvoiceSpec, LnurlError>(
                            LnurlError::SignatureInvalid,
                        ))
                        &&& (sig_valid_json(d@) && !zap_request_valid(ev, params.amount)
                            ==> match r {
                            Err(LnurlError::InvalidZapRequest(ze)) => zap_error_sound(
                                ze,
                                ev,
                                params.amount,
                            ),
                            _ => false,
                        })
                        &&& (sig_valid_json(d@) && zap_request_valid(ev, params.amount) ==> r
                            is Ok)
                    },
                })
            },
            None => match user {
                Some(u) => {
                    &&& (user_lookup is None ==> match r {
                        Err(LnurlError::UnknownUser { user: uu }) => uu@ == u@,
                        _ => false,
                    })
                    &&& (user_lookup is Some ==> r is Ok)
                },
                None => r is Ok,
            },
        },
        r matches Ok(spec) ==> {
            &&& amount_verdict(
                params.amount,
                config.bounds.min_sendable_msat,
                config.bounds.max_sendable_msat,
            ) is Ok
            &&& spec.amount_msat == (if params.amount > 0 {
                Some(params.amount)
            } else {
                None::<u64>
            })
            &&& spec.label@.len() == 36
            &&& spec.deschashonly
            &&& match params.nostr {
                Some(d) => {
                    &&& config.nostr_pubkey is Some
                    &&& sig_valid_json(d@)
                    &&& match parsed_zap(d@) {
                        Some(ev) => zap_request_valid(ev, params.amount) && spec.description@
                            == ev.json,
                        None => false,
                    }
                },
                None => match user {
                    Some(u) => match user_lookup {
                        Some(m) => spec.description@ == json_of_metadata(
                            metadata_entries(
                                u@,
                                *m,
                                config.default_description@,
                                config.host@,
                                config.port,
                            ),
                        ),
                        None => false,
                    },
                    None => spec.description@ == json_of_metadata(
                        anonymous_entries(config.default_description@),
                    ),
                },
            }
        },
{
    match validate_invoice_amount(
        params.amount,
        config.bounds.min_sendable_msat,
        config.bounds.max_sendable_msat,
    ) {
        Ok(()) => {},
        Err(ae) => {
            return Err(LnurlError::AmountOutOfRange(ae));
        },
    }
    let description: String = match &params.nostr {
        Some(d) => {
            if config.nostr_pubkey.is_none() {
                return Err(LnurlError::ZapsNotConfigured);
            }
            let ev = match parse_zap_event(d.as_str()) {
                Some(e) => e,
                None => {
                    return Err(LnurlError::MalformedZapRequest);
                },
            };
            if !event_sig_valid(d.as_str()) {
                return Err(LnurlError::SignatureInvalid);
            }
            match verify_zap_request(&ev, params.amount) {
                Ok(()) => {},
                Err(ze) => {
                    return Err(LnurlError::InvalidZapRequest(ze));
                },
            }
            ev.json
        },
        None => match user {
            Some(u) => {
                match generate_user_metadata(
                    u,
                    user_lookup,
                    &config.default_description,
                    &config.host,
                    config.port,
                ) {
                    Some(entries) => serialize_metadata(&entries),
                    None => {
                        return Err(LnurlError::UnknownUser { user: u.clone() });
                    },
                }
            },
            None => {
                let entries = anonymous_metadata(&config.default_description);
                serialize_metadata(&entries)
            },
        },
    };
    let amount_msat: Option<u64> = if params.amount > 0 {
        Some(params.amount)
    } else {
        None
    };
    let label = fresh_label();
    Ok(InvoiceSpec { amount_msat, description, label, deschashonly: true })
}

/// The discovery handler: the callback URL, the configured bounds, the
/// metadata array for the addressed user (or the anonymous one), and the
/// zap support advertisement.
pub fn get_lnurlp_config(
    user: Option<&String>,
    user_lookup: Option<&UserMetadata>,
    config: &ServerConfig,
) -> (r: Result<LnurlpConfig, LnurlError>)
    ensures
        match user {
            Some(u) => user_lookup is None ==> match r {
                Err(LnurlError::UnknownUser { user: uu }) => uu@ == u@,
                _ => false,
            },
            None => true,
        },
        r matches Err(e) ==> (e matches LnurlError::UnknownUser { .. } || e
            == LnurlError::CallbackUrl),
        match user {
            Some(u) => user_lookup is Some ==> match url_join_spec(
                config.base_url@,
                "invoice/"@,
            ) {
                Some(b1) => match url_join_spec(b1, u@) {
                    Some(_) => r is Ok,
                    None => r == Err::<LnurlpConfig, LnurlError>(LnurlError::CallbackUrl),
                },
                None => r == Err::<LnurlpConfig, LnurlError>(LnurlError::CallbackUrl),
            },
            None => match url_join_spec(config.base_url@, "invoice"@) {
                Some(_) => r is Ok,
                None => r == Err::<LnurlpConfig, LnurlError>(LnurlError::CallbackUrl),
            },
        },
        r matches Ok(c) ==> {
            &&& c.max_sendable == config.bounds.max_sendable_msat
            &&& c.min_sendable == config.bounds.min_sendable_msat
            &&& c.tag@ == "payRequest"@
            &&& c.comment_allowed is None
            &&& c.allows_nostr == (config.nostr_pubkey is Some)
            &&& match (c.nostr_pubkey, config.nostr_pubkey) {
                (Some(a), Some(b)) => a@ == b@,
                (None, None) => true,
                _ => false,
            }
            &&& match user {
                Some(u) => {
                    &&& match user_lookup {
                        Some(m) => c.metadata@ == json_of_metadata(
                            metadata_entries(
                                u@,
                                *m,
                                config.default_description@,
                                config.host@,
                                config.port,
                            ),
                        ),
                        None => false,
                    }
                    &&& match url_join_spec(config.base_url@, "invoice/"@) {
                        Some(b1) => url_join_spec(b1, u@) == Some(c.callback@),
                        None => false,
                    }
                },
                None => {
                    &&& c.metadata@ == json_of_metadata(
                        anonymous_entries(config.default_description@),
                    )
                    &&& url_join_spec(config.base_url@, "invoice"@) == Some(c.callback@)
                },
            }
        },
{
    let nostr_pubkey: Option<String> = match &config.nostr_pubkey {
        Some(s) => Some(s.clone()),
        None => None,
    };
    let allows_nostr = nostr_pubkey.is_some();
    match user {
        Some(u) => {
            let entries = match generate_user_metadata(
                u,
                user_lookup,
                &config.default_description,
                &config.host,
                config.port,
            ) {
                Some(e) => e,
                None => {
                    return Err(LnurlError::UnknownUser { user: u.clone() });
                },
            };
            let metadata = serialize_metadata(&entries);
            let b1 = match url_join(config.base_url.as_str(), "invoice/") {
                Some(s) => s,
                None => {
                    return Err(LnurlError::CallbackUrl);
                },
            };
            let callback = match url_join(b1.as_str(), u.as_str()) {
                Some(s) => s,
                None => {
                    return Err(LnurlError::CallbackUrl);
                },
            };
            Ok(
                LnurlpConfig {
                    callback,
                    max_sendable: config.bounds.max_sendable_msat,
                    min_sendable: config.bounds.min_sendable_msat,
                    metadata,
                    tag: "payRequest".to_owned(),
                    comment_allowed: None,
                    allows_nostr,
                    nostr_pubkey,
                },
            )
        },
        None => {
            let entries = anonymous_metadata(&config.default_description);
            let metadata = serialize_metadata(&entries);
            let callback = match url_join(config.base_url.as_str(), "invoice") {
                Some(s) => s,
                None => {
                    return Err(LnurlError::CallbackUrl);
                },
            };
            Ok(
                LnurlpConfig {
                    callback,
                    max_sendable: config.bounds.max_sendable_msat,
                    min_sendable: config.bounds.min_sendable_msat,
                    metadata,
                    tag: "payRequest".to_owned(),
                    comment_allowed: None,
                    allows_nostr,
                    nostr_pubkey,
                },
            )
        },
    }
}

} // verus!
