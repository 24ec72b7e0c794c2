//! The payment watcher and receipt dispatcher: the per-settlement decision
//! of the long-running loop, and the durable resume cursor it persists
//! before acting on a notification.

use vstd::prelude::*;
use crate::text::{dec_str, json_parse_u64, u64_to_string, parse_json_u64, lemma_dec_str_roundtrip};
use crate::zap::{ZapEvent, tag_named, parsed_zap, parse_zap_event};

verus! {

/// A settlement notification from the node, reduced to plain values: the
/// strictly increasing settlement index, the invoice, its description, the
/// payment preimage, and the settlement time.
#[derive(Clone, Debug)]
pub struct PaymentNotification {
    pub pay_index: Option<u64>,
    pub bolt11: Option<String>,
    pub description: Option<String>,
    pub payment_preimage: Option<String>,
    pub paid_at: Option<u64>,
}

/// Everything the dispatcher needs to publish one zap receipt: the settled
/// invoice, the preimage if the node reported one, the originating zap
/// request in canonical JSON, the relays named in it, and the settlement
/// time to stamp the receipt with.
#[derive(Clone, Debug)]
pub struct ReceiptSpec {
    pub bolt11: String,
    pub preimage: Option<String>,
    pub zap_request_json: String,
    pub relays: Vec<String>,
    pub created_at: Option<u64>,
}

/// What one watcher iteration decides: skip (with the reason the log gets)
/// or publish a receipt.
#[derive(Clone, Debug)]
pub enum WatcherAction {
    NotAZap,
    MissingBolt11,
    MissingRelays,
    Publish(ReceiptSpec),
}

/// The index of the first tag with the given name at or after `from`, or
/// the tag count when there is none.
pub open spec fn find_named(tags: Seq<Seq<Seq<char>>>, name: Seq<char>, from: int) -> int
    decreases tags.len() - from,
{
    if from < 0 || from >= tags.len() {
        tags.len() as int
    } else if tag_named(tags[from], name) {
        from
    } else {
        find_named(tags, name, from + 1)
    }
}

/// The relay URLs of an event: everything after the name in its first
/// `relays` tag, or nothing when no tag carries that name.
pub fn relay_list(event: &ZapEvent) -> (r: Option<Vec<String>>)
    ensures
        ({
            let ix = find_named(event@.tags, "relays"@, 0);
            match r {
                Some(v) => ix < event@.tags.len() && v.deep_view() == event@.tags[ix].skip(1),
                None => ix == event@.tags.len(),
            }
        }),
{
    let ghost tv = event@.tags;
    let relays_name: String = "relays".to_owned();
    let n = event.tags.len();
    let mut j: usize = 0;
    while j < n
        invariant
            0 <= j <= n,
            n == event.tags.len(),
            tv == event@.tags,
            relays_name@ == "relays"@,
            find_named(tv, "relays"@, 0) == find_named(tv, "relays"@, j as int),
        decreases n - j,
    {
        let tag = &event.tags[j];
        proof {
            assert(tv[j as int] == event.tags[j as int].deep_view());
            assert(forall|k: int| 0 <= k < tag@.len() ==> #[trigger] tag.deep_view()[k]
                == tag@[k]@);
        }
        if tag.len() > 0 && tag[0].eq(&relays_name) {
            proof {
                assert(tag_named(tv[j as int], "relays"@));
                assert(find_named(tv, "relays"@, j as int) == j);
            }
            let mut relays: Vec<String> = Vec::new();
            let mut k: usize = 1;
            while k < tag.len()
                invariant
                    1 <= k <= tag.len(),
                    tv == event@.tags,
                    j < tv.len(),
                    tv[j as int] == tag.deep_view(),
                    tag.deep_view().len() == tag@.len(),
                    relays.deep_view() =~= tag.deep_view().subrange(1, k as int),
                decreases tag.len() - k,
            {
                let ghost pre = relays.deep_view();
                relays.push(tag[k].clone());
                proof {
                    assert(tag.deep_view()[k as int] == tag@[k as int]@);
                    assert(relays@.last() == tag@[k as int]);
                    assert(relays.deep_view() =~= pre.push(tag@[k as int]@));
                    assert(relays.deep_view() =~= tag.deep_view().subrange(1, k + 1));
                }
                k = k + 1;
            }
            proof {
                assert(relays.deep_view() =~= tv[j as int].skip(1));
            }
            return Some(relays);
        }
        proof {
            assert(!tag_named(tv[j as int], "relays"@));
        }
        j = j + 1;
    }
    proof {
        assert(find_named(tv, "relays"@, n as int) == tv.len());
    }
    None
}

/// One iteration of the watcher: advances the resume cursor to the
/// notification's settlement index (or one past the old cursor when the
/// node omitted it), and decides what the iteration does: settlements
/// whose description is no zap request are skipped silently, one without
/// an invoice string or without relays is skipped with a warning, and the
/// rest yield a receipt to sign and publish.
pub fn zap_receipt_step(lastpay_index: u64, notification: &PaymentNotification) -> (r: (
    u64,
    WatcherAction,
))
    requires
        lastpay_index < u64::MAX,
    ensures
        r.0 as int == match notification.pay_index {
            Some(i) => i as int,
            None => lastpay_index + 1,
        },
        match notification.description {
            None => r.1 == WatcherAction::NotAZap,
            Some(d) => match parsed_zap(d@) {
                None => r.1 == WatcherAction::NotAZap,
                Some(ev) => match notification.bolt11 {
                    None => r.1 == WatcherAction::MissingBolt11,
                    Some(b) => {
                        let ix = find_named(ev.tags, "relays"@, 0);
                        if ix == ev.tags.len() {
                            r.1 == WatcherAction::MissingRelays
                        } else {
                            match r.1 {
                                WatcherAction::Publish(receipt) => {
                                    &&& receipt.bolt11@ == b@
                                    &&& receipt.preimage == notification.payment_preimage
                                    &&& receipt.zap_request_json@ == ev.json
                                    &&& receipt.relays.deep_view() == ev.tags[ix].skip(1)
                                    &&& receipt.created_at == notification.paid_at
                                },
                                _ => false,
                            }
                        }
                    },
                },
            },
        },
{
    let next_index: u64 = match notification.pay_index {
        Some(i) => i,
        None => lastpay_index + 1,
    };
    let d = match &notification.description {
        Some(d) => d,
        None => {
            return (next_index, WatcherAction::NotAZap);
        },
    };
    let ev = match parse_zap_event(d.as_str()) {
        Some(e) => e,
        None => {
            return (next_index, WatcherAction::NotAZap);
        },
    };
    let bolt11 = match &notification.bolt11 {
        Some(b) => b.clone(),
        None => {
            return (next_index, WatcherAction::MissingBolt11);
        },
    };
    let relays = match relay_list(&ev) {
        Some(v) => v,
        None => {
            return (next_index, WatcherAction::MissingRelays);
        },
    };
    let preimage: Option<String> = match &notification.payment_preimage {
        Some(p) => Some(p.clone()),
        None => None,
    };
    let receipt = ReceiptSpec {
        bolt11,
        preimage,
        zap_request_json: ev.json,
        relays,
        created_at: notification.paid_at,
    };
    (next_index, WatcherAction::Publish(receipt))
}

/// Renders the resume cursor for durable storage, as a bare JSON number.
pub fn format_payindex(payindex: u64) -> (r: String)
    ensures
        r@ == dec_str(payindex as int),
{
    u64_to_string(payindex)
}

/// Reads a stored resume cursor back.
pub fn parse_payindex(s: &str) -> (r: Option<u64>)
    ensures
        r == json_parse_u64(s@),
{
    parse_json_u64(s)
}

/// The resume cursor survives a round trip through durable storage: what
/// [`format_payindex`] writes, [`parse_payindex`] reads back unchanged, so
/// a restart resumes exactly at the persisted settlement index.
pub proof fn lemma_payindex_roundtrip(payindex: u64)
    ensures
        json_parse_u64(dec_str(payindex as int)) == Some(payindex),
{
    lemma_dec_str_roundtrip(payindex);
}

} // verus!
