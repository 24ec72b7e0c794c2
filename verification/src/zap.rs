//! The zap-request verifier: a structural and semantic check of an inbound
//! signed Nostr event against the zap-request protocol rules.

use vstd::prelude::*;
use crate::text::{
    std_parse_u64, std_parse_u16, is_hex64, hex_lower, parse_u64, parse_u16, normalize_pubkey_hex,
};

verus! {

/// The event kind number reserved for zap requests.
pub const ZAP_REQUEST_KIND: u16 = 9734;

/// A signed event as this library reads it: the kind number, the author's
/// public key in canonical lowercase hex, the ordered tag list, and the
/// canonical JSON serialization used as an invoice description.
#[derive(Clone, Debug)]
pub struct ZapEvent {
    pub kind: u16,
    pub pubkey: String,
    pub tags: Vec<Vec<String>>,
    pub json: String,
}

/// The mathematical shape of a [`ZapEvent`].
pub struct ZapEventView {
    pub kind: u16,
    pub pubkey: Seq<char>,
    pub tags: Seq<Seq<Seq<char>>>,
    pub json: Seq<char>,
}

impl View for ZapEvent {
    type V = ZapEventView;

    open spec fn view(&self) -> ZapEventView {
        ZapEventView {
            kind: self.kind,
            pubkey: self.pubkey@,
            tags: self.tags.deep_view(),
            json: self.json@,
        }
    }
}

/// What the Nostr library decodes a JSON text to, if anything: a function
/// of the text alone.
pub uninterp spec fn parsed_zap(s: Seq<char>) -> Option<ZapEventView>;

/// Whether the event in a JSON text carries a correct id and signature:
/// a fixed verdict for a fixed text.
pub uninterp spec fn sig_valid_json(s: Seq<char>) -> bool;

/// Relies on the Nostr library's `Event::from_json` and `Event::try_as_json`:
/// decodes a signed event from JSON, a function of the input text alone. The
/// fields come out as plain values: the kind as its number, the author key as
/// the lowercase hex that `PublicKey::to_hex` prints, each tag as its list of
/// strings, and the canonical serialization.
#[verifier::external_body]
pub(crate) fn parse_zap_event(json: &str) -> (r: Option<ZapEvent>)
    ensures
        match r {
            Some(e) => parsed_zap(json@) == Some(e@),
            None => parsed_zap(json@) is None,
        },
{
    let ev = nostr_sdk::prelude::Event::from_json(json).ok()?;
    let canonical = ev.try_as_json().ok()?;
    Some(
        ZapEvent {
            kind: ev.kind.as_u16(),
            pubkey: ev.pubkey.to_hex(),
            tags: ev.tags.iter().map(|t| t.as_slice().to_vec()).collect(),
            json: canonical,
        },
    )
}

/// Relies on the Nostr library's `Event::verify`: checks the event id and
/// the Schnorr signature of the event encoded in the text; the verdict is
/// a function of the text alone. An undecodable text has no valid signature.
#[verifier::external_body]
pub(crate) fn event_sig_valid(json: &str) -> (r: bool)
    ensures
        r == sig_valid_json(json@),
{
    match nostr_sdk::prelude::Event::from_json(json) {
        Ok(e) => e.verify().is_ok(),
        Err(_) => false,
    }
}

/// Whether a tag's first element names it `name`.
pub open spec fn tag_named(t: Seq<Seq<char>>, name: Seq<char>) -> bool {
    t.len() > 0 && t[0] == name
}

/// How many tags of the list carry the given name.
pub open spec fn count_named(tags: Seq<Seq<Seq<char>>>, name: Seq<char>) -> int
    decreases tags.len(),
{
    if tags.len() == 0 {
        0
    } else {
        count_named(tags.drop_last(), name) + if tag_named(tags.last(), name) {
            1int
        } else {
            0int
        }
    }
}

/// Counting over a longer prefix only grows the count.
pub proof fn lemma_count_named_mono(tags: Seq<Seq<Seq<char>>>, name: Seq<char>, j: int)
    requires
        0 <= j <= tags.len(),
    ensures
        count_named(tags.take(j), name) <= count_named(tags, name),
    decreases tags.len() - j,
{
    if j == tags.len() {
        assert(tags.take(j) =~= tags);
    } else {
        let t = tags.take(j + 1);
        assert(t.drop_last() =~= tags.take(j));
        assert(t.last() == tags[j]);
        lemma_count_named_mono(tags, name, j + 1);
    }
}

/// One step of counting: extending the counted prefix by one tag adds one
/// exactly when that tag carries the name.
pub proof fn lemma_count_named_step(tags: Seq<Seq<Seq<char>>>, name: Seq<char>, i: int)
    requires
        0 <= i < tags.len(),
    ensures
        count_named(tags.take(i + 1), name) == count_named(tags.take(i), name) + if tag_named(
            tags[i],
            name,
        ) {
            1int
        } else {
            0int
        },
{
    let t = tags.take(i + 1);
    assert(t.drop_last() =~= tags.take(i));
    assert(t.last() == tags[i]);
    assert(count_named(t, name) == count_named(t.drop_last(), name) + if tag_named(
        t.last(),
        name,
    ) {
        1int
    } else {
        0int
    });
}

/// Every `amount` tag must carry a value that reads back as exactly the
/// requested amount.
pub open spec fn amount_tags_ok(tags: Seq<Seq<Seq<char>>>, amount: u64) -> bool {
    forall|i: int|
        0 <= i < tags.len() && tag_named(#[trigger] tags[i], "amount"@) ==> tags[i].len() >= 2
            && std_parse_u64(tags[i][1]) == Some(amount)
}

/// Every uppercase `P` tag must carry a hex public key equal, up to hex
/// case, to the event's own public key.
pub open spec fn big_p_tags_ok(tags: Seq<Seq<Seq<char>>>, pubkey: Seq<char>) -> bool {
    forall|i: int|
        0 <= i < tags.len() && tag_named(#[trigger] tags[i], "P"@) ==> tags[i].len() >= 2
            && is_hex64(tags[i][1]) && hex_lower(tags[i][1]) == pubkey
}

/// The index of the first colon in `s` at or after `from`, or the length
/// of `s` when there is none.
pub open spec fn find_colon_at(s: Seq<char>, from: int) -> int
    decreases s.len() - from,
{
    if from < 0 || from >= s.len() {
        s.len() as int
    } else if s[from] == ':' {
        from
    } else {
        find_colon_at(s, from + 1)
    }
}

/// A parameterized-replaceable-event coordinate `kind:pubkey[:identifier]`:
/// two or three colon-separated parts, the first a valid decimal kind
/// number, the second a hex public key.
pub open spec fn valid_a_coord(v: Seq<char>) -> bool {
    let i1 = find_colon_at(v, 0);
    let i2 = find_colon_at(v, i1 + 1);
    let i3 = find_colon_at(v, i2 + 1);
    &&& i1 < v.len()
    &&& (i2 == v.len() || i3 == v.len())
    &&& std_parse_u16(v.take(i1)) is Some
    &&& is_hex64(v.subrange(i1 + 1, i2))
}

/// Every `a` tag must carry a valid coordinate value.
pub open spec fn a_tags_ok(tags: Seq<Seq<Seq<char>>>) -> bool {
    forall|i: int|
        0 <= i < tags.len() && tag_named(#[trigger] tags[i], "a"@) ==> tags[i].len() >= 2
            && valid_a_coord(tags[i][1])
}

/// Some `relays` tag with at least one relay URL after the name.
pub open spec fn relays_ok(tags: Seq<Seq<Seq<char>>>) -> bool {
    exists|i: int|
        0 <= i < tags.len() && tag_named(#[trigger] tags[i], "relays"@) && tags[i].len() >= 2
}

/// One step of the relays search: the extended prefix has a usable
/// `relays` tag exactly when the shorter one has, or the new tag is one.
pub proof fn lemma_relays_step(tags: Seq<Seq<Seq<char>>>, i: int)
    requires
        0 <= i < tags.len(),
    ensures
        relays_ok(tags.take(i + 1)) <==> (relays_ok(tags.take(i)) || (tag_named(
            tags[i],
            "relays"@,
        ) && tags[i].len() >= 2)),
{
    assert(forall|k: int| 0 <= k < i ==> #[trigger] tags.take(i + 1)[k] == tags.take(i)[k]);
    assert(tags.take(i + 1)[i] == tags[i]);
    if relays_ok(tags.take(i)) {
        let w = choose|k: int|
            0 <= k < tags.take(i).len() && tag_named(#[trigger] tags.take(i)[k], "relays"@)
                && tags.take(i)[k].len() >= 2;
        assert(tag_named(tags.take(i + 1)[w], "relays"@) && tags.take(i + 1)[w].len() >= 2);
        assert(relays_ok(tags.take(i + 1)));
    }
    if tag_named(tags[i], "relays"@) && tags[i].len() >= 2 {
        assert(tag_named(tags.take(i + 1)[i], "relays"@) && tags.take(i + 1)[i].len() >= 2);
        assert(relays_ok(tags.take(i + 1)));
    }
    if relays_ok(tags.take(i + 1)) {
        let w = choose|k: int|
            0 <= k < tags.take(i + 1).len() && tag_named(
                #[trigger] tags.take(i + 1)[k],
                "relays"@,
            ) && tags.take(i + 1)[k].len() >= 2;
        if w < i {
            assert(tag_named(tags.take(i)[w], "relays"@) && tags.take(i)[w].len() >= 2);
            assert(relays_ok(tags.take(i)));
        } else {
            assert(w == i);
        }
    }
}

/// The whole zap-request protocol rule set, independent of tag order.
pub open spec fn zap_request_valid(ev: ZapEventView, amount: u64) -> bool {
    &&& ev.kind == ZAP_REQUEST_KIND
    &&& ev.tags.len() > 0
    &&& amount_tags_ok(ev.tags, amount)
    &&& count_named(ev.tags, "e"@) <= 1
    &&& count_named(ev.tags, "p"@) == 1
    &&& count_named(ev.tags, "P"@) <= 1
    &&& big_p_tags_ok(ev.tags, ev.pubkey)
    &&& a_tags_ok(ev.tags)
    &&& relays_ok(ev.tags)
}

/// A tag found in one list is found in any rearrangement of it.
proof fn lemma_member_transfer(t1: Seq<Seq<Seq<char>>>, t2: Seq<Seq<Seq<char>>>, x: Seq<Seq<char>>)
    requires
        t1.to_multiset() == t2.to_multiset(),
        t2.contains(x),
    ensures
        t1.contains(x),
{
    broadcast use vstd::seq_lib::group_to_multiset_ensures;

    assert(t2.to_multiset().count(x) > 0);
}

/// Removing one tag removes exactly its own contribution to a name's count.
proof fn lemma_count_named_remove(tags: Seq<Seq<Seq<char>>>, name: Seq<char>, j: int)
    requires
        0 <= j < tags.len(),
    ensures
        count_named(tags.remove(j), name) == count_named(tags, name) - (if tag_named(
            tags[j],
            name,
        ) {
            1int
        } else {
            0int
        }),
    decreases tags.len(),
{
    if j == tags.len() - 1 {
        assert(tags.remove(j) =~= tags.drop_last());
    } else {
        let t = tags.remove(j);
        assert(t.drop_last() =~= tags.drop_last().remove(j));
        assert(t.last() == tags.last());
        lemma_count_named_remove(tags.drop_last(), name, j);
        assert(tags.drop_last()[j] == tags[j]);
    }
}

/// A name's count depends only on which tags are present, not their order.
proof fn lemma_count_named_multiset(
    t1: Seq<Seq<Seq<char>>>,
    t2: Seq<Seq<Seq<char>>>,
    name: Seq<char>,
)
    requires
        t1.to_multiset() == t2.to_multiset(),
    ensures
        count_named(t1, name) == count_named(t2, name),
    decreases t1.len(),
{
    broadcast use vstd::seq_lib::group_to_multiset_ensures;
    broadcast use vstd::multiset::group_multiset_axioms;

    if t1.len() == 0 {
        assert(t1.to_multiset().len() == 0);
        assert(t2.len() == 0);
    } else {
        let x = t1.last();
        assert(t1 =~= t1.drop_last().push(x));
        assert(t1.drop_last().push(x).to_multiset() =~= t1.drop_last().to_multiset().insert(x));
        assert(t1.to_multiset().count(x) > 0);
        assert(t2.contains(x));
        let j = choose|j: int| 0 <= j < t2.len() && t2[j] == x;
        assert(t2.remove(j).to_multiset() =~= t2.to_multiset().remove(x));
        assert(t1.drop_last().to_multiset() =~= t2.remove(j).to_multiset());
        lemma_count_named_multiset(t1.drop_last(), t2.remove(j), name);
        lemma_count_named_remove(t2, name, j);
        assert(count_named(t1, name) == count_named(t1.drop_last(), name) + if tag_named(
            x,
            name,
        ) {
            1int
        } else {
            0int
        });
    }
}

/// What each error verdict certifies about the event: the rule that the
/// event breaks.
pub open spec fn zap_error_sound(e: ZapError, ev: ZapEventView, amount: u64) -> bool {
    match e {
        ZapError::WrongKind => ev.kind != ZAP_REQUEST_KIND,
        ZapError::NoTags => ev.kind == ZAP_REQUEST_KIND && ev.tags.len() == 0,
        ZapError::AmountMismatch => !amount_tags_ok(ev.tags, amount),
        ZapError::TooManyE => count_named(ev.tags, "e"@) >= 2,
        ZapError::MissingP => count_named(ev.tags, "p"@) == 0,
        ZapError::TooManyP => count_named(ev.tags, "p"@) >= 2,
        ZapError::TooManyPUpper => count_named(ev.tags, "P"@) >= 2,
        ZapError::PMismatch => !big_p_tags_ok(ev.tags, ev.pubkey),
        ZapError::InvalidACoord => !a_tags_ok(ev.tags),
        ZapError::MissingRelays => !relays_ok(ev.tags),
    }
}

proof fn lemma_amount_ok_transfer(t1: Seq<Seq<Seq<char>>>, t2: Seq<Seq<Seq<char>>>, amount: u64)
    requires
        t1.to_multiset() == t2.to_multiset(),
        amount_tags_ok(t1, amount),
    ensures
        amount_tags_ok(t2, amount),
{
    assert forall|i: int|
        0 <= i < t2.len() && tag_named(#[trigger] t2[i], "amount"@) implies t2[i].len() >= 2
        && std_parse_u64(t2[i][1]) == Some(amount) by {
        lemma_member_transfer(t1, t2, t2[i]);
        let k = choose|k: int| 0 <= k < t1.len() && t1[k] == t2[i];
        assert(tag_named(t1[k], "amount"@));
    }
}

proof fn lemma_big_p_ok_transfer(
    t1: Seq<Seq<Seq<char>>>,
    t2: Seq<Seq<Seq<char>>>,
    pubkey: Seq<char>,
)
    requires
        t1.to_multiset() == t2.to_multiset(),
        big_p_tags_ok(t1, pubkey),
    ensures
        big_p_tags_ok(t2, pubkey),
{
    assert forall|i: int|
        0 <= i < t2.len() && tag_named(#[trigger] t2[i], "P"@) implies t2[i].len() >= 2
        && is_hex64(t2[i][1]) && hex_lower(t2[i][1]) == pubkey by {
        lemma_member_transfer(t1, t2, t2[i]);
        let k = choose|k: int| 0 <= k < t1.len() && t1[k] == t2[i];
        assert(tag_named(t1[k], "P"@));
    }
}

proof fn lemma_a_ok_transfer(t1: Seq<Seq<Seq<char>>>, t2: Seq<Seq<Seq<char>>>)
    requires
        t1.to_multiset() == t2.to_multiset(),
        a_tags_ok(t1),
    ensures
        a_tags_ok(t2),
{
    assert forall|i: int|
        0 <= i < t2.len() && tag_named(#[trigger] t2[i], "a"@) implies t2[i].len() >= 2
        && valid_a_coord(t2[i][1]) by {
        lemma_member_transfer(t1, t2, t2[i]);
        let k = choose|k: int| 0 <= k < t1.len() && t1[k] == t2[i];
        assert(tag_named(t1[k], "a"@));
    }
}

proof fn lemma_relays_ok_transfer(t1: Seq<Seq<Seq<char>>>, t2: Seq<Seq<Seq<char>>>)
    requires
        t1.to_multiset() == t2.to_multiset(),
        relays_ok(t1),
    ensures
        relays_ok(t2),
{
    let w = choose|w: int|
        0 <= w < t1.len() && tag_named(#[trigger] t1[w], "relays"@) && t1[w].len() >= 2;
    lemma_member_transfer(t2, t1, t1[w]);
    let k = choose|k: int| 0 <= k < t2.len() && t2[k] == t1[w];
    assert(tag_named(t2[k], "relays"@) && t2[k].len() >= 2);
}

/// The verifier's verdict does not depend on tag order: two events that
/// agree on kind and author and carry the same tags, in whatever
/// arrangement, are either both valid or both invalid.
pub proof fn lemma_verdict_order_independent(ev1: ZapEventView, ev2: ZapEventView, amount: u64)
    requires
        ev1.kind == ev2.kind,
        ev1.pubkey == ev2.pubkey,
        ev1.tags.to_multiset() == ev2.tags.to_multiset(),
    ensures
        zap_request_valid(ev1, amount) == zap_request_valid(ev2, amount),
{
    broadcast use vstd::seq_lib::group_to_multiset_ensures;

    let t1 = ev1.tags;
    let t2 = ev2.tags;
    assert(t1.len() == t1.to_multiset().len());
    assert(t2.len() == t2.to_multiset().len());
    lemma_count_named_multiset(t1, t2, "e"@);
    lemma_count_named_multiset(t1, t2, "p"@);
    lemma_count_named_multiset(t1, t2, "P"@);
    if amount_tags_ok(t1, amount) {
        lemma_amount_ok_transfer(t1, t2, amount);
    }
    if amount_tags_ok(t2, amount) {
        lemma_amount_ok_transfer(t2, t1, amount);
    }
    if big_p_tags_ok(t1, ev1.pubkey) {
        lemma_big_p_ok_transfer(t1, t2, ev1.pubkey);
    }
    if big_p_tags_ok(t2, ev2.pubkey) {
        lemma_big_p_ok_transfer(t2, t1, ev2.pubkey);
    }
    if a_tags_ok(t1) {
        lemma_a_ok_transfer(t1, t2);
    }
    if a_tags_ok(t2) {
        lemma_a_ok_transfer(t2, t1);
    }
    if relays_ok(t1) {
        lemma_relays_ok_transfer(t1, t2);
    }
    if relays_ok(t2) {
        lemma_relays_ok_transfer(t2, t1);
    }
}

/// Why a zap request was refused.
#[derive(Clone, Copy, Debug, PartialEq, Eq, Structural)]
pub enum ZapError {
    WrongKind,
    NoTags,
    AmountMismatch,
    TooManyE,
    MissingP,
    TooManyP,
    TooManyPUpper,
    PMismatch,
    InvalidACoord,
    MissingRelays,
}

impl ZapError {
    /// The reason string for the caller.
    pub open spec fn reason_spec(self) -> Seq<char> {
        match self {
            ZapError::WrongKind => "Zap request has wrong kind"@,
            ZapError::NoTags => "Zap request MUST have tags"@,
            ZapError::AmountMismatch => "Zap request amount does not match query amount"@,
            ZapError::TooManyE => "Zap request MUST have 0 or 1 e tags"@,
            ZapError::MissingP => "Zap request MUST have only one p tag"@,
            ZapError::TooManyP => "Zap request MUST have only one p tag"@,
            ZapError::TooManyPUpper => "Zap request has too many `P` tags"@,
            ZapError::PMismatch => "`P` tag must be equal to pubkey"@,
            ZapError::InvalidACoord => "Invalid `a` tag"@,
            ZapError::MissingRelays => "There should be a `relays` tag in the Zap request!"@,
        }
    }

    /// Renders the reason for the rejection.
    pub fn reason(&self) -> (r: String)
        ensures
            r@ == self.reason_spec(),
    {
        match self {
            ZapError::WrongKind => "Zap request has wrong kind".to_owned(),
            ZapError::NoTags => "Zap request MUST have tags".to_owned(),
            ZapError::AmountMismatch => "Zap request amount does not match query amount".to_owned(),
            ZapError::TooManyE => "Zap request MUST have 0 or 1 e tags".to_owned(),
            ZapError::MissingP => "Zap request MUST have only one p tag".to_owned(),
            ZapError::TooManyP => "Zap request MUST have only one p tag".to_owned(),
            ZapError::TooManyPUpper => "Zap request has too many `P` tags".to_owned(),
            ZapError::PMismatch => "`P` tag must be equal to pubkey".to_owned(),
            ZapError::InvalidACoord => "Invalid `a` tag".to_owned(),
            ZapError::MissingRelays => "There should be a `relays` tag in the Zap request!".to_owned(),
        }
    }
}

fn find_colon(v: &str, from: usize) -> (r: usize)
    requires
        from <= v@.len(),
    ensures
        r == find_colon_at(v@, from as int),
        from <= r <= v@.len(),
        r < v@.len() ==> v@[r as int] == ':',
{
    let len = v.unicode_len();
    let mut j: usize = from;
    while j < len
        invariant
            from <= j <= len,
            len == v@.len(),
            find_colon_at(v@, from as int) == find_colon_at(v@, j as int),
        decreases len - j,
    {
        if v.get_char(j) == ':' {
            return j;
        }
        j = j + 1;
    }
    len
}

/// Checks an `a` tag value for the `kind:pubkey[:identifier]` shape.
fn check_a_coord(v: &str) -> (r: bool)
    ensures
        r == valid_a_coord(v@),
{
    let len = v.unicode_len();
    let i1 = find_colon(v, 0);
    if i1 == len {
        return false;
    }
    let i2 = find_colon(v, i1 + 1);
    if i2 < len {
        let i3 = find_colon(v, i2 + 1);
        if i3 != len {
            return false;
        }
    }
    let kind_part = v.substring_char(0, i1);
    let pk_part = v.substring_char(i1 + 1, i2);
    proof {
        assert(kind_part@ == v@.take(i1 as int));
        assert(pk_part@ == v@.subrange(i1 + 1, i2 as int));
    }
    if parse_u16(kind_part).is_none() {
        return false;
    }
    normalize_pubkey_hex(pk_part).is_some()
}

/// Checks a decoded, signature-verified event against the zap-request rules
/// for the requested amount. The verdict does not depend on tag order: the
/// check passes exactly when every rule holds, and each error names a rule
/// that the event breaks.
pub fn verify_zap_request(event: &ZapEvent, amount: u64) -> (r: Result<(), ZapError>)
    ensures
        r is Ok <==> zap_request_valid(event@, amount),
        r matches Err(e) ==> zap_error_sound(e, event@, amount),
{
    let ghost tv = event@.tags;
    if event.kind != ZAP_REQUEST_KIND {
        return Err(ZapError::WrongKind);
    }
    if event.tags.len() == 0 {
        return Err(ZapError::NoTags);
    }
    let amount_name: String = "amount".to_owned();
    let relays_name: String = "relays".to_owned();
    let e_name: String = "e".to_owned();
    let p_name: String = "p".to_owned();
    let big_p_name: String = "P".to_owned();
    let a_name: String = "a".to_owned();
    let mut e_count: u64 = 0;
    let mut p_count: u64 = 0;
    let mut big_p_count: u64 = 0;
    let mut relays_found: bool = false;
    let n = event.tags.len();
    let mut i: usize = 0;
    while i < n
        invariant
            0 <= i <= n,
            n == event.tags.len(),
            tv == event@.tags,
            tv.len() == n,
            amount_name@ == "amount"@,
            relays_name@ == "relays"@,
            e_name@ == "e"@,
            p_name@ == "p"@,
            big_p_name@ == "P"@,
            a_name@ == "a"@,
            e_count == count_named(tv.take(i as int), "e"@),
            p_count == count_named(tv.take(i as int), "p"@),
            big_p_count == count_named(tv.take(i as int), "P"@),
            e_count <= 1 && p_count <= 1 && big_p_count <= 1,
            relays_found == relays_ok(tv.take(i as int)),
            amount_tags_ok(tv.take(i as int), amount),
            big_p_tags_ok(tv.take(i as int), event@.pubkey),
            a_tags_ok(tv.take(i as int)),
        decreases n - i,
    {
        let tag = &event.tags[i];
        proof {
            reveal_strlit("amount");
            reveal_strlit("relays");
            reveal_strlit("e");
            reveal_strlit("p");
            reveal_strlit("P");
            reveal_strlit("a");
            assert(tv[i as int] == event.tags[i as int].deep_view());
            assert(tv.take(i + 1).drop_last() =~= tv.take(i as int));
            assert(tv.take(i + 1).last() == tv[i as int]);
            assert(forall|k: int| 0 <= k < tag@.len() ==> #[trigger] tag.deep_view()[k]
                == tag@[k]@);
        }
        if tag.len() > 0 {
            let name = &tag[0];
            if name.eq(&amount_name) {
                if tag.len() < 2 {
                    proof {
                        assert(tag_named(tv[i as int], "amount"@));
                    }
                    return Err(ZapError::AmountMismatch);
                }
                match parse_u64(tag[1].as_str()) {
                    Some(v) => {
                        if v != amount {
                            proof {
                                assert(tag_named(tv[i as int], "amount"@));
                            }
                            return Err(ZapError::AmountMismatch);
                        }
                    },
                    None => {
                        proof {
                            assert(tag_named(tv[i as int], "amount"@));
                        }
                        return Err(ZapError::AmountMismatch);
                    },
                }
            } else if name.eq(&relays_name) {
                if tag.len() >= 2 {
                    relays_found = true;
                    proof {
                        assert(tag_named(tv[i as int], "relays"@) && tv[i as int].len() >= 2);
                    }
                }
            } else if name.eq(&e_name) {
                if e_count == 1 {
                    proof {
                        lemma_count_named_mono(tv, "e"@, i + 1);
                    }
                    return Err(ZapError::TooManyE);
                }
                e_count = 1;
            } else if name.eq(&p_name) {
                if p_count == 1 {
                    proof {
                        lemma_count_named_mono(tv, "p"@, i + 1);
                    }
                    return Err(ZapError::TooManyP);
                }
                p_count = 1;
            } else if name.eq(&big_p_name) {
                if big_p_count == 1 {
                    proof {
                        lemma_count_named_mono(tv, "P"@, i + 1);
                    }
                    return Err(ZapError::TooManyPUpper);
                }
                big_p_count = 1;
                if tag.len() < 2 {
                    proof {
                        assert(tag_named(tv[i as int], "P"@));
                    }
                    return Err(ZapError::PMismatch);
                }
                match normalize_pubkey_hex(tag[1].as_str()) {
                    Some(h) => {
                        if !h.eq(&event.pubkey) {
                            proof {
                                assert(tag_named(tv[i as int], "P"@));
                            }
                            return Err(ZapError::PMismatch);
                        }
                    },
                    None => {
                        proof {
                            assert(tag_named(tv[i as int], "P"@));
                        }
                        return Err(ZapError::PMismatch);
                    },
                }
            } else if name.eq(&a_name) {
                if tag.len() < 2 {
                    proof {
                        assert(tag_named(tv[i as int], "a"@));
                    }
                    return Err(ZapError::InvalidACoord);
                }
                if !check_a_coord(tag[1].as_str()) {
                    proof {
                        assert(tag_named(tv[i as int], "a"@));
                    }
                    return Err(ZapError::InvalidACoord);
                }
            }
        }
        proof {
            reveal_strlit("amount");
            reveal_strlit("relays");
            reveal_strlit("e");
            reveal_strlit("p");
            reveal_strlit("P");
            reveal_strlit("a");
            assert("amount"@.len() == 6 && "amount"@[0] == 'a');
            assert("relays"@.len() == 6 && "relays"@[0] == 'r');
            assert("amount"@ != "relays"@);
            assert("e"@.len() == 1 && "e"@[0] == 'e');
            assert("p"@.len() == 1 && "p"@[0] == 'p');
            assert("P"@.len() == 1 && "P"@[0] == 'P');
            assert("a"@.len() == 1 && "a"@[0] == 'a');
            assert("e"@ != "p"@ && "p"@ != "P"@ && "e"@ != "P"@ && "a"@ != "e"@ && "a"@ != "p"@
                && "a"@ != "P"@);
            lemma_count_named_step(tv, "e"@, i as int);
            lemma_count_named_step(tv, "p"@, i as int);
            lemma_count_named_step(tv, "P"@, i as int);
            assert(forall|k: int|
                0 <= k < i ==> #[trigger] tv.take(i + 1)[k] == tv.take(i as int)[k]);
            assert(tv.take(i + 1)[i as int] == tv[i as int]);
            assert(e_count == count_named(tv.take(i + 1), "e"@));
            assert(p_count == count_named(tv.take(i + 1), "p"@));
            assert(big_p_count == count_named(tv.take(i + 1), "P"@));
            lemma_relays_step(tv, i as int);
            assert(relays_found == relays_ok(tv.take(i + 1)));
            assert(amount_tags_ok(tv.take(i + 1), amount));
            assert(big_p_tags_ok(tv.take(i + 1), event@.pubkey));
            assert(a_tags_ok(tv.take(i + 1)));
        }
        i = i + 1;
    }
    proof {
        assert(tv.take(n as int) =~= tv);
    }
    if p_count == 0 {
        return Err(ZapError::MissingP);
    }
    if !relays_found {
        return Err(ZapError::MissingRelays);
    }
    Ok(())
}

} // verus!
