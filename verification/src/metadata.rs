//! The metadata builder: the LNURL metadata array for a known user or for
//! the anonymous default case.

use vstd::prelude::*;
use crate::text::{dec_str, push_decimal};

verus! {

/// Display settings of a user in the directory.
#[derive(Clone, Debug, PartialEq, Eq)]
pub struct UserMetadata {
    pub is_email: Option<bool>,
    pub description: Option<String>,
}

/// `":port"` when a port is configured, empty otherwise.
pub open spec fn port_suffix(port: Option<u16>) -> Seq<char> {
    match port {
        Some(p) => seq![':'] + dec_str(p as int),
        None => Seq::empty(),
    }
}

/// `user@host[:port]`, the internet identifier advertised for a user.
pub open spec fn internet_identifier(user: Seq<char>, host: Seq<char>, port: Option<u16>) -> Seq<
    char,
> {
    user + "@"@ + host + port_suffix(port)
}

/// The two metadata entries for a known user: the plain-text description
/// (the user's own, or the configured default), then the identifier entry,
/// marked `text/email` only when the user asked for that.
pub open spec fn metadata_entries(
    user: Seq<char>,
    meta: UserMetadata,
    default_description: Seq<char>,
    host: Seq<char>,
    port: Option<u16>,
) -> Seq<Seq<Seq<char>>> {
    let desc = match meta.description {
        Some(d) => d@,
        None => default_description,
    };
    let label = match meta.is_email {
        Some(true) => "text/email"@,
        _ => "text/identifier"@,
    };
    seq![seq!["text/plain"@, desc], seq![label, internet_identifier(user, host, port)]]
}

/// The single metadata entry for the anonymous case.
pub open spec fn anonymous_entries(default_description: Seq<char>) -> Seq<Seq<Seq<char>>> {
    seq![seq!["text/plain"@, default_description]]
}

/// Builds the metadata array for a user looked up in the directory; yields
/// nothing when the lookup found nothing.
pub fn generate_user_metadata(
    user: &String,
    user_meta: Option<&UserMetadata>,
    default_description: &String,
    host: &String,
    port: Option<u16>,
) -> (r: Option<Vec<Vec<String>>>)
    ensures
        match r {
            Some(entries) => user_meta matches Some(m) && entries.deep_view() == metadata_entries(
                user@,
                *m,
                default_description@,
                host@,
                port,
            ),
            None => user_meta is None,
        },
{
    let m = match user_meta {
        Some(m) => m,
        None => {
            return None;
        },
    };
    let desc: String = match &m.description {
        Some(d) => d.clone(),
        None => default_description.clone(),
    };
    let mut first: Vec<String> = Vec::new();
    first.push("text/plain".to_owned());
    first.push(desc);
    let mut addr = String::new();
    addr.append(user.as_str());
    addr.append("@");
    addr.append(host.as_str());
    match port {
        Some(p) => {
            proof {
                reveal_strlit(":");
            }
            addr.append(":");
            push_decimal(&mut addr, p as u64);
            proof {
                assert(addr@ =~= internet_identifier(user@, host@, port));
            }
        },
        None => {
            proof {
                assert(addr@ =~= internet_identifier(user@, host@, port));
            }
        },
    }
    let label: String = match m.is_email {
        Some(true) => "text/email".to_owned(),
        _ => "text/identifier".to_owned(),
    };
    let mut second: Vec<String> = Vec::new();
    second.push(label);
    second.push(addr);
    let mut entries: Vec<Vec<String>> = Vec::new();
    entries.push(first);
    entries.push(second);
    proof {
        assert(entries.deep_view() =~~= metadata_entries(
            user@,
            *m,
            default_description@,
            host@,
            port,
        ));
    }
    Some(entries)
}

/// Builds the metadata array for the anonymous default case.
pub fn anonymous_metadata(default_description: &String) -> (r: Vec<Vec<String>>)
    ensures
        r.deep_view() == anonymous_entries(default_description@),
{
    let mut first: Vec<String> = Vec::new();
    first.push("text/plain".to_owned());
    first.push(default_description.clone());
    let mut entries: Vec<Vec<String>> = Vec::new();
    entries.push(first);
    proof {
        assert(entries.deep_view() =~~= anonymous_entries(default_description@));
    }
    entries
}

} // verus!
