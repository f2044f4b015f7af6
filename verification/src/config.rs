//! The configuration of one update cycle, and its name normalization.

use vstd::prelude::*;

verus! {

/// One configured host name of the zone.
#[derive(Debug)]
pub struct Subdomain {
    /// The configured name; the empty name is normalized to the apex
    /// sentinel `@` before matching runs.
    pub name: String,
    /// Whether traffic for this name routes through the provider's
    /// reverse proxy.
    pub proxied: bool,
    /// The provider-side identifier of the record that represents this
    /// name. Absent until the matcher has found one, and left absent when
    /// no record matches.
    pub id: Option<String>,
}

/// Everything a run needs: credentials, the zone, the names to keep
/// pointed at the current address, and the time-to-live to write.
#[derive(Debug)]
pub struct Config {
    /// Opaque bearer credential for the provider's API.
    pub api_token: String,
    /// The provider's identifier of the zone that holds the records.
    pub zone_id: String,
    /// The names to update, in configured order.
    pub subdomains: Vec<Subdomain>,
    /// Time-to-live, in seconds, written with every update.
    pub ttl: usize,
}

/// A configured name after normalization: the empty name becomes the apex
/// sentinel `@`; every other name stays as it is.
pub open spec fn normalized_name(n: Seq<char>) -> Seq<char> {
    if n.len() == 0 {
        seq!['@']
    } else {
        n
    }
}

/// The record identifier a subdomain carries, as a sequence of characters.
pub open spec fn id_view(id: Option<String>) -> Option<Seq<char>> {
    match id {
        Some(s) => Some(s@),
        None => None,
    }
}

/// How an entry of the normalized configuration relates to the entry it
/// came from: the name is normalized, the rest is kept.
pub open spec fn normalized_subdomain(osd: Subdomain, nsd: Subdomain) -> bool {
    nsd.name@ == normalized_name(osd.name@) && nsd.proxied == osd.proxied && nsd.id == osd.id
}

/// Normalizes one configured name: `""` becomes `"@"`.
pub fn normalize_name(name: String) -> (out: String)
    ensures
        out@ == normalized_name(name@),
{
    if name.as_str().is_empty() {
        let out = String::from_str("@");
        proof {
            reveal_strlit("@");
            assert(out@ =~= seq!['@']);
        }
        out
    } else {
        name
    }
}

/// Normalizes every configured subdomain name and leaves everything else
/// — credentials, zone, order, proxied flags, record identifiers — as it
/// was.
pub fn normalize_config(config: Config) -> (out: Config)
    ensures
        out.api_token == config.api_token,
        out.zone_id == config.zone_id,
        out.ttl == config.ttl,
        out.subdomains@.len() == config.subdomains@.len(),
        forall|k: int|
            0 <= k < config.subdomains@.len() ==> normalized_subdomain(
                config.subdomains@[k],
                #[trigger] out.subdomains@[k],
            ),
{
    let Config { api_token, zone_id, subdomains, ttl } = config;
    let mut out_subs: Vec<Subdomain> = Vec::new();
    let mut i: usize = 0;
    while i < subdomains.len()
        invariant
            i <= subdomains@.len(),
            out_subs@.len() == i as int,
            forall|k: int|
                0 <= k < i as int ==> normalized_subdomain(
                    subdomains@[k],
                    #[trigger] out_subs@[k],
                ),
        decreases subdomains@.len() - i,
    {
        let sd = &subdomains[i];
        let name = normalize_name(sd.name.clone());
        let id = match &sd.id {
            Some(s) => Some(s.clone()),
            None => None,
        };
        out_subs.push(Subdomain { name, proxied: sd.proxied, id });
        i += 1;
    }
    Config { api_token, zone_id, subdomains: out_subs, ttl }
}

} // verus!
