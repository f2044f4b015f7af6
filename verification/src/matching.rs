//! Mapping configured subdomains to the provider-side records of the zone.
//!
//! The matcher walks the zone's record list once per configured name and
//! takes the first record the name matches. The apex sentinel `@` matches
//! a record name of the zone itself — one with no dot, or with exactly one.
//! Any other configured name matches by plain prefix; the prefix test is
//! deliberately loose (`foo` also matches `foobar.example.com`), since
//! configurations in the wild may rely on it.

use vstd::prelude::*;
use crate::config::{Config, Subdomain, id_view};

verus! {

/// A provider-side DNS record, reduced to the fields this system reads
/// or writes.
#[derive(Debug)]
pub struct DnsRecord {
    /// The provider's identifier of the record.
    pub id: String,
    /// The fully qualified record name.
    pub name: String,
    /// The address the record currently points at.
    pub content: String,
    /// Time-to-live, in seconds.
    pub ttl: usize,
    /// Whether the record routes through the provider's reverse proxy.
    pub proxied: bool,
}

/// How many `.` characters a name holds.
pub open spec fn dot_count(s: Seq<char>) -> int
    decreases s.len(),
{
    if s.len() == 0 {
        0
    } else {
        dot_count(s.drop_last()) + (if s.last() == '.' {
            1int
        } else {
            0int
        })
    }
}

/// A record name that stands for the zone itself: no subdomain label, so
/// no dot at all or exactly one (two dot-separated labels in all).
pub open spec fn apex_record_name(n: Seq<char>) -> bool {
    dot_count(n) == 0 || dot_count(n) == 1
}

/// `p` is a prefix of `s`.
pub open spec fn is_name_prefix(p: Seq<char>, s: Seq<char>) -> bool {
    p.len() <= s.len() && s.take(p.len() as int) == p
}

/// The matching policy for one record: the apex sentinel `@` matches an
/// apex record name; any other configured name matches by plain prefix.
pub open spec fn name_matches(sub: Seq<char>, rec: Seq<char>) -> bool {
    if sub == seq!['@'] {
        apex_record_name(rec)
    } else {
        is_name_prefix(sub, rec)
    }
}

/// The identifier of the first record of the list that the configured
/// name matches, if any — first match wins.
pub open spec fn find_match(sub: Seq<char>, recs: Seq<DnsRecord>) -> Option<Seq<char>>
    decreases recs.len(),
{
    if recs.len() == 0 {
        None
    } else if name_matches(sub, recs[0].name@) {
        Some(recs[0].id@)
    } else {
        find_match(sub, recs.drop_first())
    }
}

/// How an entry of the matched configuration relates to the entry it came
/// from: the identifier is the match result, the rest is kept.
pub open spec fn matched_subdomain(osd: Subdomain, nsd: Subdomain, recs: Seq<DnsRecord>) -> bool {
    nsd.name@ == osd.name@ && nsd.proxied == osd.proxied && id_view(nsd.id) == find_match(
        osd.name@,
        recs,
    )
}

/// Counts the `.` characters of a name.
fn count_dots(s: &str) -> (n: usize)
    ensures
        n as int == dot_count(s@),
{
    let len = s.unicode_len();
    let mut count: usize = 0;
    let mut i: usize = 0;
    while i < len
        invariant
            i <= len,
            len == s@.len(),
            count <= i,
            count as int == dot_count(s@.take(i as int)),
        decreases len - i,
    {
        let c = s.get_char(i);
        proof {
            assert(s@.take(i as int + 1).drop_last() =~= s@.take(i as int));
            assert(s@.take(i as int + 1).last() == s@[i as int]);
        }
        if c == '.' {
            count += 1;
        }
        i += 1;
    }
    proof {
        assert(s@.take(len as int) =~= s@);
    }
    count
}

/// Whether a record name stands for the zone itself.
fn is_apex_record_name(n: &str) -> (r: bool)
    ensures
        r == apex_record_name(n@),
{
    let d = count_dots(n);
    d == 0 || d == 1
}

/// Whether `s` starts with `p`.
fn has_name_prefix(s: &str, p: &str) -> (r: bool)
    ensures
        r == is_name_prefix(p@, s@),
{
    let plen = p.unicode_len();
    let slen = s.unicode_len();
    if plen > slen {
        return false;
    }
    let mut k: usize = 0;
    while k < plen
        invariant
            k <= plen,
            plen == p@.len(),
            slen == s@.len(),
            plen <= slen,
            forall|t: int| 0 <= t < k ==> s@[t] == p@[t],
        decreases plen - k,
    {
        let sc = s.get_char(k);
        let pc = p.get_char(k);
        if sc != pc {
            proof {
                if s@.take(plen as int) == p@ {
                    assert(s@.take(plen as int)[k as int] == p@[k as int]);
                }
            }
            return false;
        }
        k += 1;
    }
    proof {
        assert(s@.take(plen as int) =~= p@);
    }
    true
}

/// Whether a configured name is the apex sentinel `@`.
fn is_apex_query(name: &str) -> (r: bool)
    ensures
        r == (name@ == seq!['@']),
{
    let len = name.unicode_len();
    if len == 1 {
        let c = name.get_char(0);
        proof {
            if c == '@' {
                assert(name@ =~= seq!['@']);
            } else if name@ == seq!['@'] {
                assert(name@[0] == '@');
            }
        }
        c == '@'
    } else {
        proof {
            if name@ == seq!['@'] {
                assert(name@.len() == 1);
            }
        }
        false
    }
}

/// The identifier of the first record `name` matches, cloned out of the
/// list, or nothing when no record matches.
pub fn find_record_id(name: &str, records: &Vec<DnsRecord>) -> (r: Option<String>)
    ensures
        id_view(r) == find_match(name@, records@),
{
    let apex = is_apex_query(name);
    let mut t: usize = 0;
    proof {
        assert(records@.skip(0) =~= records@);
    }
    while t < records.len()
        invariant
            t <= records@.len(),
            apex == (name@ == seq!['@']),
            find_match(name@, records@) == find_match(name@, records@.skip(t as int)),
        decreases records@.len() - t,
    {
        let rec = &records[t];
        let matched = if apex {
            is_apex_record_name(rec.name.as_str())
        } else {
            has_name_prefix(rec.name.as_str(), name)
        };
        proof {
            assert(records@.skip(t as int)[0] == records@[t as int]);
        }
        if matched {
            return Some(rec.id.clone());
        }
        proof {
            assert(records@.skip(t as int).drop_first() =~= records@.skip(t as int + 1));
        }
        t += 1;
    }
    proof {
        assert(records@.skip(records@.len() as int) =~= Seq::<DnsRecord>::empty());
    }
    None
}

/// Maps every configured subdomain to the identifier of the first record
/// its name matches, independently per subdomain and in list order; a
/// subdomain that matches no record is left without an identifier,
/// whatever it carried before. Credentials, zone, order, names, proxied
/// flags and the time-to-live are unchanged.
pub fn match_records(config: Config, records: &Vec<DnsRecord>) -> (out: Config)
    ensures
        out.api_token == config.api_token,
        out.zone_id == config.zone_id,
        out.ttl == config.ttl,
        out.subdomains@.len() == config.subdomains@.len(),
        forall|k: int|
            0 <= k < config.subdomains@.len() ==> matched_subdomain(
                config.subdomains@[k],
                #[trigger] out.subdomains@[k],
                records@,
            ),
{
    let Config { api_token, zone_id, subdomains, ttl } = config;
    let mut out_subs: Vec<Subdomain> = Vec::new();
    let mut i: usize = 0;
    while i < subdomains.len()
        invariant
            i <= subdomains@.len(),
            out_subs@.len() == i as int,
            forall|k: int|
                0 <= k < i as int ==> matched_subdomain(
                    subdomains@[k],
                    #[trigger] out_subs@[k],
                    records@,
                ),
        decreases subdomains@.len() - i,
    {
        let sd = &subdomains[i];
        let id = find_record_id(sd.name.as_str(), records);
        out_subs.push(Subdomain { name: sd.name.clone(), proxied: sd.proxied, id });
        i += 1;
    }
    Config { api_token, zone_id, subdomains: out_subs, ttl }
}

} // verus!
