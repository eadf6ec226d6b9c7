//! The configuration-write endpoint's logic: picking station credentials
//! out of a form-encoded request body and applying them to the
//! configuration set, persisting at once.

use vstd::prelude::*;
use crate::config::AppConfiguration;
use crate::config::ConfigError;
use crate::config::ConfigView;
use crate::config::fix_keys;
use crate::config::store_records;
use crate::records::WifiView;
use crate::store::NvsStore;

verus! {

/// The decoded attribute/value pairs that a form-encoded body holds, in
/// order.
pub uninterp spec fn form_pairs_of(body: Seq<u8>) -> Seq<(Seq<char>, Seq<char>)>;

/// Relies on url::form_urlencoded::parse: it splits the body on the pair
/// and attribute separators and percent-decodes each name and value; the
/// pairs depend on the body bytes alone.
#[verifier::external_body]
fn parse_form_pairs(body: &[u8]) -> (r: Vec<(String, String)>)
    ensures
        r@.len() == form_pairs_of(body@).len(),
        forall|i: int|
            0 <= i < r@.len() ==> ((#[trigger] r@[i]).0@, r@[i].1@) == form_pairs_of(body@)[i],
{
    url::form_urlencoded::parse(body).map(|p| (p.0.into_owned(), p.1.into_owned())).collect()
}

/// The attribute/value pairs a vector of strings stands for.
pub open spec fn pairs_view(pairs: Seq<(String, String)>) -> Seq<(Seq<char>, Seq<char>)> {
    pairs.map_values(|p: (String, String)| (p.0@, p.1@))
}

/// The value of the first pair carrying the given attribute name, if any
/// pair does.
pub open spec fn first_value(pairs: Seq<(Seq<char>, Seq<char>)>, key: Seq<char>) -> Option<
    Seq<char>,
>
    decreases pairs.len(),
{
    if pairs.len() == 0 {
        None
    } else if pairs[0].0 == key {
        Some(pairs[0].1)
    } else {
        first_value(pairs.drop_first(), key)
    }
}

/// Finds the value of the first pair named `key`.
fn lookup_first(pairs: &Vec<(String, String)>, key: &String) -> (r: Option<String>)
    ensures
        match r {
            Some(v) => first_value(pairs_view(pairs@), key@) == Some(v@),
            None => first_value(pairs_view(pairs@), key@) is None,
        },
{
    let n = pairs.len();
    let mut i: usize = 0;
    proof {
        assert(pairs_view(pairs@).skip(0) =~= pairs_view(pairs@));
    }
    while i < n
        invariant
            0 <= i <= n,
            n == pairs@.len(),
            first_value(pairs_view(pairs@), key@) == first_value(
                pairs_view(pairs@).skip(i as int),
                key@,
            ),
        decreases n - i,
    {
        proof {
            assert(pairs_view(pairs@).skip(i as int)[0] == pairs_view(pairs@)[i as int]);
        }
        if pairs[i].0.eq(key) {
            return Some(pairs[i].1.clone());
        }
        proof {
            assert(pairs_view(pairs@).skip(i as int).drop_first() =~= pairs_view(pairs@).skip(
                i as int + 1,
            ));
        }
        i += 1;
    }
    proof {
        assert(pairs_view(pairs@).skip(n as int).len() == 0);
    }
    None
}

/// Picks the station credentials out of a form-encoded body: the values
/// of the first `ssid` pair and the first `pass` pair. Nothing when
/// either attribute is absent.
pub fn parse_station_credentials(body: &[u8]) -> (r: Option<(String, String)>)
    ensures
        match r {
            Some(c) => first_value(form_pairs_of(body@), "ssid"@) == Some(c.0@) && first_value(
                form_pairs_of(body@),
                "pass"@,
            ) == Some(c.1@),
            None => first_value(form_pairs_of(body@), "ssid"@) is None || first_value(
                form_pairs_of(body@),
                "pass"@,
            ) is None,
        },
{
    let pairs = parse_form_pairs(body);
    proof {
        assert(pairs_view(pairs@) =~= form_pairs_of(body@));
    }
    let ssid_key: String = "ssid".to_owned();
    let pass_key: String = "pass".to_owned();
    let ssid = match lookup_first(&pairs, &ssid_key) {
        Some(s) => s,
        None => {
            return None;
        },
    };
    let pass = match lookup_first(&pairs, &pass_key) {
        Some(s) => s,
        None => {
            return None;
        },
    };
    Some((ssid, pass))
}

/// The configuration with the station credentials replaced and all else
/// kept.
pub open spec fn station_updated(c: ConfigView, ssid: Seq<char>, pass: Seq<char>) -> ConfigView {
    ConfigView { sta: WifiView { ssid: Some(ssid), pass: Some(pass), ..c.sta }, ..c }
}

/// Applies new station credentials and persists every record at once: a
/// write fully completes before the configuration is used again, so no
/// reader ever sees credentials that are not yet stored.
pub fn apply_station_credentials(
    config: &mut AppConfiguration,
    store: &mut NvsStore,
    ssid: String,
    pass: String,
) -> (r: Result<(), ConfigError>)
    ensures
        r is Ok,
        final(config)@ == fix_keys(station_updated(old(config)@, ssid@, pass@)),
        final(store)@ == store_records(
            old(store)@,
            fix_keys(station_updated(old(config)@, ssid@, pass@)),
        ),
{
    config.sta.ssid = Some(ssid);
    config.sta.pass = Some(pass);
    config.store_values_to_nvs(store)
}

} // verus!
