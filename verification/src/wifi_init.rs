//! Wireless bring-up decisions: mode selection from stored credentials,
//! scan post-processing, radio configuration, and the verdicts over the
//! driver's reported status. The radio driver itself is an external
//! collaborator; the caller performs scan, configure, wait and ping, and
//! feeds the results back in.

use vstd::prelude::*;
use vstd::string::StringSliceAdditionalSpecFns;
use vstd::utf8::encode_utf8;
use crate::bytesearch::contains_seq;
use crate::bytesearch::find_bytes;
use crate::bytesearch::lemma_find_first;
use crate::records::Wifi;
use crate::records::WifiView;

verus! {

/// One entry of a scan of visible networks.
pub struct AccessPointInfo {
    pub ssid: String,
    pub channel: u8,
    pub signal_strength: i8,
}

/// The topology the device brings up: simultaneous station and
/// access-point operation, or an access point alone.
#[derive(Debug, PartialEq, Eq, Structural, Clone, Copy)]
pub enum WifiMode {
    Mixed,
    AccessPointOnly,
}

/// The mode that a station record calls for: mixed exactly when both
/// ssid and pass are present.
pub open spec fn mode_of(sta: WifiView) -> WifiMode {
    if sta.ssid is Some && sta.pass is Some {
        WifiMode::Mixed
    } else {
        WifiMode::AccessPointOnly
    }
}

/// Selects the bring-up mode. A pure function of credential presence:
/// prior link state plays no part.
pub fn wifi(sta: &Wifi) -> (m: WifiMode)
    ensures
        m == mode_of(sta@),
{
    match sta.ssid.is_some() && sta.pass.is_some() {
        true => WifiMode::Mixed,
        false => WifiMode::AccessPointOnly,
    }
}

/// Whether scan results are ordered by descending signal strength.
pub open spec fn sorted_desc(s: Seq<AccessPointInfo>) -> bool {
    forall|i: int, j: int|
        0 <= i <= j < s.len() ==> s[i].signal_strength >= s[j].signal_strength
}

/// Orders scan results by descending signal strength: the result is a
/// permutation of the input, strongest first.
pub fn scan(results: Vec<AccessPointInfo>) -> (r: Vec<AccessPointInfo>)
    ensures
        sorted_desc(r@),
        r@.to_multiset() == results@.to_multiset(),
{
    broadcast use vstd::seq_lib::group_to_multiset_ensures;

    let mut rest = results;
    let ghost orig = rest@;
    let mut out: Vec<AccessPointInfo> = Vec::new();
    while rest.len() > 0
        invariant
            out@.to_multiset().add(rest@.to_multiset()) == orig.to_multiset(),
            sorted_desc(out@),
            forall|i: int, j: int|
                0 <= i < out@.len() && 0 <= j < rest@.len() ==> out@[i].signal_strength
                    >= rest@[j].signal_strength,
        decreases rest.len(),
    {
        let mut m: usize = 0;
        let mut k: usize = 1;
        while k < rest.len()
            invariant
                0 <= m < rest@.len(),
                1 <= k <= rest@.len(),
                forall|j: int| 0 <= j < k ==> rest@[m as int].signal_strength >= rest@[j].signal_strength,
            decreases rest.len() - k,
        {
            if rest[k].signal_strength > rest[m].signal_strength {
                m = k;
            }
            k += 1;
        }
        let ghost rest_before = rest@;
        let x = rest.remove(m);
        proof {
            broadcast use vstd::seq_lib::group_to_multiset_ensures;

            assert(out@.push(x).to_multiset() =~= out@.to_multiset().insert(x));
            assert(rest@.to_multiset() =~= rest_before.to_multiset().remove(x));
            assert(out@.push(x).to_multiset().add(rest@.to_multiset()) =~= orig.to_multiset());
        }
        out.push(x);
    }
    proof {
        assert(out@.to_multiset() =~= orig.to_multiset());
    }
    out
}

/// Whether a scanned name matches the configured one: the configured
/// bytes occur inside the scanned bytes. Deliberately a containment
/// match, not an exact one — drivers report some names with
/// platform-added suffixes.
pub open spec fn ssid_matches(entry: Seq<char>, target: Seq<char>) -> bool {
    contains_seq(encode_utf8(entry), encode_utf8(target))
}

/// The channel of the first scan entry whose name matches the target, if
/// any does.
pub open spec fn channel_from_scan(scan: Seq<AccessPointInfo>, target: Seq<char>) -> Option<u8>
    decreases scan.len(),
{
    if scan.len() == 0 {
        None
    } else if ssid_matches(scan[0].ssid@, target) {
        Some(scan[0].channel)
    } else {
        channel_from_scan(scan.drop_first(), target)
    }
}

/// Recovers the channel of the configured station network from scan
/// results; nothing when no scanned name matches.
pub fn find_channel(scan: &Vec<AccessPointInfo>, target: &str) -> (r: Option<u8>)
    ensures
        r == channel_from_scan(scan@, target@),
{
    let n = scan.len();
    let mut i: usize = 0;
    proof {
        assert(scan@.skip(0) =~= scan@);
    }
    while i < n
        invariant
            0 <= i <= n,
            n == scan@.len(),
            channel_from_scan(scan@, target@) == channel_from_scan(
                scan@.skip(i as int),
                target@,
            ),
        decreases n - i,
    {
        let hay = scan[i].ssid.as_str().as_bytes();
        let found = find_bytes(hay, target.as_bytes());
        proof {
            lemma_find_first(encode_utf8(scan@[i as int].ssid@), encode_utf8(target@));
            assert(scan@.skip(i as int)[0] == scan@[i as int]);
        }
        if found.is_some() {
            return Some(scan[i].channel);
        }
        proof {
            assert(scan@.skip(i as int).drop_first() =~= scan@.skip(i as int + 1));
        }
        i += 1;
    }
    proof {
        assert(scan@.skip(n as int).len() == 0);
    }
    None
}

/// The station half of a radio configuration.
pub struct ClientConfiguration {
    pub ssid: String,
    pub password: String,
    pub channel: Option<u8>,
}

/// The access-point half of a radio configuration.
pub struct AccessPointConfiguration {
    pub ssid: String,
    pub password: String,
    pub channel: u8,
}

/// Builds the mixed-mode radio configuration: the station half carries
/// the stored credentials and the channel recovered from the scan; the
/// access-point half carries the stored credentials on the stored
/// channel, defaulting to channel 1.
pub fn wifimixed(sta: &Wifi, ap: &Wifi, scan_results: &Vec<AccessPointInfo>) -> (r: (
    ClientConfiguration,
    AccessPointConfiguration,
))
    requires
        sta@.ssid is Some,
        sta@.pass is Some,
        ap@.ssid is Some,
        ap@.pass is Some,
    ensures
        Some(r.0.ssid@) == sta@.ssid,
        Some(r.0.password@) == sta@.pass,
        ({
            let target = match sta@.ssid {
                Some(s) => s,
                None => Seq::empty(),
            };
            r.0.channel == channel_from_scan(scan_results@, target)
        }),
        Some(r.1.ssid@) == ap@.ssid,
        Some(r.1.password@) == ap@.pass,
        r.1.channel == match ap@.channel {
            Some(c) => c,
            None => 1u8,
        },
{
    let ssid = if let Some(s) = &sta.ssid {
        s.clone()
    } else {
        vstd::pervasive::unreached()
    };
    let pass = if let Some(s) = &sta.pass {
        s.clone()
    } else {
        vstd::pervasive::unreached()
    };
    let ap_ssid = if let Some(s) = &ap.ssid {
        s.clone()
    } else {
        vstd::pervasive::unreached()
    };
    let ap_pass = if let Some(s) = &ap.pass {
        s.clone()
    } else {
        vstd::pervasive::unreached()
    };
    let channel = find_channel(scan_results, ssid.as_str());
    let ap_channel = match ap.channel {
        Some(c) => c,
        None => 1,
    };
    (
        ClientConfiguration { ssid, password: pass, channel },
        AccessPointConfiguration { ssid: ap_ssid, password: ap_pass, channel: ap_channel },
    )
}

/// Builds the access-point-only radio configuration. The credentials are
/// required here: their absence is a caller contract violation.
pub fn wifiap(ap: &Wifi) -> (r: AccessPointConfiguration)
    requires
        ap@.ssid is Some,
        ap@.pass is Some,
    ensures
        Some(r.ssid@) == ap@.ssid,
        Some(r.password@) == ap@.pass,
        r.channel == match ap@.channel {
            Some(c) => c,
            None => 1u8,
        },
{
    let ssid = if let Some(s) = &ap.ssid {
        s.clone()
    } else {
        vstd::pervasive::unreached()
    };
    let pass = if let Some(s) = &ap.pass {
        s.clone()
    } else {
        vstd::pervasive::unreached()
    };
    let channel = match ap.channel {
        Some(c) => c,
        None => 1,
    };
    AccessPointConfiguration { ssid, password: pass, channel }
}

/// The addresses the station was given on connecting.
#[derive(Debug, PartialEq, Eq, Structural, Clone, Copy)]
pub struct IpInfo {
    pub ip: u32,
    pub gateway: u32,
}

/// The station half of the driver's reported status.
#[derive(Debug, PartialEq, Eq, Structural, Clone, Copy)]
pub enum ClientStatus {
    Transitional,
    Connected(IpInfo),
    Failed,
}

/// The access-point half of the driver's reported status.
#[derive(Debug, PartialEq, Eq, Structural, Clone, Copy)]
pub enum ApStatus {
    Transitional,
    Started,
    Failed,
}

/// The driver's reported status, both halves at once.
#[derive(Debug, PartialEq, Eq, Structural, Clone, Copy)]
pub struct LinkStatus {
    pub sta: ClientStatus,
    pub ap: ApStatus,
}

impl LinkStatus {
    /// Whether either half is still in flight; polling continues until
    /// neither is, or the wait times out.
    pub open spec fn spec_is_transitional(&self) -> bool {
        self.sta is Transitional || self.ap is Transitional
    }

    /// The polling predicate handed to the driver's bounded wait.
    pub fn is_transitional(&self) -> (b: bool)
        ensures
            b == self.spec_is_transitional(),
    {
        match (self.sta, self.ap) {
            (ClientStatus::Transitional, _) => true,
            (_, ApStatus::Transitional) => true,
            _ => false,
        }
    }
}

/// A bring-up failure, carrying the captured status snapshot. No retry,
/// no fallback between modes: the caller decides what to do with it.
#[derive(Debug, PartialEq, Eq, Structural, Clone, Copy)]
pub enum LinkFault {
    /// The driver never left the transitional state within the bounded
    /// wait.
    Timeout(LinkStatus),
    /// The wait ended but the terminal status is not the required one.
    StatusMismatch(LinkStatus),
    /// Reachability probes to the gateway went unanswered.
    PingLoss { transmitted: u32, received: u32 },
}

/// The mixed-mode verdict over the driver's terminal status: success
/// exactly when the wait ended in time, the station is connected with an
/// address, and the access point is started. Any other terminal
/// combination is a failure of the whole bring-up, not degraded success.
pub fn evaluate_mixed(timed_out: bool, st: &LinkStatus) -> (r: Result<IpInfo, LinkFault>)
    ensures
        match r {
            Ok(ip) => !timed_out && st.sta == ClientStatus::Connected(ip) && st.ap
                == ApStatus::Started,
            Err(LinkFault::Timeout(snap)) => timed_out && snap == *st,
            Err(LinkFault::StatusMismatch(snap)) => !timed_out && snap == *st && !(st.sta
                is Connected && st.ap is Started),
            Err(_) => false,
        },
{
    if timed_out {
        return Err(LinkFault::Timeout(*st));
    }
    match (st.sta, st.ap) {
        (ClientStatus::Connected(ip), ApStatus::Started) => Ok(ip),
        _ => Err(LinkFault::StatusMismatch(*st)),
    }
}

/// The access-point-only verdict over the driver's terminal status:
/// success when the wait finished in time and the access point is
/// started; the station half is ignored in this mode.
pub fn evaluate_ap(timed_out: bool, st: &LinkStatus) -> (r: Result<(), LinkFault>)
    ensures
        match r {
            Ok(()) => !timed_out && st.ap is Started,
            Err(LinkFault::Timeout(snap)) => timed_out && snap == *st,
            Err(LinkFault::StatusMismatch(snap)) => !timed_out && snap == *st && !(st.ap
                is Started),
            Err(_) => false,
        },
{
    if timed_out {
        return Err(LinkFault::Timeout(*st));
    }
    match st.ap {
        ApStatus::Started => Ok(()),
        _ => Err(LinkFault::StatusMismatch(*st)),
    }
}

/// The result of a round of reachability probes.
#[derive(Debug, PartialEq, Eq, Structural, Clone, Copy)]
pub struct PingSummary {
    pub transmitted: u32,
    pub received: u32,
}

/// The verdict over a round of probes to the station's gateway: every
/// probe sent must be answered; any loss is a hard failure.
pub fn ping_init(summary: &PingSummary) -> (r: Result<(), LinkFault>)
    ensures
        match r {
            Ok(()) => summary.transmitted == summary.received,
            Err(LinkFault::PingLoss { transmitted, received }) => transmitted
                == summary.transmitted && received == summary.received && transmitted != received,
            Err(_) => false,
        },
{
    if summary.transmitted != summary.received {
        Err(
            LinkFault::PingLoss {
                transmitted: summary.transmitted,
                received: summary.received,
            },
        )
    } else {
        Ok(())
    }
}

} // verus!
