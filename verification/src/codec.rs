//! Serialization of settings records into self-describing, field-tagged
//! byte payloads, and the decoders that read them back. Every field is
//! written as a one-byte tag followed by its value; strings are
//! length-prefixed UTF-8. Decoding an encoded record always yields the
//! record back; see the round-trip lemmas at the end.

use vstd::prelude::*;
use vstd::bytes::lemma_auto_spec_u64_to_from_le_bytes;
use vstd::bytes::spec_u64_from_le_bytes;
use vstd::bytes::spec_u64_to_le_bytes;
use vstd::bytes::u64_from_le_bytes;
use vstd::bytes::u64_to_le_bytes;
use vstd::slice::slice_index_get;
use vstd::slice::slice_subrange;
use vstd::slice::slice_to_vec;
use vstd::string::StringSliceAdditionalSpecFns;
use vstd::utf8::decode_utf8;
use vstd::utf8::encode_utf8;
use vstd::utf8::encode_utf8_decode_utf8;
use vstd::utf8::encode_utf8_valid_utf8;
use vstd::utf8::valid_utf8;
use crate::records::BmsSettings;
use crate::records::BmsSettingsView;
use crate::records::MqttSettings;
use crate::records::MqttSettingsView;
use crate::records::Wifi;
use crate::records::WifiView;

verus! {

/// Record kind byte of a wireless record.
pub const KIND_WIFI: u8 = 0x57;

/// Record kind byte of a battery-management record.
pub const KIND_BMS: u8 = 0x42;

/// Record kind byte of a message-broker record.
pub const KIND_MQTT: u8 = 0x4d;

/// Field tag of the store key, first field of every record.
pub const TAG_KEY: u8 = 1;

/// Field tag of the second field of a record.
pub const TAG_F2: u8 = 2;

/// Field tag of the third field of a record.
pub const TAG_F3: u8 = 3;

/// Field tag of the fourth field of a record.
pub const TAG_F4: u8 = 4;

/// Field tag of the fifth field of a record.
pub const TAG_F5: u8 = 5;

/// Field tag of the sixth field of a record.
pub const TAG_F6: u8 = 6;

/// Field tag of the seventh field of a record.
pub const TAG_F7: u8 = 7;

/// Whether the UTF-8 encoding of `s` fits under the 8-byte length prefix.
/// Every string held by an in-memory record satisfies this.
pub open spec fn str_fits(s: Seq<char>) -> bool {
    encode_utf8(s).len() < 0x1_0000_0000_0000_0000
}

/// A byte string under its 8-byte little-endian length prefix.
pub open spec fn enc_bytes(p: Seq<u8>) -> Seq<u8> {
    spec_u64_to_le_bytes(p.len() as u64) + p
}

/// A string as its length-prefixed UTF-8 encoding.
pub open spec fn enc_str(s: Seq<char>) -> Seq<u8> {
    enc_bytes(encode_utf8(s))
}

/// A field tag followed by a string value.
pub open spec fn enc_tagged_str(tag: u8, s: Seq<char>) -> Seq<u8> {
    seq![tag] + enc_str(s)
}

/// A field tag followed by an optional string: a presence byte, then the
/// string if present.
pub open spec fn enc_tagged_opt_str(tag: u8, o: Option<Seq<char>>) -> Seq<u8> {
    match o {
        None => seq![tag, 0u8],
        Some(s) => seq![tag, 1u8] + enc_str(s),
    }
}

/// A field tag followed by an optional byte: a presence byte, then the
/// value if present.
pub open spec fn enc_tagged_opt_u8(tag: u8, o: Option<u8>) -> Seq<u8> {
    match o {
        None => seq![tag, 0u8],
        Some(v) => seq![tag, 1u8, v],
    }
}

/// A field tag followed by a byte value.
pub open spec fn enc_tagged_u8(tag: u8, v: u8) -> Seq<u8> {
    seq![tag, v]
}

/// The payload of a wireless record.
pub open spec fn encode_wifi(w: WifiView) -> Seq<u8> {
    seq![KIND_WIFI] + (enc_tagged_str(TAG_KEY, w.nvs) + (enc_tagged_opt_str(TAG_F2, w.ssid) + (
    enc_tagged_opt_str(TAG_F3, w.pass) + enc_tagged_opt_u8(TAG_F4, w.channel))))
}

/// The payload of a battery-management record.
pub open spec fn encode_bms(v: BmsSettingsView) -> Seq<u8> {
    seq![KIND_BMS] + enc_tagged_str(TAG_KEY, v.nvs)
}

/// The payload of a message-broker record.
pub open spec fn encode_mqtt(v: MqttSettingsView) -> Seq<u8> {
    seq![KIND_MQTT] + (enc_tagged_str(TAG_KEY, v.nvs) + (enc_tagged_str(TAG_F2, v.address) + (
    enc_tagged_str(TAG_F3, v.username) + (enc_tagged_str(TAG_F4, v.password) + (enc_tagged_str(
        TAG_F5,
        v.client_id,
    ) + (enc_tagged_str(TAG_F6, v.base_topic) + enc_tagged_u8(TAG_F7, v.qos)))))))
}

/// Whether every string of a wireless record fits its length prefix.
pub open spec fn wifi_fits(w: WifiView) -> bool {
    &&& str_fits(w.nvs)
    &&& (w.ssid matches Some(s) ==> str_fits(s))
    &&& (w.pass matches Some(s) ==> str_fits(s))
}

/// Whether the string of a battery-management record fits its length
/// prefix.
pub open spec fn bms_fits(v: BmsSettingsView) -> bool {
    str_fits(v.nvs)
}

/// Whether every string of a message-broker record fits its length prefix.
pub open spec fn mqtt_fits(v: MqttSettingsView) -> bool {
    &&& str_fits(v.nvs)
    &&& str_fits(v.address)
    &&& str_fits(v.username)
    &&& str_fits(v.password)
    &&& str_fits(v.client_id)
    &&& str_fits(v.base_topic)
}

// Decoders. Each reads one item from the front of the input and returns it
// with the unread rest; `None` means the input does not start with such an
// item.
/// Reads an 8-byte little-endian integer.
pub open spec fn dec_u64(b: Seq<u8>) -> Option<(u64, Seq<u8>)> {
    if b.len() >= 8 {
        Some((spec_u64_from_le_bytes(b.subrange(0, 8)), b.subrange(8, b.len() as int)))
    } else {
        None
    }
}

/// Reads a length-prefixed byte string.
pub open spec fn dec_bytes(b: Seq<u8>) -> Option<(Seq<u8>, Seq<u8>)> {
    match dec_u64(b) {
        Some((n, r)) => if n <= r.len() {
            Some((r.subrange(0, n as int), r.subrange(n as int, r.len() as int)))
        } else {
            None
        },
        None => None,
    }
}

/// Reads a length-prefixed UTF-8 string.
pub open spec fn dec_str(b: Seq<u8>) -> Option<(Seq<char>, Seq<u8>)> {
    match dec_bytes(b) {
        Some((p, r)) => if valid_utf8(p) {
            Some((decode_utf8(p), r))
        } else {
            None
        },
        None => None,
    }
}

/// Reads one expected tag byte.
pub open spec fn dec_tag(b: Seq<u8>, tag: u8) -> Option<Seq<u8>> {
    if b.len() >= 1 && b[0] == tag {
        Some(b.subrange(1, b.len() as int))
    } else {
        None
    }
}

/// Reads a tagged string field.
pub open spec fn dec_tagged_str(b: Seq<u8>, tag: u8) -> Option<(Seq<char>, Seq<u8>)> {
    match dec_tag(b, tag) {
        Some(r) => dec_str(r),
        None => None,
    }
}

/// Reads a tagged optional string field.
pub open spec fn dec_tagged_opt_str(b: Seq<u8>, tag: u8) -> Option<(Option<Seq<char>>, Seq<u8>)> {
    match dec_tag(b, tag) {
        Some(r) => if r.len() >= 1 && r[0] == 0 {
            Some((None, r.subrange(1, r.len() as int)))
        } else if r.len() >= 1 && r[0] == 1 {
            match dec_str(r.subrange(1, r.len() as int)) {
                Some((s, r2)) => Some((Some(s), r2)),
                None => None,
            }
        } else {
            None
        },
        None => None,
    }
}

/// Reads a tagged optional byte field.
pub open spec fn dec_tagged_opt_u8(b: Seq<u8>, tag: u8) -> Option<(Option<u8>, Seq<u8>)> {
    match dec_tag(b, tag) {
        Some(r) => if r.len() >= 1 && r[0] == 0 {
            Some((None, r.subrange(1, r.len() as int)))
        } else if r.len() >= 2 && r[0] == 1 {
            Some((Some(r[1]), r.subrange(2, r.len() as int)))
        } else {
            None
        },
        None => None,
    }
}

/// Reads a tagged byte field.
pub open spec fn dec_tagged_u8(b: Seq<u8>, tag: u8) -> Option<(u8, Seq<u8>)> {
    match dec_tag(b, tag) {
        Some(r) => if r.len() >= 1 {
            Some((r[0], r.subrange(1, r.len() as int)))
        } else {
            None
        },
        None => None,
    }
}

/// Decodes a whole wireless record; the payload must be consumed exactly.
pub open spec fn decode_wifi(b: Seq<u8>) -> Option<WifiView> {
    match dec_tag(b, KIND_WIFI) {
        Some(b0) => match dec_tagged_str(b0, TAG_KEY) {
            Some((nvs, b1)) => match dec_tagged_opt_str(b1, TAG_F2) {
                Some((ssid, b2)) => match dec_tagged_opt_str(b2, TAG_F3) {
                    Some((pass, b3)) => match dec_tagged_opt_u8(b3, TAG_F4) {
                        Some((channel, b4)) => if b4.len() == 0 {
                            Some(WifiView { nvs, ssid, pass, channel })
                        } else {
                            None
                        },
                        None => None,
                    },
                    None => None,
                },
                None => None,
            },
            None => None,
        },
        None => None,
    }
}

/// Decodes a whole battery-management record.
pub open spec fn decode_bms(b: Seq<u8>) -> Option<BmsSettingsView> {
    match dec_tag(b, KIND_BMS) {
        Some(b0) => match dec_tagged_str(b0, TAG_KEY) {
            Some((nvs, b1)) => if b1.len() == 0 {
                Some(BmsSettingsView { nvs })
            } else {
                None
            },
            None => None,
        },
        None => None,
    }
}

/// Decodes a whole message-broker record.
pub open spec fn decode_mqtt(b: Seq<u8>) -> Option<MqttSettingsView> {
    match dec_tag(b, KIND_MQTT) {
        Some(b0) => match dec_tagged_str(b0, TAG_KEY) {
            Some((nvs, b1)) => match dec_tagged_str(b1, TAG_F2) {
                Some((address, b2)) => match dec_tagged_str(b2, TAG_F3) {
                    Some((username, b3)) => match dec_tagged_str(b3, TAG_F4) {
                        Some((password, b4)) => match dec_tagged_str(b4, TAG_F5) {
                            Some((client_id, b5)) => match dec_tagged_str(b5, TAG_F6) {
                                Some((base_topic, b6)) => match dec_tagged_u8(b6, TAG_F7) {
                                    Some((qos, b7)) => if b7.len() == 0 {
                                        Some(
                                            MqttSettingsView {
                                                nvs,
                                                address,
                                                username,
                                                password,
                                                client_id,
                                                base_topic,
                                                qos,
                                            },
                                        )
                                    } else {
                                        None
                                    },
                                    None => None,
                                },
                                None => None,
                            },
                            None => None,
                        },
                        None => None,
                    },
                    None => None,
                },
                None => None,
            },
            None => None,
        },
        None => None,
    }
}

// Round-trip lemmas: reading an encoded item from the front of any input
// that starts with it yields the item and the unread rest.
proof fn lemma_dec_u64_enc(n: u64, rest: Seq<u8>)
    ensures
        dec_u64(spec_u64_to_le_bytes(n) + rest) == Some((n, rest)),
{
    lemma_auto_spec_u64_to_from_le_bytes();
    let b = spec_u64_to_le_bytes(n) + rest;
    assert(b.subrange(0, 8) =~= spec_u64_to_le_bytes(n));
    assert(b.subrange(8, b.len() as int) =~= rest);
}

proof fn lemma_dec_bytes_enc(p: Seq<u8>, rest: Seq<u8>)
    requires
        p.len() < 0x1_0000_0000_0000_0000,
    ensures
        dec_bytes(enc_bytes(p) + rest) == Some((p, rest)),
{
    lemma_auto_spec_u64_to_from_le_bytes();
    let b = enc_bytes(p) + rest;
    assert(b =~= spec_u64_to_le_bytes(p.len() as u64) + (p + rest));
    lemma_dec_u64_enc(p.len() as u64, p + rest);
    let r = (p + rest);
    assert((p.len() as u64) as int == p.len() as int);
    assert(r.subrange(0, p.len() as int) =~= p);
    assert(r.subrange(p.len() as int, r.len() as int) =~= rest);
}

proof fn lemma_dec_str_enc(s: Seq<char>, rest: Seq<u8>)
    requires
        str_fits(s),
    ensures
        dec_str(enc_str(s) + rest) == Some((s, rest)),
{
    lemma_dec_bytes_enc(encode_utf8(s), rest);
    encode_utf8_valid_utf8(s);
    encode_utf8_decode_utf8(s);
}

proof fn lemma_dec_tag_enc(tag: u8, rest: Seq<u8>)
    ensures
        dec_tag(seq![tag] + rest, tag) == Some(rest),
{
    let b = seq![tag] + rest;
    assert(b[0] == tag);
    assert(b.subrange(1, b.len() as int) =~= rest);
}

proof fn lemma_dec_tagged_str_enc(tag: u8, s: Seq<char>, rest: Seq<u8>)
    requires
        str_fits(s),
    ensures
        dec_tagged_str(enc_tagged_str(tag, s) + rest, tag) == Some((s, rest)),
{
    let b = enc_tagged_str(tag, s) + rest;
    assert(b =~= seq![tag] + (enc_str(s) + rest));
    lemma_dec_tag_enc(tag, enc_str(s) + rest);
    lemma_dec_str_enc(s, rest);
}

proof fn lemma_dec_tagged_opt_str_enc(tag: u8, o: Option<Seq<char>>, rest: Seq<u8>)
    requires
        o matches Some(s) ==> str_fits(s),
    ensures
        dec_tagged_opt_str(enc_tagged_opt_str(tag, o) + rest, tag) == Some((o, rest)),
{
    let b = enc_tagged_opt_str(tag, o) + rest;
    match o {
        None => {
            assert(b =~= seq![tag] + (seq![0u8] + rest));
            lemma_dec_tag_enc(tag, seq![0u8] + rest);
            let r = seq![0u8] + rest;
            assert(r[0] == 0);
            assert(r.subrange(1, r.len() as int) =~= rest);
        },
        Some(s) => {
            assert(b =~= seq![tag] + (seq![1u8] + (enc_str(s) + rest)));
            lemma_dec_tag_enc(tag, seq![1u8] + (enc_str(s) + rest));
            let r = seq![1u8] + (enc_str(s) + rest);
            assert(r[0] == 1);
            assert(r.subrange(1, r.len() as int) =~= enc_str(s) + rest);
            lemma_dec_str_enc(s, rest);
        },
    }
}

proof fn lemma_dec_tagged_opt_u8_enc(tag: u8, o: Option<u8>, rest: Seq<u8>)
    ensures
        dec_tagged_opt_u8(enc_tagged_opt_u8(tag, o) + rest, tag) == Some((o, rest)),
{
    let b = enc_tagged_opt_u8(tag, o) + rest;
    match o {
        None => {
            assert(b =~= seq![tag] + (seq![0u8] + rest));
            lemma_dec_tag_enc(tag, seq![0u8] + rest);
            let r = seq![0u8] + rest;
            assert(r[0] == 0);
            assert(r.subrange(1, r.len() as int) =~= rest);
        },
        Some(v) => {
            assert(b =~= seq![tag] + (seq![1u8, v] + rest));
            lemma_dec_tag_enc(tag, seq![1u8, v] + rest);
            let r = seq![1u8, v] + rest;
            assert(r[0] == 1);
            assert(r[1] == v);
            assert(r.subrange(2, r.len() as int) =~= rest);
        },
    }
}

proof fn lemma_dec_tagged_u8_enc(tag: u8, v: u8, rest: Seq<u8>)
    ensures
        dec_tagged_u8(enc_tagged_u8(tag, v) + rest, tag) == Some((v, rest)),
{
    let b = enc_tagged_u8(tag, v) + rest;
    assert(b =~= seq![tag] + (seq![v] + rest));
    lemma_dec_tag_enc(tag, seq![v] + rest);
    let r = seq![v] + rest;
    assert(r[0] == v);
    assert(r.subrange(1, r.len() as int) =~= rest);
}

/// Decoding an encoded wireless record yields the record back.
pub proof fn lemma_wifi_roundtrip(w: WifiView)
    requires
        wifi_fits(w),
    ensures
        decode_wifi(encode_wifi(w)) == Some(w),
{
    let t1 = enc_tagged_str(TAG_KEY, w.nvs);
    let t2 = enc_tagged_opt_str(TAG_F2, w.ssid);
    let t3 = enc_tagged_opt_str(TAG_F3, w.pass);
    let t4 = enc_tagged_opt_u8(TAG_F4, w.channel);
    let empty = Seq::<u8>::empty();
    assert(encode_wifi(w) =~= seq![KIND_WIFI] + (t1 + (t2 + (t3 + t4))));
    lemma_dec_tag_enc(KIND_WIFI, t1 + (t2 + (t3 + t4)));
    lemma_dec_tagged_str_enc(TAG_KEY, w.nvs, t2 + (t3 + t4));
    lemma_dec_tagged_opt_str_enc(TAG_F2, w.ssid, t3 + t4);
    assert(t3 + t4 =~= t3 + (t4 + empty));
    lemma_dec_tagged_opt_str_enc(TAG_F3, w.pass, t4 + empty);
    lemma_dec_tagged_opt_u8_enc(TAG_F4, w.channel, empty);
    assert(t4 + empty =~= t4);
}

/// Decoding an encoded battery-management record yields the record back.
pub proof fn lemma_bms_roundtrip(v: BmsSettingsView)
    requires
        bms_fits(v),
    ensures
        decode_bms(encode_bms(v)) == Some(v),
{
    let t1 = enc_tagged_str(TAG_KEY, v.nvs);
    let empty = Seq::<u8>::empty();
    assert(encode_bms(v) =~= seq![KIND_BMS] + (t1 + empty));
    lemma_dec_tag_enc(KIND_BMS, t1 + empty);
    assert(t1 + empty =~= t1);
    assert(t1 =~= t1 + empty);
    lemma_dec_tagged_str_enc(TAG_KEY, v.nvs, empty);
}

/// Decoding an encoded message-broker record yields the record back.
pub proof fn lemma_mqtt_roundtrip(v: MqttSettingsView)
    requires
        mqtt_fits(v),
    ensures
        decode_mqtt(encode_mqtt(v)) == Some(v),
{
    let t1 = enc_tagged_str(TAG_KEY, v.nvs);
    let t2 = enc_tagged_str(TAG_F2, v.address);
    let t3 = enc_tagged_str(TAG_F3, v.username);
    let t4 = enc_tagged_str(TAG_F4, v.password);
    let t5 = enc_tagged_str(TAG_F5, v.client_id);
    let t6 = enc_tagged_str(TAG_F6, v.base_topic);
    let t7 = enc_tagged_u8(TAG_F7, v.qos);
    let empty = Seq::<u8>::empty();
    assert(encode_mqtt(v) =~= seq![KIND_MQTT] + (t1 + (t2 + (t3 + (t4 + (t5 + (t6 + t7)))))));
    lemma_dec_tag_enc(KIND_MQTT, t1 + (t2 + (t3 + (t4 + (t5 + (t6 + t7))))));
    lemma_dec_tagged_str_enc(TAG_KEY, v.nvs, t2 + (t3 + (t4 + (t5 + (t6 + t7)))));
    lemma_dec_tagged_str_enc(TAG_F2, v.address, t3 + (t4 + (t5 + (t6 + t7))));
    lemma_dec_tagged_str_enc(TAG_F3, v.username, t4 + (t5 + (t6 + t7)));
    lemma_dec_tagged_str_enc(TAG_F4, v.password, t5 + (t6 + t7));
    lemma_dec_tagged_str_enc(TAG_F5, v.client_id, t6 + t7);
    assert(t6 + t7 =~= t6 + (t7 + empty));
    lemma_dec_tagged_str_enc(TAG_F6, v.base_topic, t7 + empty);
    lemma_dec_tagged_u8_enc(TAG_F7, v.qos, empty);
    assert(t7 + empty =~= t7);
}

// Executable writers. Each appends one encoded item to the output buffer.
fn push_str(out: &mut Vec<u8>, s: &str)
    ensures
        final(out)@ == old(out)@ + enc_str(s@),
        str_fits(s@),
{
    let bs = s.as_bytes();
    let n = bs.len();
    let mut lv = u64_to_le_bytes(n as u64);
    out.append(&mut lv);
    let mut bv = slice_to_vec(bs);
    out.append(&mut bv);
    proof {
        assert(out@ =~= old(out)@ + enc_str(s@));
    }
}

fn push_tagged_str(out: &mut Vec<u8>, tag: u8, s: &str)
    ensures
        final(out)@ == old(out)@ + enc_tagged_str(tag, s@),
        str_fits(s@),
{
    out.push(tag);
    push_str(out, s);
    proof {
        assert(out@ =~= old(out)@ + enc_tagged_str(tag, s@));
    }
}

fn push_tagged_opt_str(out: &mut Vec<u8>, tag: u8, o: &Option<String>)
    ensures
        final(out)@ == old(out)@ + enc_tagged_opt_str(
            tag,
            match o {
                Some(s) => Some(s@),
                None => None,
            },
        ),
        o matches Some(s) ==> str_fits(s@),
{
    out.push(tag);
    match o {
        None => {
            out.push(0);
            proof {
                assert(out@ =~= old(out)@ + enc_tagged_opt_str(tag, None));
            }
        },
        Some(s) => {
            out.push(1);
            push_str(out, s.as_str());
            proof {
                assert(out@ =~= old(out)@ + enc_tagged_opt_str(tag, Some(s@)));
            }
        },
    }
}

fn push_tagged_opt_u8(out: &mut Vec<u8>, tag: u8, o: &Option<u8>)
    ensures
        final(out)@ == old(out)@ + enc_tagged_opt_u8(tag, *o),
{
    out.push(tag);
    match o {
        None => {
            out.push(0);
            proof {
                assert(out@ =~= old(out)@ + enc_tagged_opt_u8(tag, None));
            }
        },
        Some(v) => {
            out.push(1);
            out.push(*v);
            proof {
                assert(out@ =~= old(out)@ + enc_tagged_opt_u8(tag, Some(*v)));
            }
        },
    }
}

fn push_tagged_u8(out: &mut Vec<u8>, tag: u8, v: u8)
    ensures
        final(out)@ == old(out)@ + enc_tagged_u8(tag, v),
{
    out.push(tag);
    out.push(v);
    proof {
        assert(out@ =~= old(out)@ + enc_tagged_u8(tag, v));
    }
}

/// Encodes a wireless record into its byte payload.
pub fn encode_wifi_record(w: &Wifi) -> (r: Vec<u8>)
    ensures
        r@ == encode_wifi(w@),
        wifi_fits(w@),
{
    let mut out: Vec<u8> = Vec::new();
    out.push(KIND_WIFI);
    push_tagged_str(&mut out, TAG_KEY, w.nvs.as_str());
    push_tagged_opt_str(&mut out, TAG_F2, &w.ssid);
    push_tagged_opt_str(&mut out, TAG_F3, &w.pass);
    push_tagged_opt_u8(&mut out, TAG_F4, &w.channel);
    proof {
        assert(out@ =~= encode_wifi(w@));
    }
    out
}

/// Encodes a battery-management record into its byte payload.
pub fn encode_bms_record(v: &BmsSettings) -> (r: Vec<u8>)
    ensures
        r@ == encode_bms(v@),
        bms_fits(v@),
{
    let mut out: Vec<u8> = Vec::new();
    out.push(KIND_BMS);
    push_tagged_str(&mut out, TAG_KEY, v.nvs.as_str());
    proof {
        assert(out@ =~= encode_bms(v@));
    }
    out
}

/// Encodes a message-broker record into its byte payload.
pub fn encode_mqtt_record(v: &MqttSettings) -> (r: Vec<u8>)
    ensures
        r@ == encode_mqtt(v@),
        mqtt_fits(v@),
{
    let mut out: Vec<u8> = Vec::new();
    out.push(KIND_MQTT);
    push_tagged_str(&mut out, TAG_KEY, v.nvs.as_str());
    push_tagged_str(&mut out, TAG_F2, v.address.as_str());
    push_tagged_str(&mut out, TAG_F3, v.username.as_str());
    push_tagged_str(&mut out, TAG_F4, v.password.as_str());
    push_tagged_str(&mut out, TAG_F5, v.client_id.as_str());
    push_tagged_str(&mut out, TAG_F6, v.base_topic.as_str());
    push_tagged_u8(&mut out, TAG_F7, v.qos);
    proof {
        assert(out@ =~= encode_mqtt(v@));
    }
    out
}

/// Relies on String::from_utf8: it succeeds exactly on valid UTF-8 input
/// and yields the characters that the bytes encode.
#[verifier::external_body]
fn bytes_to_string(v: Vec<u8>) -> (r: Option<String>)
    ensures
        r is Some <==> valid_utf8(v@),
        r matches Some(s) ==> s@ == decode_utf8(v@),
{
    String::from_utf8(v).ok()
}

// Executable readers, mirroring the decoders above: each reads one item
// from the front of the input slice and returns it with the unread rest.
fn take_u64<'a>(b: &'a [u8]) -> (r: Option<(u64, &'a [u8])>)
    ensures
        match r {
            Some(p) => dec_u64(b@) == Some((p.0, p.1@)),
            None => dec_u64(b@) is None,
        },
{
    if b.len() >= 8 {
        let lo = slice_subrange(b, 0, 8);
        let x = u64_from_le_bytes(lo);
        let rest = slice_subrange(b, 8, b.len());
        Some((x, rest))
    } else {
        None
    }
}

fn take_bytes<'a>(b: &'a [u8]) -> (r: Option<(&'a [u8], &'a [u8])>)
    ensures
        match r {
            Some(p) => dec_bytes(b@) == Some((p.0@, p.1@)),
            None => dec_bytes(b@) is None,
        },
{
    match take_u64(b) {
        Some((n, r1)) => if n <= r1.len() as u64 {
            let nn = n as usize;
            let p = slice_subrange(r1, 0, nn);
            let rest = slice_subrange(r1, nn, r1.len());
            Some((p, rest))
        } else {
            None
        },
        None => None,
    }
}

fn take_string<'a>(b: &'a [u8]) -> (r: Option<(String, &'a [u8])>)
    ensures
        match r {
            Some(p) => dec_str(b@) == Some((p.0@, p.1@)),
            None => dec_str(b@) is None,
        },
{
    match take_bytes(b) {
        Some((p, rest)) => {
            let v = slice_to_vec(p);
            match bytes_to_string(v) {
                Some(s) => Some((s, rest)),
                None => None,
            }
        },
        None => None,
    }
}

fn take_tag<'a>(b: &'a [u8], tag: u8) -> (r: Option<&'a [u8]>)
    ensures
        match r {
            Some(rest) => dec_tag(b@, tag) == Some(rest@),
            None => dec_tag(b@, tag) is None,
        },
{
    if b.len() >= 1 && *slice_index_get(b, 0) == tag {
        Some(slice_subrange(b, 1, b.len()))
    } else {
        None
    }
}

fn take_tagged_string<'a>(b: &'a [u8], tag: u8) -> (r: Option<(String, &'a [u8])>)
    ensures
        match r {
            Some(p) => dec_tagged_str(b@, tag) == Some((p.0@, p.1@)),
            None => dec_tagged_str(b@, tag) is None,
        },
{
    match take_tag(b, tag) {
        Some(r1) => take_string(r1),
        None => None,
    }
}

fn take_tagged_opt_string<'a>(b: &'a [u8], tag: u8) -> (r: Option<(Option<String>, &'a [u8])>)
    ensures
        match r {
            Some(p) => dec_tagged_opt_str(b@, tag) == Some(
                (
                    match p.0 {
                        Some(s) => Some(s@),
                        None => None,
                    },
                    p.1@,
                ),
            ),
            None => dec_tagged_opt_str(b@, tag) is None,
        },
{
    match take_tag(b, tag) {
        Some(r1) => if r1.len() >= 1 && *slice_index_get(r1, 0) == 0 {
            Some((None, slice_subrange(r1, 1, r1.len())))
        } else if r1.len() >= 1 && *slice_index_get(r1, 0) == 1 {
            match take_string(slice_subrange(r1, 1, r1.len())) {
                Some((s, r2)) => Some((Some(s), r2)),
                None => None,
            }
        } else {
            None
        },
        None => None,
    }
}

fn take_tagged_opt_u8<'a>(b: &'a [u8], tag: u8) -> (r: Option<(Option<u8>, &'a [u8])>)
    ensures
        match r {
            Some(p) => dec_tagged_opt_u8(b@, tag) == Some((p.0, p.1@)),
            None => dec_tagged_opt_u8(b@, tag) is None,
        },
{
    match take_tag(b, tag) {
        Some(r1) => if r1.len() >= 1 && *slice_index_get(r1, 0) == 0 {
            Some((None, slice_subrange(r1, 1, r1.len())))
        } else if r1.len() >= 2 && *slice_index_get(r1, 0) == 1 {
            Some((Some(*slice_index_get(r1, 1)), slice_subrange(r1, 2, r1.len())))
        } else {
            None
        },
        None => None,
    }
}

fn take_tagged_u8<'a>(b: &'a [u8], tag: u8) -> (r: Option<(u8, &'a [u8])>)
    ensures
        match r {
            Some(p) => dec_tagged_u8(b@, tag) == Some((p.0, p.1@)),
            None => dec_tagged_u8(b@, tag) is None,
        },
{
    match take_tag(b, tag) {
        Some(r1) => if r1.len() >= 1 {
            Some((*slice_index_get(r1, 0), slice_subrange(r1, 1, r1.len())))
        } else {
            None
        },
        None => None,
    }
}

/// Decodes a wireless record from a byte payload; fails exactly where the
/// decoder above fails.
pub fn decode_wifi_record(b: &[u8]) -> (r: Option<Wifi>)
    ensures
        match r {
            Some(w) => decode_wifi(b@) == Some(w@),
            None => decode_wifi(b@) is None,
        },
{
    match take_tag(b, KIND_WIFI) {
        Some(b0) => match take_tagged_string(b0, TAG_KEY) {
            Some((nvs, b1)) => match take_tagged_opt_string(b1, TAG_F2) {
                Some((ssid, b2)) => match take_tagged_opt_string(b2, TAG_F3) {
                    Some((pass, b3)) => match take_tagged_opt_u8(b3, TAG_F4) {
                        Some((channel, b4)) => if b4.len() == 0 {
                            Some(Wifi { nvs, ssid, pass, channel })
                        } else {
                            None
                        },
                        None => None,
                    },
                    None => None,
                },
                None => None,
            },
            None => None,
        },
        None => None,
    }
}

/// Decodes a battery-management record from a byte payload.
pub fn decode_bms_record(b: &[u8]) -> (r: Option<BmsSettings>)
    ensures
        match r {
            Some(v) => decode_bms(b@) == Some(v@),
            None => decode_bms(b@) is None,
        },
{
    match take_tag(b, KIND_BMS) {
        Some(b0) => match take_tagged_string(b0, TAG_KEY) {
            Some((nvs, b1)) => if b1.len() == 0 {
                Some(BmsSettings { nvs })
            } else {
                None
            },
            None => None,
        },
        None => None,
    }
}

/// Decodes a message-broker record from a byte payload.
pub fn decode_mqtt_record(b: &[u8]) -> (r: Option<MqttSettings>)
    ensures
        match r {
            Some(v) => decode_mqtt(b@) == Some(v@),
            None => decode_mqtt(b@) is None,
        },
{
    match take_tag(b, KIND_MQTT) {
        Some(b0) => match take_tagged_string(b0, TAG_KEY) {
            Some((nvs, b1)) => match take_tagged_string(b1, TAG_F2) {
                Some((address, b2)) => match take_tagged_string(b2, TAG_F3) {
                    Some((username, b3)) => match take_tagged_string(b3, TAG_F4) {
                        Some((password, b4)) => match take_tagged_string(b4, TAG_F5) {
                            Some((client_id, b5)) => match take_tagged_string(b5, TAG_F6) {
                                Some((base_topic, b6)) => match take_tagged_u8(b6, TAG_F7) {
                                    Some((qos, b7)) => if b7.len() == 0 {
                                        Some(
                                            MqttSettings {
                                                nvs,
                                                address,
                                                username,
                                                password,
                                                client_id,
                                                base_topic,
                                                qos,
                                            },
                                        )
                                    } else {
                                        None
                                    },
                                    None => None,
                                },
                                None => None,
                            },
                            None => None,
                        },
                        None => None,
                    },
                    None => None,
                },
                None => None,
            },
            None => None,
        },
        None => None,
    }
}

} // verus!
