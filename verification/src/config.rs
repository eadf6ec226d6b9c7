//! The configuration set: the four settings records the device persists,
//! each under a canonical store key, loaded or recreated all-or-nothing at
//! boot.

use vstd::prelude::*;
use crate::codec::bms_fits;
use crate::codec::decode_bms;
use crate::codec::decode_bms_record;
use crate::codec::decode_mqtt;
use crate::codec::decode_mqtt_record;
use crate::codec::decode_wifi;
use crate::codec::decode_wifi_record;
use crate::codec::encode_bms;
use crate::codec::encode_bms_record;
use crate::codec::encode_mqtt;
use crate::codec::encode_mqtt_record;
use crate::codec::encode_wifi;
use crate::codec::encode_wifi_record;
use crate::codec::lemma_bms_roundtrip;
use crate::codec::lemma_mqtt_roundtrip;
use crate::codec::lemma_wifi_roundtrip;
use crate::codec::mqtt_fits;
use crate::codec::wifi_fits;
use crate::records::BmsSettings;
use crate::records::BmsSettingsView;
use crate::records::MqttSettings;
use crate::records::MqttSettingsView;
use crate::records::Wifi;
use crate::records::WifiView;
use crate::store::NvsStorage;
use crate::store::NvsStore;
use crate::store::StoreError;

verus! {

/// Faults of the configuration layer: a store fault carried upward, or a
/// stored payload that does not decode as the expected record.
#[derive(Debug, PartialEq, Eq, Structural, Clone, Copy)]
pub enum ConfigError {
    Store(StoreError),
    Corrupt,
}

/// A settings record that can be persisted: it knows its store key and its
/// serialized form, and reading back what was written yields the record
/// unchanged. The record-level persistence logic is shared here; each
/// record type supplies only its key, codec and round-trip proof.
pub trait NvsStruct: View + Sized {
    /// The store key of the record.
    spec fn rec_key(v: Self::V) -> Seq<char>;

    /// The record with its key replaced and all else kept.
    spec fn with_key(v: Self::V, k: Seq<char>) -> Self::V;

    /// The serialized payload of the record.
    spec fn rec_enc(v: Self::V) -> Seq<u8>;

    /// The decoder of the payload.
    spec fn rec_dec(b: Seq<u8>) -> Option<Self::V>;

    /// Whether every string of the record fits its length prefix.
    spec fn rec_fits(v: Self::V) -> bool;

    /// Decoding an encoded record yields the record back.
    proof fn lemma_rec_roundtrip(v: Self::V)
        requires
            Self::rec_fits(v),
        ensures
            Self::rec_dec(Self::rec_enc(v)) == Some(v),
    ;

    /// The key this record is stored under.
    fn nvs_key(&self) -> (k: &String)
        ensures
            k@ == Self::rec_key(self@),
    ;

    /// Assigns the store key, keeping all other fields.
    fn set_nvs_key(&mut self, key: String)
        ensures
            final(self)@ == Self::with_key(old(self)@, key@),
    ;

    /// Serializes the record.
    fn encode_record(&self) -> (r: Vec<u8>)
        ensures
            r@ == Self::rec_enc(self@),
            Self::rec_fits(self@),
    ;

    /// Deserializes a record; fails exactly where the decoder fails.
    fn decode_record(b: &[u8]) -> (r: Option<Self>)
        ensures
            match r {
                Some(v) => Self::rec_dec(b@) == Some(v@),
                None => Self::rec_dec(b@) is None,
            },
    ;

    /// Loads the record stored under this record's key, replacing `self`
    /// only on success. Key absence and an undecodable payload are
    /// surfaced, never papered over with defaults; the caller decides.
    fn read_from_nvs(&mut self, store: &NvsStore) -> (r: Result<(), ConfigError>)
        ensures
            match r {
                Ok(()) => store@.contains_key(Self::rec_key(old(self)@)) && Self::rec_dec(
                    store@[Self::rec_key(old(self)@)],
                ) == Some(final(self)@),
                Err(e) => final(self)@ == old(self)@ && match e {
                    ConfigError::Store(StoreError::NotFound) => !store@.contains_key(
                        Self::rec_key(old(self)@),
                    ),
                    ConfigError::Corrupt => store@.contains_key(Self::rec_key(old(self)@))
                        && Self::rec_dec(store@[Self::rec_key(old(self)@)]) is None,
                    _ => false,
                },
            },
    {
        let r = store.get_val(self.nvs_key().as_str());
        match r {
            Ok(bytes) => match Self::decode_record(bytes.as_slice()) {
                Some(rec) => {
                    *self = rec;
                    Ok(())
                },
                None => Err(ConfigError::Corrupt),
            },
            Err(e) => Err(ConfigError::Store(e)),
        }
    }

    /// Serializes the record and writes it under its key. Fails exactly
    /// when the key is empty, which is a caller defect (the record was
    /// never given its key) and must be treated as fatal by the caller.
    fn write_to_nvs(&self, store: &mut NvsStore) -> (r: Result<(), ConfigError>)
        ensures
            match r {
                Ok(()) => Self::rec_key(self@).len() > 0 && final(store)@ == old(store)@.insert(
                    Self::rec_key(self@),
                    Self::rec_enc(self@),
                ),
                Err(e) => Self::rec_key(self@).len() == 0 && e == ConfigError::Store(
                    StoreError::InvalidKey,
                ) && final(store)@ == old(store)@,
            },
    {
        let payload = self.encode_record();
        match store.set_val(self.nvs_key().as_str(), payload.as_slice()) {
            Ok(_) => Ok(()),
            Err(e) => Err(ConfigError::Store(e)),
        }
    }
}

impl NvsStruct for Wifi {
    open spec fn rec_key(v: WifiView) -> Seq<char> {
        v.nvs
    }

    open spec fn with_key(v: WifiView, k: Seq<char>) -> WifiView {
        WifiView { nvs: k, ..v }
    }

    open spec fn rec_enc(v: WifiView) -> Seq<u8> {
        encode_wifi(v)
    }

    open spec fn rec_dec(b: Seq<u8>) -> Option<WifiView> {
        decode_wifi(b)
    }

    open spec fn rec_fits(v: WifiView) -> bool {
        wifi_fits(v)
    }

    proof fn lemma_rec_roundtrip(v: WifiView) {
        lemma_wifi_roundtrip(v);
    }

    fn nvs_key(&self) -> (k: &String) {
        &self.nvs
    }

    fn set_nvs_key(&mut self, key: String) {
        self.nvs = key;
    }

    fn encode_record(&self) -> (r: Vec<u8>) {
        let r = encode_wifi_record(self);
        proof {
            assert(<Wifi as NvsStruct>::rec_fits(self@));
        }
        r
    }

    fn decode_record(b: &[u8]) -> (r: Option<Wifi>) {
        decode_wifi_record(b)
    }
}

impl NvsStruct for BmsSettings {
    open spec fn rec_key(v: BmsSettingsView) -> Seq<char> {
        v.nvs
    }

    open spec fn with_key(v: BmsSettingsView, k: Seq<char>) -> BmsSettingsView {
        BmsSettingsView { nvs: k }
    }

    open spec fn rec_enc(v: BmsSettingsView) -> Seq<u8> {
        encode_bms(v)
    }

    open spec fn rec_dec(b: Seq<u8>) -> Option<BmsSettingsView> {
        decode_bms(b)
    }

    open spec fn rec_fits(v: BmsSettingsView) -> bool {
        bms_fits(v)
    }

    proof fn lemma_rec_roundtrip(v: BmsSettingsView) {
        lemma_bms_roundtrip(v);
    }

    fn nvs_key(&self) -> (k: &String) {
        &self.nvs
    }

    fn set_nvs_key(&mut self, key: String) {
        self.nvs = key;
    }

    fn encode_record(&self) -> (r: Vec<u8>) {
        let r = encode_bms_record(self);
        proof {
            assert(<BmsSettings as NvsStruct>::rec_fits(self@));
        }
        r
    }

    fn decode_record(b: &[u8]) -> (r: Option<BmsSettings>) {
        decode_bms_record(b)
    }
}

impl NvsStruct for MqttSettings {
    open spec fn rec_key(v: MqttSettingsView) -> Seq<char> {
        v.nvs
    }

    open spec fn with_key(v: MqttSettingsView, k: Seq<char>) -> MqttSettingsView {
        MqttSettingsView { nvs: k, ..v }
    }

    open spec fn rec_enc(v: MqttSettingsView) -> Seq<u8> {
        encode_mqtt(v)
    }

    open spec fn rec_dec(b: Seq<u8>) -> Option<MqttSettingsView> {
        decode_mqtt(b)
    }

    open spec fn rec_fits(v: MqttSettingsView) -> bool {
        mqtt_fits(v)
    }

    proof fn lemma_rec_roundtrip(v: MqttSettingsView) {
        lemma_mqtt_roundtrip(v);
    }

    fn nvs_key(&self) -> (k: &String) {
        &self.nvs
    }

    fn set_nvs_key(&mut self, key: String) {
        self.nvs = key;
    }

    fn encode_record(&self) -> (r: Vec<u8>) {
        let r = encode_mqtt_record(self);
        proof {
            assert(<MqttSettings as NvsStruct>::rec_fits(self@));
        }
        r
    }

    fn decode_record(b: &[u8]) -> (r: Option<MqttSettings>) {
        decode_mqtt_record(b)
    }
}

/// The canonical store key of the access-point record.
pub open spec fn ap_key() -> Seq<char> {
    "ap"@
}

/// The canonical store key of the station record.
pub open spec fn sta_key() -> Seq<char> {
    "sta"@
}

/// The canonical store key of the battery-management record.
pub open spec fn bms_key() -> Seq<char> {
    "bms"@
}

/// The canonical store key of the message-broker record.
pub open spec fn mqtt_key() -> Seq<char> {
    "mqtt"@
}

/// The domain defaults assigned at initialization: station and
/// access-point credentials used whenever the store holds no valid
/// configuration.
pub struct ConfigDefaults {
    pub sta_ssid: String,
    pub sta_pass: String,
    pub ap_ssid: String,
    pub ap_pass: String,
}

/// The abstract value of [`ConfigDefaults`].
#[verifier::ext_equal]
pub struct DefaultsView {
    pub sta_ssid: Seq<char>,
    pub sta_pass: Seq<char>,
    pub ap_ssid: Seq<char>,
    pub ap_pass: Seq<char>,
}

impl View for ConfigDefaults {
    type V = DefaultsView;

    open spec fn view(&self) -> DefaultsView {
        DefaultsView {
            sta_ssid: self.sta_ssid@,
            sta_pass: self.sta_pass@,
            ap_ssid: self.ap_ssid@,
            ap_pass: self.ap_pass@,
        }
    }
}

/// The configuration set: exactly one station record, one access-point
/// record, and the two device-settings records. Constructed empty at boot
/// and filled by [`AppConfiguration::init`]; never partially valid.
pub struct AppConfiguration {
    pub sta: Wifi,
    pub ap: Wifi,
    pub bms: BmsSettings,
    pub mqtt: MqttSettings,
}

/// The abstract value of an [`AppConfiguration`].
#[verifier::ext_equal]
pub struct ConfigView {
    pub sta: WifiView,
    pub ap: WifiView,
    pub bms: BmsSettingsView,
    pub mqtt: MqttSettingsView,
}

impl View for AppConfiguration {
    type V = ConfigView;

    open spec fn view(&self) -> ConfigView {
        ConfigView { sta: self.sta@, ap: self.ap@, bms: self.bms@, mqtt: self.mqtt@ }
    }
}

/// Whether the store holds all four canonical keys; initialization loads
/// existing records exactly in this case.
pub open spec fn all_keys_present(m: Map<Seq<char>, Seq<u8>>) -> bool {
    &&& m.contains_key(ap_key())
    &&& m.contains_key(sta_key())
    &&& m.contains_key(bms_key())
    &&& m.contains_key(mqtt_key())
}

/// The store with all four canonical keys erased.
pub open spec fn erase_all(m: Map<Seq<char>, Seq<u8>>) -> Map<Seq<char>, Seq<u8>> {
    m.remove(ap_key()).remove(sta_key()).remove(bms_key()).remove(mqtt_key())
}

/// The store after writing every record of `c` under its own key, in the
/// order access-point, station, battery, broker.
pub open spec fn store_records(m: Map<Seq<char>, Seq<u8>>, c: ConfigView) -> Map<
    Seq<char>,
    Seq<u8>,
> {
    m.insert(c.ap.nvs, encode_wifi(c.ap)).insert(c.sta.nvs, encode_wifi(c.sta)).insert(
        c.bms.nvs,
        encode_bms(c.bms),
    ).insert(c.mqtt.nvs, encode_mqtt(c.mqtt))
}

/// The configuration with canonical keys and domain defaults assigned:
/// fixed access-point credentials on channel 1, station credential
/// placeholders; fields without a default keep their value.
pub open spec fn with_defaults(c: ConfigView, d: DefaultsView) -> ConfigView {
    ConfigView {
        ap: WifiView {
            nvs: ap_key(),
            ssid: Some(d.ap_ssid),
            pass: Some(d.ap_pass),
            channel: Some(1u8),
        },
        sta: WifiView {
            nvs: sta_key(),
            ssid: Some(d.sta_ssid),
            pass: Some(d.sta_pass),
            channel: c.sta.channel,
        },
        bms: BmsSettingsView { nvs: bms_key() },
        mqtt: MqttSettingsView { nvs: mqtt_key(), ..c.mqtt },
    }
}

/// The records decoded from the four canonical keys, or nothing if any one
/// of them does not decode.
pub open spec fn load_all(m: Map<Seq<char>, Seq<u8>>) -> Option<ConfigView> {
    match (decode_wifi(m[ap_key()]), decode_wifi(m[sta_key()]), decode_bms(m[bms_key()]),
    decode_mqtt(m[mqtt_key()])) {
        (Some(ap), Some(sta), Some(bms), Some(mqtt)) => Some(ConfigView { sta, ap, bms, mqtt }),
        _ => None,
    }
}

/// What initialization does: load all four records if every canonical key
/// is present (failing whole if any single one does not decode, with the
/// store untouched), else erase all four keys and write fresh defaults.
/// Never a mix of loaded and default records.
pub open spec fn init_spec(m: Map<Seq<char>, Seq<u8>>, c: ConfigView, d: DefaultsView) -> (Option<
    ConfigView,
>, Map<Seq<char>, Seq<u8>>) {
    if all_keys_present(m) {
        (load_all(m), m)
    } else {
        let c1 = with_defaults(c, d);
        (Some(c1), store_records(erase_all(m), c1))
    }
}

/// Whether every string of every record fits its length prefix.
pub open spec fn config_fits(c: ConfigView) -> bool {
    &&& wifi_fits(c.ap)
    &&& wifi_fits(c.sta)
    &&& bms_fits(c.bms)
    &&& mqtt_fits(c.mqtt)
}

/// The key of each record replaced by its canonical key where it is empty;
/// a record that already has a key keeps it.
pub open spec fn fix_keys(c: ConfigView) -> ConfigView {
    ConfigView {
        ap: WifiView { nvs: if c.ap.nvs.len() == 0 { ap_key() } else { c.ap.nvs }, ..c.ap },
        sta: WifiView { nvs: if c.sta.nvs.len() == 0 { sta_key() } else { c.sta.nvs }, ..c.sta },
        bms: BmsSettingsView { nvs: if c.bms.nvs.len() == 0 { bms_key() } else { c.bms.nvs } },
        mqtt: MqttSettingsView {
            nvs: if c.mqtt.nvs.len() == 0 { mqtt_key() } else { c.mqtt.nvs },
            ..c.mqtt
        },
    }
}

impl AppConfiguration {
    /// Removes all four canonical keys from the store; a key that is
    /// already absent is no error.
    pub fn erase_values_in_nvs(&mut self, store: &mut NvsStore) -> (r: Result<(), ConfigError>)
        ensures
            r is Ok,
            final(store)@ == erase_all(old(store)@),
            final(self)@ == old(self)@,
    {
        store.remove("ap");
        store.remove("sta");
        store.remove("bms");
        store.remove("mqtt");
        Ok(())
    }

    /// Serializes every record and writes it under its key. A record whose
    /// key was left empty gets its canonical key assigned first, so this
    /// never fails; an empty key is still a defect worth flagging, and the
    /// caller learns of it through the changed key.
    pub fn store_values_to_nvs(&mut self, store: &mut NvsStore) -> (r: Result<(), ConfigError>)
        ensures
            r is Ok,
            final(self)@ == fix_keys(old(self)@),
            final(store)@ == store_records(old(store)@, fix_keys(old(self)@)),
    {
        proof {
            reveal_strlit("ap");
            reveal_strlit("sta");
            reveal_strlit("bms");
            reveal_strlit("mqtt");
        }
        if self.ap.nvs.as_str().is_empty() {
            self.ap.set_nvs_key("ap".to_owned());
        }
        match self.ap.write_to_nvs(store) {
            Ok(()) => (),
            Err(_) => {
                return Err(ConfigError::Corrupt);
            },
        }
        if self.sta.nvs.as_str().is_empty() {
            self.sta.set_nvs_key("sta".to_owned());
        }
        match self.sta.write_to_nvs(store) {
            Ok(()) => (),
            Err(_) => {
                return Err(ConfigError::Corrupt);
            },
        }
        if self.bms.nvs.as_str().is_empty() {
            self.bms.set_nvs_key("bms".to_owned());
        }
        match self.bms.write_to_nvs(store) {
            Ok(()) => (),
            Err(_) => {
                return Err(ConfigError::Corrupt);
            },
        }
        if self.mqtt.nvs.as_str().is_empty() {
            self.mqtt.set_nvs_key("mqtt".to_owned());
        }
        match self.mqtt.write_to_nvs(store) {
            Ok(()) => (),
            Err(_) => {
                return Err(ConfigError::Corrupt);
            },
        }
        proof {
            assert(final(self)@ =~= fix_keys(old(self)@));
            assert(final(store)@ =~= store_records(old(store)@, fix_keys(old(self)@)));
        }
        Ok(())
    }

    /// Brings the configuration set up from the store: assigns canonical
    /// keys and domain defaults to every record, then loads all four
    /// records if every canonical key is present — failing whole if any
    /// single record does not decode, never mixing loaded and default
    /// records — and otherwise erases all four keys and writes the fresh
    /// defaults.
    pub fn init(&mut self, store: &mut NvsStore, defaults: &ConfigDefaults) -> (r: Result<
        (),
        ConfigError,
    >)
        ensures
            ({
                let (oc, m2) = init_spec(old(store)@, old(self)@, defaults@);
                &&& final(store)@ == m2
                &&& match r {
                    Ok(()) => oc == Some(final(self)@),
                    Err(e) => {
                        &&& oc is None
                        &&& e == ConfigError::Corrupt
                        &&& final(self)@ == with_defaults(old(self)@, defaults@)
                    },
                }
            }),
    {
        proof {
            reveal_strlit("ap");
            reveal_strlit("sta");
            reveal_strlit("bms");
            reveal_strlit("mqtt");
        }
        self.ap = Wifi {
            nvs: "ap".to_owned(),
            ssid: Some(defaults.ap_ssid.clone()),
            pass: Some(defaults.ap_pass.clone()),
            channel: Some(1),
        };
        self.sta.set_nvs_key("sta".to_owned());
        self.sta.ssid = Some(defaults.sta_ssid.clone());
        self.sta.pass = Some(defaults.sta_pass.clone());
        self.bms.set_nvs_key("bms".to_owned());
        self.mqtt.set_nvs_key("mqtt".to_owned());
        proof {
            assert(self@ =~= with_defaults(old(self)@, defaults@));
        }
        let valid = store.contains("ap") && store.contains("sta") && store.contains("bms")
            && store.contains("mqtt");
        if valid {
            let ap_bytes = match store.get_val("ap") {
                Ok(b) => b,
                Err(_) => {
                    return Err(ConfigError::Corrupt);
                },
            };
            let w_ap = match Wifi::decode_record(ap_bytes.as_slice()) {
                Some(w) => w,
                None => {
                    return Err(ConfigError::Corrupt);
                },
            };
            let sta_bytes = match store.get_val("sta") {
                Ok(b) => b,
                Err(_) => {
                    return Err(ConfigError::Corrupt);
                },
            };
            let w_sta = match Wifi::decode_record(sta_bytes.as_slice()) {
                Some(w) => w,
                None => {
                    return Err(ConfigError::Corrupt);
                },
            };
            let bms_bytes = match store.get_val("bms") {
                Ok(b) => b,
                Err(_) => {
                    return Err(ConfigError::Corrupt);
                },
            };
            let w_bms = match BmsSettings::decode_record(bms_bytes.as_slice()) {
                Some(w) => w,
                None => {
                    return Err(ConfigError::Corrupt);
                },
            };
            let mqtt_bytes = match store.get_val("mqtt") {
                Ok(b) => b,
                Err(_) => {
                    return Err(ConfigError::Corrupt);
                },
            };
            let w_mqtt = match MqttSettings::decode_record(mqtt_bytes.as_slice()) {
                Some(w) => w,
                None => {
                    return Err(ConfigError::Corrupt);
                },
            };
            self.ap = w_ap;
            self.sta = w_sta;
            self.bms = w_bms;
            self.mqtt = w_mqtt;
            proof {
                assert(load_all(old(store)@) == Some(self@)) by {
                    assert(load_all(old(store)@) matches Some(c) && c =~= self@);
                }
            }
            Ok(())
        } else {
            match self.erase_values_in_nvs(store) {
                Ok(()) => (),
                Err(_) => {
                    return Err(ConfigError::Corrupt);
                },
            }
            match self.store_values_to_nvs(store) {
                Ok(()) => (),
                Err(_) => {
                    return Err(ConfigError::Corrupt);
                },
            }
            proof {
                assert(fix_keys(with_defaults(old(self)@, defaults@)) =~= with_defaults(
                    old(self)@,
                    defaults@,
                ));
            }
            Ok(())
        }
    }
}

/// The four canonical keys are pairwise distinct.
proof fn lemma_keys_distinct()
    ensures
        ap_key() != sta_key(),
        ap_key() != bms_key(),
        ap_key() != mqtt_key(),
        sta_key() != bms_key(),
        sta_key() != mqtt_key(),
        bms_key() != mqtt_key(),
{
    reveal_strlit("ap");
    reveal_strlit("sta");
    reveal_strlit("bms");
    reveal_strlit("mqtt");
    assert(ap_key().len() == 2 && sta_key().len() == 3 && bms_key().len() == 3 && mqtt_key().len()
        == 4);
    assert(sta_key()[0] == 's' && bms_key()[0] == 'b');
}

/// Initialization is idempotent: whenever it succeeds, running it again on
/// the store it left behind loads back exactly the records it produced and
/// leaves the store untouched.
pub proof fn lemma_initialize_idempotent(
    m: Map<Seq<char>, Seq<u8>>,
    c: ConfigView,
    d: DefaultsView,
)
    requires
        config_fits(with_defaults(c, d)),
    ensures
        ({
            let (o1, m1) = init_spec(m, c, d);
            o1 matches Some(c1) ==> init_spec(m1, c1, d) == (Some(c1), m1)
        }),
{
    let (o1, m1) = init_spec(m, c, d);
    if !all_keys_present(m) && o1 is Some {
        let c1 = with_defaults(c, d);
        lemma_keys_distinct();
        assert(all_keys_present(m1));
        assert(m1[ap_key()] == encode_wifi(c1.ap));
        assert(m1[sta_key()] == encode_wifi(c1.sta));
        assert(m1[bms_key()] == encode_bms(c1.bms));
        assert(m1[mqtt_key()] == encode_mqtt(c1.mqtt));
        lemma_wifi_roundtrip(c1.ap);
        lemma_wifi_roundtrip(c1.sta);
        lemma_bms_roundtrip(c1.bms);
        lemma_mqtt_roundtrip(c1.mqtt);
        assert(load_all(m1) matches Some(c2) && c2 =~= c1);
    }
}

/// If any one of the four canonical keys is absent, initialization erases
/// and recreates all four — never just the missing one — and afterwards
/// each canonical key holds the freshly encoded default record.
pub proof fn lemma_missing_key_resets_all(
    m: Map<Seq<char>, Seq<u8>>,
    c: ConfigView,
    d: DefaultsView,
)
    requires
        !all_keys_present(m),
    ensures
        ({
            let (o, m2) = init_spec(m, c, d);
            let c1 = with_defaults(c, d);
            &&& o == Some(c1)
            &&& m2 == store_records(erase_all(m), c1)
            &&& all_keys_present(m2)
            &&& m2[ap_key()] == encode_wifi(c1.ap)
            &&& m2[sta_key()] == encode_wifi(c1.sta)
            &&& m2[bms_key()] == encode_bms(c1.bms)
            &&& m2[mqtt_key()] == encode_mqtt(c1.mqtt)
        }),
{
    lemma_keys_distinct();
}

} // verus!
