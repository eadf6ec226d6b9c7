use firmware_core::codec::decode_bms_record;
use firmware_core::codec::decode_mqtt_record;
use firmware_core::codec::decode_wifi_record;
use firmware_core::codec::encode_bms_record;
use firmware_core::codec::encode_mqtt_record;
use firmware_core::codec::encode_wifi_record;
use firmware_core::config::AppConfiguration;
use firmware_core::config::ConfigDefaults;
use firmware_core::config::ConfigError;
use firmware_core::config::NvsStruct;
use firmware_core::form::apply_station_credentials;
use firmware_core::form::parse_station_credentials;
use firmware_core::records::BmsSettings;
use firmware_core::records::MqttSettings;
use firmware_core::records::Wifi;
use firmware_core::store::NvsStorage;
use firmware_core::store::NvsStore;
use firmware_core::store::StoreError;

fn wifi_record(key: &str, ssid: Option<&str>, pass: Option<&str>, channel: Option<u8>) -> Wifi {
    Wifi {
        nvs: key.to_string(),
        ssid: ssid.map(|s| s.to_string()),
        pass: pass.map(|s| s.to_string()),
        channel,
    }
}

fn empty_config() -> AppConfiguration {
    AppConfiguration {
        sta: wifi_record("", None, None, None),
        ap: wifi_record("", None, None, None),
        bms: BmsSettings { nvs: String::new() },
        mqtt: MqttSettings {
            nvs: String::new(),
            address: String::new(),
            username: String::new(),
            password: String::new(),
            client_id: String::new(),
            base_topic: String::new(),
            qos: 0,
        },
    }
}

fn defaults() -> ConfigDefaults {
    ConfigDefaults {
        sta_ssid: "sta-default".to_string(),
        sta_pass: "sta-secret".to_string(),
        ap_ssid: "ap-default".to_string(),
        ap_pass: "ap-secret".to_string(),
    }
}

#[test]
fn store_put_get_roundtrip() {
    let mut store = NvsStore::new();
    let changed = store.set_val("key1", b"value").unwrap();
    assert!(changed);
    assert_eq!(store.get_val("key1").unwrap(), b"value".to_vec());
}

#[test]
fn store_get_missing_is_not_found() {
    let store = NvsStore::new();
    assert_eq!(store.get_val("absent").unwrap_err(), StoreError::NotFound);
}

#[test]
fn store_put_empty_key_is_invalid() {
    let mut store = NvsStore::new();
    assert_eq!(store.set_val("", b"x").unwrap_err(), StoreError::InvalidKey);
    assert!(!store.contains(""));
}

#[test]
fn store_put_reports_whether_value_changed() {
    let mut store = NvsStore::new();
    assert!(store.set_val("k", b"a").unwrap());
    assert!(!store.set_val("k", b"a").unwrap());
    assert!(store.set_val("k", b"b").unwrap());
}

#[test]
fn store_remove_is_idempotent() {
    let mut store = NvsStore::new();
    store.set_val("k", b"a").unwrap();
    store.remove("k");
    assert!(!store.contains("k"));
    store.remove("k");
    assert!(!store.contains("k"));
}

#[test]
fn wifi_record_roundtrips() {
    let rec = wifi_record("sta", Some("home"), Some("secret"), Some(6));
    let bytes = encode_wifi_record(&rec);
    let back = decode_wifi_record(bytes.as_slice()).unwrap();
    assert_eq!(back.nvs, "sta");
    assert_eq!(back.ssid, Some("home".to_string()));
    assert_eq!(back.pass, Some("secret".to_string()));
    assert_eq!(back.channel, Some(6));
}

#[test]
fn wifi_record_roundtrips_with_absent_fields() {
    let rec = wifi_record("ap", None, None, None);
    let bytes = encode_wifi_record(&rec);
    let back = decode_wifi_record(bytes.as_slice()).unwrap();
    assert_eq!(back.nvs, "ap");
    assert_eq!(back.ssid, None);
    assert_eq!(back.pass, None);
    assert_eq!(back.channel, None);
}

#[test]
fn wifi_record_roundtrips_outside_ascii() {
    let rec = wifi_record("sta", Some("caf\u{e9} \u{1f4f6}"), Some("p\u{e4}ss"), None);
    let bytes = encode_wifi_record(&rec);
    let back = decode_wifi_record(bytes.as_slice()).unwrap();
    assert_eq!(back.ssid, Some("caf\u{e9} \u{1f4f6}".to_string()));
    assert_eq!(back.pass, Some("p\u{e4}ss".to_string()));
}

#[test]
fn bms_record_encodes_exactly() {
    let rec = BmsSettings { nvs: "bms".to_string() };
    let bytes = encode_bms_record(&rec);
    let mut expected = vec![0x42u8, 1];
    expected.extend_from_slice(&3u64.to_le_bytes());
    expected.extend_from_slice(b"bms");
    assert_eq!(bytes, expected);
    let back = decode_bms_record(bytes.as_slice()).unwrap();
    assert_eq!(back.nvs, "bms");
}

#[test]
fn mqtt_record_roundtrips() {
    let rec = MqttSettings {
        nvs: "mqtt".to_string(),
        address: "broker.local:1883".to_string(),
        username: "user".to_string(),
        password: "pw".to_string(),
        client_id: "dev-1".to_string(),
        base_topic: "home/dev".to_string(),
        qos: 1,
    };
    let bytes = encode_mqtt_record(&rec);
    let back = decode_mqtt_record(bytes.as_slice()).unwrap();
    assert_eq!(back.nvs, "mqtt");
    assert_eq!(back.address, "broker.local:1883");
    assert_eq!(back.username, "user");
    assert_eq!(back.password, "pw");
    assert_eq!(back.client_id, "dev-1");
    assert_eq!(back.base_topic, "home/dev");
    assert_eq!(back.qos, 1);
}

#[test]
fn decode_rejects_garbage() {
    assert!(decode_wifi_record(b"not a record").is_none());
    assert!(decode_bms_record(&[]).is_none());
    assert!(decode_mqtt_record(&[0x4d, 1, 9]).is_none());
}

#[test]
fn decode_rejects_trailing_bytes() {
    let rec = BmsSettings { nvs: "bms".to_string() };
    let mut bytes = encode_bms_record(&rec);
    bytes.push(0);
    assert!(decode_bms_record(bytes.as_slice()).is_none());
}

#[test]
fn decode_rejects_wrong_kind() {
    let rec = BmsSettings { nvs: "bms".to_string() };
    let bytes = encode_bms_record(&rec);
    assert!(decode_wifi_record(bytes.as_slice()).is_none());
}

#[test]
fn init_on_empty_store_writes_four_defaults() {
    let mut store = NvsStore::new();
    let mut config = empty_config();
    config.init(&mut store, &defaults()).unwrap();
    assert!(store.contains("ap"));
    assert!(store.contains("sta"));
    assert!(store.contains("bms"));
    assert!(store.contains("mqtt"));
    assert_eq!(config.ap.ssid, Some("ap-default".to_string()));
    assert_eq!(config.ap.pass, Some("ap-secret".to_string()));
    assert_eq!(config.ap.channel, Some(1));
    assert_eq!(config.sta.ssid, Some("sta-default".to_string()));
    assert_eq!(config.sta.pass, Some("sta-secret".to_string()));
    assert_eq!(config.bms.nvs, "bms");
    assert_eq!(config.mqtt.nvs, "mqtt");
}

#[test]
fn init_twice_loads_byte_identical_records() {
    let mut store = NvsStore::new();
    let mut config = empty_config();
    config.init(&mut store, &defaults()).unwrap();
    let first_ap = store.get_val("ap").unwrap();
    let first_sta = store.get_val("sta").unwrap();
    let mut again = empty_config();
    again.init(&mut store, &defaults()).unwrap();
    assert_eq!(store.get_val("ap").unwrap(), first_ap);
    assert_eq!(store.get_val("sta").unwrap(), first_sta);
    assert_eq!(encode_wifi_record(&again.ap), encode_wifi_record(&config.ap));
    assert_eq!(encode_wifi_record(&again.sta), encode_wifi_record(&config.sta));
    assert_eq!(encode_bms_record(&again.bms), encode_bms_record(&config.bms));
    assert_eq!(encode_mqtt_record(&again.mqtt), encode_mqtt_record(&config.mqtt));
}

#[test]
fn init_with_one_key_missing_recreates_all_four() {
    let mut store = NvsStore::new();
    let mut config = empty_config();
    config.init(&mut store, &defaults()).unwrap();
    // Plant a recognizable station record, then break one other key.
    let marked = wifi_record("sta", Some("kept?"), Some("kept?"), None);
    store.set_val("sta", encode_wifi_record(&marked).as_slice()).unwrap();
    store.remove("bms");
    let mut fresh = empty_config();
    fresh.init(&mut store, &defaults()).unwrap();
    // The surviving station record was erased and recreated too.
    let sta_back = decode_wifi_record(store.get_val("sta").unwrap().as_slice()).unwrap();
    assert_eq!(sta_back.ssid, Some("sta-default".to_string()));
    assert_eq!(fresh.sta.ssid, Some("sta-default".to_string()));
    assert!(store.contains("bms"));
}

#[test]
fn init_with_corrupt_record_fails_whole() {
    let mut store = NvsStore::new();
    let mut config = empty_config();
    config.init(&mut store, &defaults()).unwrap();
    store.set_val("mqtt", b"garbage").unwrap();
    let mut fresh = empty_config();
    let err = fresh.init(&mut store, &defaults()).unwrap_err();
    assert_eq!(err, ConfigError::Corrupt);
    // The store is left as it was: all-or-nothing, no default substitution.
    assert_eq!(store.get_val("mqtt").unwrap(), b"garbage".to_vec());
}

#[test]
fn init_loads_stored_records_when_all_keys_present() {
    let mut store = NvsStore::new();
    let mut config = empty_config();
    config.init(&mut store, &defaults()).unwrap();
    let stored = wifi_record("sta", Some("home"), Some("secret"), Some(11));
    store.set_val("sta", encode_wifi_record(&stored).as_slice()).unwrap();
    let mut fresh = empty_config();
    fresh.init(&mut store, &defaults()).unwrap();
    assert_eq!(fresh.sta.ssid, Some("home".to_string()));
    assert_eq!(fresh.sta.pass, Some("secret".to_string()));
    assert_eq!(fresh.sta.channel, Some(11));
}

#[test]
fn store_values_assigns_canonical_key_to_unkeyed_record() {
    let mut store = NvsStore::new();
    let mut config = empty_config();
    config.sta = wifi_record("", Some("home"), Some("secret"), None);
    config.ap = wifi_record("ap", None, None, None);
    config.bms.nvs = "bms".to_string();
    config.mqtt.nvs = "mqtt".to_string();
    config.store_values_to_nvs(&mut store).unwrap();
    assert_eq!(config.sta.nvs, "sta");
    assert!(store.contains("sta"));
}

#[test]
fn read_from_nvs_surfaces_absence_and_corruption() {
    let mut store = NvsStore::new();
    let mut rec = wifi_record("sta", None, None, None);
    assert_eq!(
        rec.read_from_nvs(&store).unwrap_err(),
        ConfigError::Store(StoreError::NotFound)
    );
    store.set_val("sta", b"junk").unwrap();
    assert_eq!(rec.read_from_nvs(&store).unwrap_err(), ConfigError::Corrupt);
    assert_eq!(rec.ssid, None);
}

#[test]
fn write_then_read_yields_equal_record() {
    let mut store = NvsStore::new();
    let original = wifi_record("sta", Some("net"), Some("pw"), Some(3));
    original.write_to_nvs(&mut store).unwrap();
    let mut loaded = wifi_record("sta", None, None, None);
    loaded.read_from_nvs(&store).unwrap();
    assert_eq!(loaded.nvs, original.nvs);
    assert_eq!(loaded.ssid, original.ssid);
    assert_eq!(loaded.pass, original.pass);
    assert_eq!(loaded.channel, original.channel);
}

#[test]
fn write_with_empty_key_is_fatal() {
    let mut store = NvsStore::new();
    let rec = wifi_record("", Some("net"), None, None);
    assert_eq!(
        rec.write_to_nvs(&mut store).unwrap_err(),
        ConfigError::Store(StoreError::InvalidKey)
    );
}

#[test]
fn station_credentials_parsed_and_percent_decoded() {
    let body = b"ssid=my%20net&pass=p%21w";
    let (ssid, pass) = parse_station_credentials(body).unwrap();
    assert_eq!(ssid, "my net");
    assert_eq!(pass, "p!w");
}

#[test]
fn station_credentials_first_pair_wins() {
    let body = b"ssid=one&ssid=two&pass=pw";
    let (ssid, _) = parse_station_credentials(body).unwrap();
    assert_eq!(ssid, "one");
}

#[test]
fn station_credentials_missing_attribute_is_none() {
    assert!(parse_station_credentials(b"ssid=only").is_none());
    assert!(parse_station_credentials(b"pass=only").is_none());
    assert!(parse_station_credentials(b"").is_none());
}

#[test]
fn applied_credentials_are_persisted_at_once() {
    let mut store = NvsStore::new();
    let mut config = empty_config();
    config.init(&mut store, &defaults()).unwrap();
    apply_station_credentials(&mut config, &mut store, "attic".to_string(), "hush".to_string())
        .unwrap();
    let stored = decode_wifi_record(store.get_val("sta").unwrap().as_slice()).unwrap();
    assert_eq!(stored.ssid, Some("attic".to_string()));
    assert_eq!(stored.pass, Some("hush".to_string()));
    assert_eq!(config.sta.ssid, Some("attic".to_string()));
}
