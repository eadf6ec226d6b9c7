use firmware_core::codec::encode_wifi_record;
use firmware_core::config::AppConfiguration;
use firmware_core::config::ConfigDefaults;
use firmware_core::records::BmsSettings;
use firmware_core::records::MqttSettings;
use firmware_core::records::Wifi;
use firmware_core::store::NvsStorage;
use firmware_core::store::NvsStore;
use firmware_core::wifi_init::evaluate_ap;
use firmware_core::wifi_init::evaluate_mixed;
use firmware_core::wifi_init::find_channel;
use firmware_core::wifi_init::ping_init;
use firmware_core::wifi_init::scan;
use firmware_core::wifi_init::wifi;
use firmware_core::wifi_init::wifiap;
use firmware_core::wifi_init::wifimixed;
use firmware_core::wifi_init::AccessPointInfo;
use firmware_core::wifi_init::ApStatus;
use firmware_core::wifi_init::ClientStatus;
use firmware_core::wifi_init::IpInfo;
use firmware_core::wifi_init::LinkFault;
use firmware_core::wifi_init::LinkStatus;
use firmware_core::wifi_init::PingSummary;
use firmware_core::wifi_init::WifiMode;

fn wifi_record(key: &str, ssid: Option<&str>, pass: Option<&str>, channel: Option<u8>) -> Wifi {
    Wifi {
        nvs: key.to_string(),
        ssid: ssid.map(|s| s.to_string()),
        pass: pass.map(|s| s.to_string()),
        channel,
    }
}

fn entry(ssid: &str, channel: u8, signal_strength: i8) -> AccessPointInfo {
    AccessPointInfo { ssid: ssid.to_string(), channel, signal_strength }
}

#[test]
fn mode_is_mixed_exactly_when_both_credentials_present() {
    let both = wifi_record("sta", Some("home"), Some("secret"), None);
    let no_pass = wifi_record("sta", Some("home"), None, None);
    let no_ssid = wifi_record("sta", None, Some("secret"), None);
    let neither = wifi_record("sta", None, None, None);
    assert_eq!(wifi(&both), WifiMode::Mixed);
    assert_eq!(wifi(&no_pass), WifiMode::AccessPointOnly);
    assert_eq!(wifi(&no_ssid), WifiMode::AccessPointOnly);
    assert_eq!(wifi(&neither), WifiMode::AccessPointOnly);
}

#[test]
fn mode_ignores_prior_link_state() {
    // Mode selection takes nothing but the stored record; with unchanged
    // credentials it answers the same however often it is consulted.
    let sta = wifi_record("sta", Some("home"), Some("secret"), None);
    let first = wifi(&sta);
    let second = wifi(&sta);
    assert_eq!(first, WifiMode::Mixed);
    assert_eq!(second, WifiMode::Mixed);
}

#[test]
fn loaded_station_credentials_select_mixed_mode() {
    let defaults = ConfigDefaults {
        sta_ssid: "d".to_string(),
        sta_pass: "d".to_string(),
        ap_ssid: "d".to_string(),
        ap_pass: "d".to_string(),
    };
    let mut config = AppConfiguration {
        sta: wifi_record("", None, None, None),
        ap: wifi_record("", None, None, None),
        bms: BmsSettings { nvs: String::new() },
        mqtt: MqttSettings {
            nvs: String::new(),
            address: String::new(),
            username: String::new(),
            password: String::new(),
            client_id: String::new(),
            base_topic: String::new(),
            qos: 0,
        },
    };
    let mut store = NvsStore::new();
    config.init(&mut store, &defaults).unwrap();
    let stored = wifi_record("sta", Some("home"), Some("secret"), None);
    store.set_val("sta", encode_wifi_record(&stored).as_slice()).unwrap();
    let mut booted = config;
    booted.init(&mut store, &defaults).unwrap();
    // Mixed mode: the bring-up scans before configuring, to recover the
    // channel of the configured network.
    assert_eq!(wifi(&booted.sta), WifiMode::Mixed);
    let results = vec![entry("home", 6, -40)];
    let (client, _) = wifimixed(&booted.sta, &booted.ap, &results);
    assert_eq!(client.channel, Some(6));
}

#[test]
fn scan_orders_by_descending_signal_strength() {
    let results = vec![
        entry("a", 1, -70),
        entry("b", 6, -30),
        entry("c", 11, -90),
        entry("d", 3, -30),
    ];
    let sorted = scan(results);
    assert_eq!(sorted.len(), 4);
    for w in sorted.windows(2) {
        assert!(w[0].signal_strength >= w[1].signal_strength);
    }
    let mut names: Vec<String> = sorted.iter().map(|e| e.ssid.clone()).collect();
    names.sort();
    assert_eq!(names, vec!["a", "b", "c", "d"]);
}

#[test]
fn channel_recovered_by_containment_match() {
    let results = vec![
        entry("neighbour", 1, -80),
        entry("home-5G", 36, -45),
        entry("home", 6, -50),
    ];
    // "home" is contained in "home-5G": the first containing entry wins.
    assert_eq!(find_channel(&results, "home"), Some(36));
    assert_eq!(find_channel(&results, "neighbour"), Some(1));
    assert_eq!(find_channel(&results, "office"), None);
}

#[test]
fn mixed_configuration_carries_credentials_and_channels() {
    let sta = wifi_record("sta", Some("home"), Some("secret"), None);
    let ap = wifi_record("ap", Some("spot"), Some("spotpw"), None);
    let results = vec![entry("elsewhere", 3, -60)];
    let (client, access) = wifimixed(&sta, &ap, &results);
    assert_eq!(client.ssid, "home");
    assert_eq!(client.password, "secret");
    assert_eq!(client.channel, None);
    assert_eq!(access.ssid, "spot");
    assert_eq!(access.password, "spotpw");
    assert_eq!(access.channel, 1);
}

#[test]
fn ap_configuration_defaults_to_channel_one() {
    let ap = wifi_record("ap", Some("spot"), Some("spotpw"), None);
    let cfg = wifiap(&ap);
    assert_eq!(cfg.ssid, "spot");
    assert_eq!(cfg.password, "spotpw");
    assert_eq!(cfg.channel, 1);
    let ap11 = wifi_record("ap", Some("spot"), Some("spotpw"), Some(11));
    assert_eq!(wifiap(&ap11).channel, 11);
}

#[test]
fn mixed_requires_exactly_connected_and_started() {
    let ip = IpInfo { ip: 0x0a00_0002, gateway: 0x0a00_0001 };
    let good = LinkStatus { sta: ClientStatus::Connected(ip), ap: ApStatus::Started };
    assert_eq!(evaluate_mixed(false, &good).unwrap(), ip);
    // Access point up but station failed: failure of the whole bring-up.
    let degraded = LinkStatus { sta: ClientStatus::Failed, ap: ApStatus::Started };
    assert!(matches!(
        evaluate_mixed(false, &degraded).unwrap_err(),
        LinkFault::StatusMismatch(_)
    ));
    let timeout = evaluate_mixed(true, &good).unwrap_err();
    assert!(matches!(timeout, LinkFault::Timeout(_)));
}

#[test]
fn ap_only_requires_started_and_ignores_station() {
    let st = LinkStatus { sta: ClientStatus::Failed, ap: ApStatus::Started };
    assert!(evaluate_ap(false, &st).is_ok());
    let down = LinkStatus { sta: ClientStatus::Failed, ap: ApStatus::Failed };
    assert!(matches!(
        evaluate_ap(false, &down).unwrap_err(),
        LinkFault::StatusMismatch(_)
    ));
    assert!(matches!(evaluate_ap(true, &st).unwrap_err(), LinkFault::Timeout(_)));
}

#[test]
fn any_ping_loss_is_a_hard_failure() {
    assert!(ping_init(&PingSummary { transmitted: 4, received: 4 }).is_ok());
    let lost = ping_init(&PingSummary { transmitted: 4, received: 3 }).unwrap_err();
    assert!(matches!(
        lost,
        LinkFault::PingLoss { transmitted: 4, received: 3 }
    ));
}
