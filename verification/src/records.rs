//! The settings records that the device persists: wireless credentials for
//! the station and access-point roles, and the two device-settings
//! categories. Every record carries the store key it lives under; a record
//! whose key is unassigned must never be persisted.

use vstd::prelude::*;

verus! {

/// A wireless settings record, used both for the station role and for the
/// access-point role. `nvs` is the store key the record is persisted under.
pub struct Wifi {
    pub nvs: String,
    pub ssid: Option<String>,
    pub pass: Option<String>,
    pub channel: Option<u8>,
}

/// The abstract value of a [`Wifi`] record.
#[verifier::ext_equal]
pub struct WifiView {
    pub nvs: Seq<char>,
    pub ssid: Option<Seq<char>>,
    pub pass: Option<Seq<char>>,
    pub channel: Option<u8>,
}

impl View for Wifi {
    type V = WifiView;

    open spec fn view(&self) -> WifiView {
        WifiView {
            nvs: self.nvs@,
            ssid: match self.ssid {
                Some(s) => Some(s@),
                None => None,
            },
            pass: match self.pass {
                Some(s) => Some(s@),
                None => None,
            },
            channel: self.channel,
        }
    }
}

/// The battery-management settings record. It holds nothing but its store
/// key.
pub struct BmsSettings {
    pub nvs: String,
}

/// The abstract value of a [`BmsSettings`] record.
#[verifier::ext_equal]
pub struct BmsSettingsView {
    pub nvs: Seq<char>,
}

impl View for BmsSettings {
    type V = BmsSettingsView;

    open spec fn view(&self) -> BmsSettingsView {
        BmsSettingsView { nvs: self.nvs@ }
    }
}

/// The message-broker settings record.
pub struct MqttSettings {
    pub nvs: String,
    pub address: String,
    pub username: String,
    pub password: String,
    pub client_id: String,
    pub base_topic: String,
    pub qos: u8,
}

/// The abstract value of an [`MqttSettings`] record.
#[verifier::ext_equal]
pub struct MqttSettingsView {
    pub nvs: Seq<char>,
    pub address: Seq<char>,
    pub username: Seq<char>,
    pub password: Seq<char>,
    pub client_id: Seq<char>,
    pub base_topic: Seq<char>,
    pub qos: u8,
}

impl View for MqttSettings {
    type V = MqttSettingsView;

    open spec fn view(&self) -> MqttSettingsView {
        MqttSettingsView {
            nvs: self.nvs@,
            address: self.address@,
            username: self.username@,
            password: self.password@,
            client_id: self.client_id@,
            base_topic: self.base_topic@,
            qos: self.qos,
        }
    }
}

} // verus!
