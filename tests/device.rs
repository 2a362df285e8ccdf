use scribe::capabilities::{controller_capabilities, Capabilities};
use scribe::config::Config;
use scribe::identity::{client_id, client_topic, INBOUND_TOPIC};
use scribe::power::ShutdownStatus;
use scribe::status::{status_payload, Status, StatusReporter, StatusState};

#[test]
fn client_id_is_lowercase_hex_pairs() {
    assert_eq!(client_id(&[0x24, 0x0A, 0xC4, 0xFF, 0x00, 0x9B]), "24:0a:c4:ff:00:9b");
    assert_eq!(client_id(&[0; 6]), "00:00:00:00:00:00");
}

#[test]
fn client_topic_is_namespaced() {
    assert_eq!(client_topic("24:0a:c4:ff:00:9b"), "embedded/scribe/client/24:0a:c4:ff:00:9b");
    assert_eq!(INBOUND_TOPIC, "embedded/scribe/producer/#");
}

#[test]
fn status_payload_text() {
    let s = Status { state: StatusState::Up, power_level: 700 };
    assert_eq!(status_payload(&s), "Status { state: Up, power_level: 700 }");
    let s = Status { state: StatusState::ShuttingDown, power_level: 0 };
    assert_eq!(status_payload(&s), "Status { state: ShuttingDown, power_level: 0 }");
    let s = Status { state: StatusState::RegainedPower, power_level: 65535 };
    assert_eq!(status_payload(&s), "Status { state: RegainedPower, power_level: 65535 }");
    let s = Status { state: StatusState::Down, power_level: 1000 };
    assert_eq!(status_payload(&s), "Status { state: Down, power_level: 1000 }");
}

#[test]
fn status_reports_follow_power_changes() {
    let mut r = StatusReporter::new();
    assert_eq!(r.on_tick(900), Status { state: StatusState::Up, power_level: 900 });
    assert_eq!(
        r.on_power_change(ShutdownStatus::LowPower, 1200),
        Status { state: StatusState::ShuttingDown, power_level: 1200 }
    );
    assert_eq!(r.state(), StatusState::Down);
    assert_eq!(r.on_tick(1100), Status { state: StatusState::Down, power_level: 1100 });
    assert_eq!(
        r.on_power_change(ShutdownStatus::NormalPower, 600),
        Status { state: StatusState::RegainedPower, power_level: 600 }
    );
    assert_eq!(r.on_tick(600).state, StatusState::Up);
}

#[test]
fn config_fields_default_to_empty() {
    let c = Config::new();
    assert_eq!(c.mqtt_user(), "");
    assert_eq!(c.mqtt_password(), "");
    assert_eq!(c.wifi_ssid(), "");
    assert_eq!(c.wifi_password(), "");
}

#[test]
fn config_partial_update_keeps_other_fields() {
    let mut c = Config::new();
    Config::update()
        .mqtt_user("user")
        .mqtt_password("secret")
        .wifi_ssid("net")
        .wifi_password("pass")
        .update(&mut c);
    Config::update().wifi_ssid("other").update(&mut c);
    assert_eq!(c.mqtt_user(), "user");
    assert_eq!(c.mqtt_password(), "secret");
    assert_eq!(c.wifi_ssid(), "other");
    assert_eq!(c.wifi_password(), "pass");
    Config::update().update(&mut c);
    assert_eq!(c.wifi_ssid(), "other");
}

#[test]
fn capabilities_builder_sets_modes() {
    let none = Capabilities::builder().build();
    assert_eq!(none, Capabilities { client: false, access_point: false, ap_sta: false });
    let c = Capabilities::builder().client_capable().build();
    assert_eq!(c, Capabilities { client: true, access_point: false, ap_sta: false });
    let c = Capabilities::builder().access_point_capable().ap_sta_capable().build();
    assert_eq!(c, Capabilities { client: false, access_point: true, ap_sta: true });
    assert_eq!(
        controller_capabilities(),
        Capabilities { client: true, access_point: true, ap_sta: true }
    );
}
