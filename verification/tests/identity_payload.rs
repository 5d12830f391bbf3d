use mqtt_agent::ident::make_data_topic;
use mqtt_agent::ident::make_pub_client_id;
use mqtt_agent::ident::make_sub_client_id;
use mqtt_agent::payload::make_readings;
use mqtt_agent::payload::render_payload;
use mqtt_agent::payload::Data;

#[test]
fn publisher_client_id_shape() {
    assert_eq!(make_pub_client_id("site", "dev1", 1700000000000000), "site/dev1/1700000000000000");
    assert_eq!(make_pub_client_id("site", "dev1", -1), "site/dev1/-1");
}

#[test]
fn subscriber_client_id_shape() {
    assert_eq!(make_sub_client_id("site", 1700000000000000), "site/1700000000000000");
}

#[test]
fn client_ids_differ_across_instants() {
    let a = make_pub_client_id("site", "dev1", 1700000000000000);
    let b = make_pub_client_id("site", "dev1", 1700000000000001);
    assert_ne!(a, b);
    let c = make_sub_client_id("site", 10);
    let d = make_sub_client_id("site", 11);
    assert_ne!(c, d);
}

#[test]
fn publish_topic_shape() {
    assert_eq!(make_data_topic("site", "dev1"), "site/dev1/data");
}

#[test]
fn readings_follow_cycle_counter() {
    let v = make_readings(1);
    assert_eq!(v.len(), 2);
    assert_eq!(v[0].sensor_id, 1);
    assert_eq!(v[0].temp_tenths, 161); // 15.1 + 1
    assert_eq!(v[0].rh_tenths, 265); // 25.5 + 1
    assert_eq!(v[1].sensor_id, 2);
    assert_eq!(v[1].temp_tenths, 261); // 25.1 + 1
    assert_eq!(v[1].rh_tenths, 565); // 55.5 + 1

    let w = make_readings(41);
    assert_eq!(w[0].temp_tenths, 561); // 15.1 + 41
    assert_eq!(w[1].rh_tenths, 965); // 55.5 + 41
}

#[test]
fn payload_json_text() {
    let d = Data {
        dev_id: String::from("dev1"),
        ts: String::from("2024-01-01T00:00:00+00:00"),
        data: make_readings(1),
    };
    let expected = "{\n  \"dev_id\": \"dev1\",\n  \"ts\": \"2024-01-01T00:00:00+00:00\",\n  \"data\": [\n    {\n      \"sensor_id\": 1,\n      \"temp\": 16.1,\n      \"rh\": 26.5\n    },\n    {\n      \"sensor_id\": 2,\n      \"temp\": 26.1,\n      \"rh\": 56.5\n    }\n  ]\n}";
    assert_eq!(render_payload(&d), expected);
}

#[test]
fn payload_json_without_readings() {
    let d = Data {
        dev_id: String::from("dev1"),
        ts: String::from("t"),
        data: Vec::new(),
    };
    assert_eq!(render_payload(&d), "{\n  \"dev_id\": \"dev1\",\n  \"ts\": \"t\",\n  \"data\": []\n}");
}
