use mqtt_agent::config::Broker;
use mqtt_agent::config::Config;
use mqtt_agent::config::General;
use mqtt_agent::connect::ConnectAttempts;
use mqtt_agent::connect::ConnectStep;
use mqtt_agent::publisher::format_publish_line;
use mqtt_agent::publisher::PublisherState;
use mqtt_agent::publisher::PublisherStep;
use mqtt_agent::subscriber::format_received_line;
use mqtt_agent::subscriber::SubscriberEvent;
use mqtt_agent::subscriber::SubscriberState;
use mqtt_agent::subscriber::SubscriberStep;

fn config_with_retries(retries: i8) -> Config {
    Config {
        general: General {
            devid: String::from("dev1"),
            tz: true,
            periodic_ms: 1000,
        },
        broker: Broker {
            host: String::from("tcp://localhost:1883"),
            user: String::from("user"),
            pass: String::from("pass"),
            qos: 1,
            topic: String::from("site"),
            reconnect_ms: 5000,
            retries,
        },
    }
}

#[test]
fn connect_gives_up_after_bounded_attempts() {
    // retries = 3: failures raise the counter to 2, 3, 4; the manager
    // retries twice and gives up when the counter exceeds 3.
    let mut a = ConnectAttempts::start();
    assert_eq!(a.attempts, 1);
    assert_eq!(a.on_failure(3), ConnectStep::Retry);
    assert_eq!(a.attempts, 2);
    assert_eq!(a.on_failure(3), ConnectStep::Retry);
    assert_eq!(a.on_failure(3), ConnectStep::GiveUp);
    assert_eq!(a.attempts, 4);
}

#[test]
fn connect_gives_up_at_once_without_retries() {
    let mut a = ConnectAttempts::start();
    assert_eq!(a.on_failure(0), ConnectStep::GiveUp);
    let mut b = ConnectAttempts::start();
    assert_eq!(b.on_failure(-5), ConnectStep::GiveUp);
}

#[test]
fn publisher_exits_on_fourth_failed_probe() {
    // maxRetries = 3 and the session reports not-connected on every probe:
    // retries 1, 2 and 3 reconnect, the 4th failed check gives up.
    let cfg = config_with_retries(3);
    let mut st = PublisherState::start();
    for expected_failed in 1..=3i8 {
        let step = st.begin_cycle(false, 1000 + expected_failed as i64, &cfg);
        assert_eq!(st.failed, expected_failed);
        match step {
            PublisherStep::Reconnect { client_id } => {
                let want = format!("site/dev1/{}", 1000 + expected_failed as i64);
                assert_eq!(client_id, want);
            }
            _ => panic!("expected a reconnect decision"),
        }
    }
    let step = st.begin_cycle(false, 2000, &cfg);
    assert_eq!(st.failed, 4);
    assert!(matches!(step, PublisherStep::GiveUp));
    assert_eq!(st.counter, 4);
}

#[test]
fn publisher_publishes_while_connected() {
    let cfg = config_with_retries(3);
    let mut st = PublisherState::start();
    let step = st.begin_cycle(true, 1, &cfg);
    assert!(matches!(step, PublisherStep::Publish));
    assert_eq!(st.counter, 1);
    assert_eq!(st.failed, 0);
    let step = st.begin_cycle(true, 2, &cfg);
    assert!(matches!(step, PublisherStep::Publish));
    assert_eq!(st.counter, 2);
    assert_eq!(st.failed, 0);
}

#[test]
fn publish_log_line_text() {
    assert_eq!(
        format_publish_line("site/dev1/data", "{}"),
        "publish to site/dev1/data with msg {} "
    );
}

#[test]
fn subscriber_logs_message_untouched() {
    // A received message is logged verbatim and leaves the failure counter
    // alone.
    let cfg = config_with_retries(3);
    let mut st = SubscriberState::start();
    let ev = SubscriberEvent::Message {
        topic: String::from("site/dev1/data"),
        payload: String::from("{\"dev_id\":\"dev1\"}"),
    };
    let step = st.on_event(ev, 7, "2024-01-01T00:00:00+00:00", "site/dev1/data", &cfg);
    match step {
        SubscriberStep::Log { line } => {
            assert_eq!(
                line,
                "Received at [2024-01-01T00:00:00+00:00] topic site/dev1/data with msg {\"dev_id\":\"dev1\"}"
            );
        }
        _ => panic!("expected a log decision"),
    }
    assert_eq!(st.failed, 0);
}

#[test]
fn subscriber_waits_while_connected() {
    let cfg = config_with_retries(3);
    let mut st = SubscriberState::start();
    let step = st.on_event(SubscriberEvent::Quiet { connected: true }, 7, "t", "site/dev1/data", &cfg);
    assert!(matches!(step, SubscriberStep::KeepWaiting));
    assert_eq!(st.failed, 0);
}

#[test]
fn subscriber_resubscribes_to_same_topic_then_exits() {
    let cfg = config_with_retries(3);
    let mut st = SubscriberState::start();
    for expected_failed in 1..=3i8 {
        let ev = SubscriberEvent::Quiet { connected: false };
        let step = st.on_event(ev, 50 + expected_failed as i64, "t", "site/dev1/data", &cfg);
        assert_eq!(st.failed, expected_failed);
        match step {
            SubscriberStep::Reconnect { client_id, topic } => {
                // The subscriber's reconnect id omits the device id.
                let want = format!("site/{}", 50 + expected_failed as i64);
                assert_eq!(client_id, want);
                assert_eq!(topic, "site/dev1/data");
            }
            _ => panic!("expected a reconnect decision"),
        }
    }
    let step = st.on_event(SubscriberEvent::Quiet { connected: false }, 99, "t", "site/dev1/data", &cfg);
    assert_eq!(st.failed, 4);
    assert!(matches!(step, SubscriberStep::GiveUp));
}

#[test]
fn received_log_line_text() {
    assert_eq!(
        format_received_line("ts", "a/b", "hello"),
        "Received at [ts] topic a/b with msg hello"
    );
}
