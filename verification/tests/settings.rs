use rinha_rust_warp::gateway::{
    get_default_payment_url, get_fallback_payment_url, payment_accepted, payments_endpoint, Gateway,
    GatewayUrls,
};
use rinha_rust_warp::processor::{message_disposition, queue_settings, AckMode, Disposition, Replay, Retention};
use rinha_rust_warp::delivery::DeliveryOutcome;
use rinha_rust_warp::replies::{payment_queued_status, purge_reply, summary_unavailable_reply};
use rinha_rust_warp::settings::{listen_target, max_concurrent_messages, nats_url, use_tcp, ListenTarget};
use rinha_rust_warp::text::parse_usize;

fn some(s: &str) -> Option<String> {
    Some(s.to_string())
}

#[test]
fn gateway_labels() {
    assert_eq!(Gateway::Default.to_string(), "default");
    assert_eq!(Gateway::Fallback.to_string(), "fallback");
}

#[test]
fn gateway_urls_default_to_local_processors() {
    assert_eq!(get_default_payment_url(None), "http://localhost:8001");
    assert_eq!(get_fallback_payment_url(None), "http://localhost:8002");
    assert_eq!(get_default_payment_url(some("http://a:1")), "http://a:1");
    let urls = GatewayUrls::from_config(None, some("http://b:2"));
    assert_eq!(Gateway::Default.url(&urls), "http://localhost:8001");
    assert_eq!(Gateway::Fallback.url(&urls), "http://b:2");
}

#[test]
fn payments_endpoint_appends_path() {
    assert_eq!(payments_endpoint("http://localhost:8001"), "http://localhost:8001/payments");
}

#[test]
fn only_2xx_means_accepted() {
    assert!(payment_accepted(200));
    assert!(payment_accepted(204));
    assert!(payment_accepted(299));
    assert!(!payment_accepted(199));
    assert!(!payment_accepted(300));
    assert!(!payment_accepted(422));
    assert!(!payment_accepted(500));
}

#[test]
fn parse_usize_follows_std() {
    for s in ["0", "7", "200", "+15", "007", "18446744073709551615", "", "+", "-1", "-0", "1a", " 1", "++1", "18446744073709551616", "١"] {
        assert_eq!(parse_usize(s), s.parse::<usize>().ok(), "input {:?}", s);
    }
}

#[test]
fn max_concurrent_messages_defaults_to_200() {
    assert_eq!(max_concurrent_messages(None), 200);
    assert_eq!(max_concurrent_messages(some("50")), 50);
    assert_eq!(max_concurrent_messages(some("lots")), 200);
    assert_eq!(max_concurrent_messages(some("")), 200);
}

#[test]
fn nats_url_defaults_to_local_broker() {
    assert_eq!(nats_url(None), "nats://localhost:4222");
    assert_eq!(nats_url(some("nats://broker:4222")), "nats://broker:4222");
}

#[test]
fn tcp_only_for_one_or_true() {
    assert!(use_tcp(&some("1")));
    assert!(use_tcp(&some("true")));
    assert!(!use_tcp(&some("TRUE")));
    assert!(!use_tcp(&some("yes")));
    assert!(!use_tcp(&some("0")));
    assert!(!use_tcp(&None));
}

#[test]
fn listen_on_tcp_port() {
    match listen_target(None, None, some("true")) {
        ListenTarget::Tcp { address } => assert_eq!(address, "0.0.0.0:3000"),
        ListenTarget::UnixSocket { .. } => panic!("expected TCP"),
    }
    match listen_target(some("/x.sock"), some("8080"), some("1")) {
        ListenTarget::Tcp { address } => assert_eq!(address, "0.0.0.0:8080"),
        ListenTarget::UnixSocket { .. } => panic!("expected TCP"),
    }
}

#[test]
fn listen_on_unix_socket_by_default() {
    match listen_target(None, some("8080"), None) {
        ListenTarget::UnixSocket { path, mode } => {
            assert_eq!(path, "/tmp/rinha.sock");
            assert_eq!(mode, 0o666);
        }
        ListenTarget::Tcp { .. } => panic!("expected a Unix socket"),
    }
    match listen_target(some("/run/api.sock"), None, some("no")) {
        ListenTarget::UnixSocket { path, .. } => assert_eq!(path, "/run/api.sock"),
        ListenTarget::Tcp { .. } => panic!("expected a Unix socket"),
    }
}

#[test]
fn message_dispositions() {
    assert_eq!(message_disposition(None), Disposition::Discard);
    assert_eq!(
        message_disposition(Some(DeliveryOutcome::Processed(Gateway::Default))),
        Disposition::Complete
    );
    assert_eq!(
        message_disposition(Some(DeliveryOutcome::NotRecorded(Gateway::Fallback))),
        Disposition::Requeue
    );
    assert_eq!(message_disposition(Some(DeliveryOutcome::Exhausted)), Disposition::Requeue);
}

#[test]
fn queue_layout() {
    let q = queue_settings();
    assert_eq!(q.stream, "payments");
    assert_eq!(q.subject, "payments");
    assert_eq!(q.consumer, "payment-processor");
    assert_eq!(q.max_deliver, 3);
    assert_eq!(q.retention, Retention::Interest);
    assert_eq!(q.ack, AckMode::Explicit);
    assert_eq!(q.replay, Replay::Instant);
}

#[test]
fn fixed_replies() {
    assert_eq!(payment_queued_status(), 202);
    let ok = purge_reply(true);
    assert_eq!((ok.status, ok.body), (200, "Payments purged"));
    let failed = purge_reply(false);
    assert_eq!((failed.status, failed.body), (500, "Failed to purge payments"));
    let unavailable = summary_unavailable_reply();
    assert_eq!((unavailable.status, unavailable.body), (500, "Failed to query the database"));
}
