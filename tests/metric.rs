use tx_monitor::config::{Metric, Secrets};
use tx_monitor::metric::{metric_upload, push_decimal, push_signed_decimal, upload_succeeded};
use tx_monitor::reducer::TxTiming;

#[test]
fn decimal_text() {
    for (n, text) in [(0u64, "0"), (7, "7"), (10, "10"), (120, "120"), (u64::MAX, "18446744073709551615")] {
        let mut s = String::from("x=");
        push_decimal(&mut s, n);
        assert_eq!(s, format!("x={}", text));
    }
}

#[test]
fn signed_decimal_text() {
    for (i, text) in [(0i64, "0"), (-5, "-5"), (1_700_000_000_123, "1700000000123"), (i64::MIN, "-9223372036854775808"), (i64::MAX, "9223372036854775807")] {
        let mut s = String::new();
        push_signed_decimal(&mut s, i);
        assert_eq!(s, text);
    }
}

#[test]
fn upload_request_shape() {
    let u = metric_upload("page42", "incl", "SECRET-REDACTED", 1_700_000_000_000, 120);
    assert_eq!(u.url, "https://api.instatus.com/v1/page42/metrics/incl");
    assert_eq!(u.authorization, "Bearer SECRET-REDACTED");
    assert_eq!(u.body, "{\"timestamp\":1700000000000,\"value\":120}");
}

#[test]
fn success_is_2xx() {
    assert!(upload_succeeded(200));
    assert!(upload_succeeded(204));
    assert!(upload_succeeded(299));
    assert!(!upload_succeeded(199));
    assert!(!upload_succeeded(300));
    assert!(!upload_succeeded(404));
    assert!(!upload_succeeded(500));
}

#[test]
fn timing_upload_requests() {
    let t = TxTiming { when: 1000, inclusion_ms: 6012, finalization_ms: 18004, approximated: false };
    let metrics = Metric { inclusion: String::from("m-in"), finalization: String::from("m-fin") };
    let secrets = Secrets { instatus_key: String::from("k"), substrate_uri: String::from("//Alice") };
    let r = t.upload_requests("p", &metrics, &secrets);
    assert_eq!(r.len(), 2);
    assert_eq!(r[0].url, "https://api.instatus.com/v1/p/metrics/m-in");
    assert_eq!(r[0].body, "{\"timestamp\":1000,\"value\":6012}");
    assert_eq!(r[1].url, "https://api.instatus.com/v1/p/metrics/m-fin");
    assert_eq!(r[1].body, "{\"timestamp\":1000,\"value\":18004}");
    assert_eq!(r[1].authorization, "Bearer k");
}
