use tx_monitor::config::{Metric, NetworkConfig, Secrets};
use tx_monitor::metric::upload_succeeded;
use tx_monitor::reducer::{Observed, Reducer, ReducerPolicy, StatusEvent};
use tx_monitor::retry::{Retry, RetryAction, RetryPolicy};
use tx_monitor::schedule::{RoundRobin, Tick};

/// Sends one request through the retry loop against a mock API that answers
/// with `statuses` in turn; returns the number of POST attempts and success.
fn post_with_retry(statuses: &mut Vec<u16>) -> (usize, bool) {
    let mut retry = Retry::new(RetryPolicy::standard());
    let mut posts = 0usize;
    loop {
        let status = if statuses.is_empty() { 200 } else { statuses.remove(0) };
        posts += 1;
        let ok = upload_succeeded(status);
        match retry.record(ok) {
            RetryAction::Finish => return (posts, ok),
            RetryAction::RetryAfter { .. } => {}
        }
    }
}

#[test]
fn one_endpoint_pass_uploads_both_durations() {
    let net = NetworkConfig {
        rpc: String::from("wss://rpc.example"),
        metrics: Metric { inclusion: String::from("incl"), finalization: String::from("fin") },
    };
    let endpoints = vec![net];
    let secrets = Secrets { instatus_key: String::from("key"), substrate_uri: String::from("//Alice") };
    let mut rr = RoundRobin::new(endpoints.len(), 30);
    let mut bodies = Vec::new();
    let mut mock_api: Vec<u16> = Vec::new();
    let mut posts = 0usize;

    match rr.advance() {
        Tick::Probe { endpoint } => {
            let mut reducer = Reducer::new(ReducerPolicy::hardened());
            reducer.observe(Observed { status: StatusEvent::Broadcasted, elapsed_ms: 2 });
            reducer.observe(Observed { status: StatusEvent::IncludedInBestBlock, elapsed_ms: 120 });
            reducer.observe(Observed { status: StatusEvent::FinalizedInBlock, elapsed_ms: 900 });
            let timing = reducer.finish(1_700_000_000_000).unwrap();
            let net = &endpoints[endpoint];
            for req in timing.upload_requests("page", &net.metrics, &secrets) {
                let (n, ok) = post_with_retry(&mut mock_api);
                assert!(ok);
                posts += n;
                bodies.push(req.body);
            }
        }
        Tick::RoundPause { .. } => panic!("expected a probe"),
    }
    assert_eq!(posts, 2);
    assert_eq!(bodies[0], "{\"timestamp\":1700000000000,\"value\":120}");
    assert_eq!(bodies[1], "{\"timestamp\":1700000000000,\"value\":900}");
    assert_eq!(rr.advance(), Tick::RoundPause { ms: 30_000 });
}

#[test]
fn metrics_api_recovers_after_three_errors() {
    let mut api = vec![500, 500, 500, 200];
    assert_eq!(post_with_retry(&mut api), (4, true));
}
