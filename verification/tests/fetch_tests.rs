use spotify_crawl::client::{ClientRing, ProxySlot, SpotifyClient, SpotifyClientWithToken};
use spotify_crawl::common_types::FetchError;
use spotify_crawl::fetch::{
    classify_response, loop_until_ok_step, run_fetch, FetchOutcome, FetchStep, HttpEvent, LoopStep,
    RETRY_BACKOFF_SECS,
};
use spotify_crawl::common_types::SimpleError;

fn ring_of(n: usize) -> ClientRing {
    let clients: Vec<SpotifyClientWithToken> = (0..n)
        .map(|i| {
            SpotifyClientWithToken::new(
                format!("token{}", i),
                SpotifyClient {
                    name: format!("c{}", i),
                    id: format!("id{}", i),
                    secret: format!("s{}", i),
                },
            )
        })
        .collect();
    ClientRing::init(clients, vec![ProxySlot::Direct, ProxySlot::Direct]).unwrap()
}

fn status(code: u16, retry_after: Option<u64>, body: &str) -> HttpEvent {
    HttpEvent::Status { code, retry_after, body: body.to_string() }
}

#[test]
fn classify_follows_the_status_table() {
    assert_eq!(classify_response(status(200, None, "ok")), FetchStep::Success("ok".to_string()));
    assert_eq!(classify_response(status(429, Some(7), "")), FetchStep::RetryAfterCooldown(7));
    assert_eq!(
        classify_response(status(429, None, "")),
        FetchStep::Fail(FetchError::NoRetryAfter)
    );
    assert_eq!(classify_response(status(401, None, "")), FetchStep::RetryAfterRefresh);
    assert_eq!(
        classify_response(status(503, None, "")),
        FetchStep::Fail(FetchError::UnexpectedStatus(503))
    );
    assert_eq!(
        classify_response(HttpEvent::Transport { message: "reset".to_string() }),
        FetchStep::Fail(FetchError::Transport("reset".to_string()))
    );
}

#[test]
fn retry_idempotence_two_rate_limits_then_success() {
    // two 429s with a retry delay, then 200: one decoded value, the ring
    // advanced twice
    let mut ring = ring_of(3);
    let events = vec![status(429, Some(0), ""), status(429, Some(0), ""), status(200, None, "payload")];
    let run = run_fetch(&mut ring, events, &vec![]);
    assert!(matches!(run.outcome, FetchOutcome::Done(ref b) if b == "payload"));
    assert_eq!(run.rotations, 2);
    assert_eq!(run.refreshes, 0);
    assert_eq!(1 + ring.queued_count() + ring.sleeping_count(), 3);
}

#[test]
fn refresh_on_401_once_then_success() {
    // a single 401 followed by 200: one decoded value, exactly one refresh
    let mut ring = ring_of(2);
    let events = vec![status(401, None, ""), status(200, None, "value")];
    let run = run_fetch(&mut ring, events, &vec![Some("fresh-token".to_string())]);
    assert!(matches!(run.outcome, FetchOutcome::Done(ref b) if b == "value"));
    assert_eq!(run.refreshes, 1);
    assert_eq!(run.rotations, 0);
    assert_eq!(1 + ring.queued_count() + ring.sleeping_count(), 2);
}

#[test]
fn rate_limit_cooldown_with_single_credential() {
    // with one credential there is no other identity to rotate to: the
    // worker waits the cooldown out and the same identity then succeeds
    let mut ring = ring_of(1);
    let events = vec![status(429, Some(1), ""), status(200, None, "after-cooldown")];
    let run = run_fetch(&mut ring, events, &vec![]);
    assert!(matches!(run.outcome, FetchOutcome::Done(ref b) if b == "after-cooldown"));
    assert_eq!(run.rotations, 0);
    assert_eq!(1 + ring.queued_count() + ring.sleeping_count(), 1);
}

#[test]
fn unauthorized_refresh_with_two_credentials() {
    // first call sees 401 on the current identity, the refresh installs a
    // new token, the second call succeeds with one decoded value
    let mut ring = ring_of(2);
    assert_eq!(ring.front().with_token.token, "token0");
    let events = vec![status(401, None, ""), status(200, None, "decoded")];
    let run = run_fetch(&mut ring, events, &vec![Some("token-new".to_string())]);
    assert!(matches!(run.outcome, FetchOutcome::Done(ref b) if b == "decoded"));
    assert_eq!(run.refreshes, 1);
    // the refreshed credential went back into the queue with the new token;
    // draining the ring must find it
    let mut seen_new = ring.front().with_token.token == "token-new";
    let queued = ring.queued_count();
    for _ in 0..queued {
        ring.sleep_front_and_get_next(0);
        if ring.front().with_token.token == "token-new" {
            seen_new = true;
        }
    }
    assert!(seen_new);
}

#[test]
fn missing_retry_after_fails() {
    let mut ring = ring_of(2);
    let events = vec![status(429, None, "")];
    let run = run_fetch(&mut ring, events, &vec![]);
    assert!(matches!(run.outcome, FetchOutcome::Failed(FetchError::NoRetryAfter)));
}

#[test]
fn unexpected_status_fails() {
    let mut ring = ring_of(2);
    let events = vec![status(404, None, "")];
    let run = run_fetch(&mut ring, events, &vec![]);
    assert!(matches!(run.outcome, FetchOutcome::Failed(FetchError::UnexpectedStatus(404))));
}

#[test]
fn transport_error_fails() {
    let mut ring = ring_of(2);
    let events = vec![HttpEvent::Transport { message: "tls".to_string() }];
    let run = run_fetch(&mut ring, events, &vec![]);
    assert!(matches!(run.outcome, FetchOutcome::Failed(FetchError::Transport(ref m)) if m == "tls"));
}

#[test]
fn loop_until_ok_retries_on_any_failure() {
    let ok: Result<u32, SimpleError> = Ok(5);
    assert!(matches!(loop_until_ok_step(ok), LoopStep::Finished(5)));
    let err: Result<u32, SimpleError> = Err(SimpleError::new("noise".to_string()));
    assert!(matches!(loop_until_ok_step(err), LoopStep::RetryAfter(s) if s == RETRY_BACKOFF_SECS));
    assert_eq!(RETRY_BACKOFF_SECS, 3);
}
