use vstd::prelude::*;
use crate::client::ClientRing;
use crate::common_types::{FetchError, SimpleError};

verus! {

/// What one HTTP attempt came back with: a status (with the Retry-After
/// value when the provider sent one, and the raw body) or a transport
/// failure.
pub enum HttpEvent {
    Status { code: u16, retry_after: Option<u64>, body: String },
    Transport { message: String },
}

/// What the status table directs the caller to do with one response.
#[derive(Debug, PartialEq, Eq)]
pub enum FetchStep {
    /// 200: the body is the result.
    Success(String),
    /// 429 with a Retry-After: cool the current identity down for that
    /// many seconds and retry the same URL.
    RetryAfterCooldown(u64),
    /// 401: refresh the current identity and retry the same URL.
    RetryAfterRefresh,
    /// Every other case is surfaced.
    Fail(FetchError),
}

/// The end of a whole fetch: a decoded body, a surfaced failure, or —
/// when driven from a finite response script — the script running out
/// while the fetch would still be retrying.
pub enum FetchOutcome {
    Done(String),
    Failed(FetchError),
    Exhausted,
}

/// The status table of the retrying fetch, as a function of one event.
pub open spec fn spec_classify(ev: HttpEvent) -> FetchStep {
    match ev {
        HttpEvent::Status { code, retry_after, body } => {
            if code == 200 {
                FetchStep::Success(body)
            } else if code == 429 {
                match retry_after {
                    Option::Some(secs) => FetchStep::RetryAfterCooldown(secs),
                    Option::None => FetchStep::Fail(FetchError::NoRetryAfter),
                }
            } else if code == 401 {
                FetchStep::RetryAfterRefresh
            } else {
                FetchStep::Fail(FetchError::UnexpectedStatus(code))
            }
        },
        HttpEvent::Transport { message } => FetchStep::Fail(FetchError::Transport(message)),
    }
}

/// Dispatches one response by status: 200 succeeds, 429 cools down and
/// retries, 401 refreshes and retries, anything else fails.
pub fn classify_response(ev: HttpEvent) -> (r: FetchStep)
    ensures
        r == spec_classify(ev),
{
    match ev {
        HttpEvent::Status { code, retry_after, body } => {
            if code == 200 {
                FetchStep::Success(body)
            } else if code == 429 {
                match retry_after {
                    Option::Some(secs) => FetchStep::RetryAfterCooldown(secs),
                    Option::None => FetchStep::Fail(FetchError::NoRetryAfter),
                }
            } else if code == 401 {
                FetchStep::RetryAfterRefresh
            } else {
                FetchStep::Fail(FetchError::UnexpectedStatus(code))
            }
        },
        HttpEvent::Transport { message } => FetchStep::Fail(FetchError::Transport(message)),
    }
}

/// The outcome of the retrying fetch over a response script: retries walk
/// through 429-with-delay and 401 events; everything else ends the fetch.
pub open spec fn spec_fetch_outcome(events: Seq<HttpEvent>) -> FetchOutcome
    decreases events.len(),
{
    if events.len() == 0 {
        FetchOutcome::Exhausted
    } else {
        match spec_classify(events[0]) {
            FetchStep::Success(body) => FetchOutcome::Done(body),
            FetchStep::RetryAfterCooldown(_) => spec_fetch_outcome(events.drop_first()),
            FetchStep::RetryAfterRefresh => spec_fetch_outcome(events.drop_first()),
            FetchStep::Fail(e) => FetchOutcome::Failed(e),
        }
    }
}

/// How often the ring advances over a response script: once per
/// 429-with-delay while another identity is queued (`queued` falls by one
/// each time; a lone identity just waits its own cooldown out).
pub open spec fn spec_fetch_rotations(events: Seq<HttpEvent>, queued: int) -> int
    decreases events.len(),
{
    if events.len() == 0 {
        0
    } else {
        match spec_classify(events[0]) {
            FetchStep::Success(_) => 0,
            FetchStep::RetryAfterCooldown(_) => if queued >= 1 {
                1 + spec_fetch_rotations(events.drop_first(), queued - 1)
            } else {
                spec_fetch_rotations(events.drop_first(), queued)
            },
            FetchStep::RetryAfterRefresh => spec_fetch_rotations(events.drop_first(), queued),
            FetchStep::Fail(_) => 0,
        }
    }
}

/// How often the ring is refreshed over a response script: once per 401.
pub open spec fn spec_fetch_refreshes(events: Seq<HttpEvent>) -> int
    decreases events.len(),
{
    if events.len() == 0 {
        0
    } else {
        match spec_classify(events[0]) {
            FetchStep::Success(_) => 0,
            FetchStep::RetryAfterCooldown(_) => spec_fetch_refreshes(events.drop_first()),
            FetchStep::RetryAfterRefresh => 1 + spec_fetch_refreshes(events.drop_first()),
            FetchStep::Fail(_) => 0,
        }
    }
}

/// The result of driving a fetch over a response script, with the ring
/// actions it took.
pub struct FetchRun {
    pub outcome: FetchOutcome,
    pub rotations: usize,
    pub refreshes: usize,
}

/// Drives the retrying fetch over a scripted sequence of responses to one
/// URL: dispatches each response by the status table, performing the ring
/// actions, until one ends the fetch. `refresh_tokens` holds the token
/// each successive refresh managed to obtain, as the token endpoint
/// answered.
#[verifier::loop_isolation(false)]
pub fn run_fetch(
    ring: &mut ClientRing,
    events: Vec<HttpEvent>,
    refresh_tokens: &Vec<Option<String>>,
) -> (r: FetchRun)
    requires
        old(ring).wf(),
    ensures
        final(ring).wf(),
        r.outcome == spec_fetch_outcome(events@),
        r.rotations as int == spec_fetch_rotations(
            events@,
            old(ring).queued_entries().len() as int,
        ),
        r.refreshes as int == spec_fetch_refreshes(events@),
        final(ring).client_count() == old(ring).client_count(),
        final(ring).slot_count() == old(ring).slot_count(),
        spec_fetch_rotations(events@, old(ring).queued_entries().len() as int) == 0
            && spec_fetch_refreshes(events@) == 0 ==> *final(ring) == *old(ring),
        final(ring).sleeping_entries().len() == old(ring).sleeping_entries().len()
            + r.rotations,
        final(ring).sleeping_entries().take(old(ring).sleeping_entries().len() as int)
            == old(ring).sleeping_entries(),
{
    let ghost all = events@;
    let ghost q0 = old(ring).queued_entries().len() as int;
    let ghost sleeping0 = old(ring).sleeping_entries();
    let mut evs = events;
    let n0 = evs.len();
    let mut rotations: usize = 0;
    let mut refreshes: usize = 0;
    while evs.len() > 0
        invariant
            ring.wf(),
            ring.client_count() == old(ring).client_count(),
            ring.slot_count() == old(ring).slot_count(),
            n0 as int == all.len(),
            rotations + refreshes <= all.len() - evs@.len(),
            spec_fetch_outcome(all) == spec_fetch_outcome(evs@),
            spec_fetch_rotations(all, q0) == rotations + spec_fetch_rotations(
                evs@,
                ring.queued_entries().len() as int,
            ),
            spec_fetch_refreshes(all) == refreshes + spec_fetch_refreshes(evs@),
            rotations == 0 && refreshes == 0 ==> *ring == *old(ring),
            ring.sleeping_entries().len() == sleeping0.len() + rotations,
            ring.sleeping_entries().take(sleeping0.len() as int) == sleeping0,
        decreases evs@.len(),
    {
        let ghost before = evs@;
        let ev = evs.remove(0);
        proof {
            assert(evs@ =~= before.drop_first());
        }
        let step = classify_response(ev);
        proof {
            assert(before[0] == ev);
            assert(spec_fetch_outcome(before) == (match spec_classify(ev) {
                FetchStep::Success(body) => FetchOutcome::Done(body),
                FetchStep::RetryAfterCooldown(_) => spec_fetch_outcome(before.drop_first()),
                FetchStep::RetryAfterRefresh => spec_fetch_outcome(before.drop_first()),
                FetchStep::Fail(e) => FetchOutcome::Failed(e),
            }));
        }
        match step {
            FetchStep::Success(body) => {
                proof {
                    assert(spec_fetch_rotations(before, ring.queued_entries().len() as int) == 0);
                    assert(spec_fetch_refreshes(before) == 0);
                }
                return FetchRun { outcome: FetchOutcome::Done(body), rotations, refreshes };
            },
            FetchStep::RetryAfterCooldown(secs) => {
                let ghost q_before = ring.queued_entries().len() as int;
                proof {
                    if q_before >= 1 {
                        assert(spec_fetch_rotations(before, q_before) == 1
                            + spec_fetch_rotations(before.drop_first(), q_before - 1));
                    } else {
                        assert(spec_fetch_rotations(before, q_before) == spec_fetch_rotations(
                            before.drop_first(),
                            q_before,
                        ));
                    }
                    assert(spec_fetch_refreshes(before) == spec_fetch_refreshes(
                        before.drop_first(),
                    ));
                }
                if ring.queued_count() >= 1 {
                    ring.sleep_front_and_get_next(secs);
                    rotations = rotations + 1;
                    proof {
                        assert(ring.sleeping_entries().take(sleeping0.len() as int)
                            =~= sleeping0);
                    }
                }
                // with no queued identity the caller waits the cooldown
                // out and retries on the same identity
            },
            FetchStep::RetryAfterRefresh => {
                proof {
                    assert(spec_fetch_rotations(before, ring.queued_entries().len() as int)
                        == spec_fetch_rotations(
                        before.drop_first(),
                        ring.queued_entries().len() as int,
                    ));
                    assert(spec_fetch_refreshes(before) == 1 + spec_fetch_refreshes(
                        before.drop_first(),
                    ));
                }
                let tok: Option<String> = if refreshes < refresh_tokens.len() {
                    match &refresh_tokens[refreshes] {
                        Option::Some(t) => Option::Some(t.clone()),
                        Option::None => Option::None,
                    }
                } else {
                    Option::None
                };
                ring.refresh_front_and_get_next(tok);
                refreshes = refreshes + 1;
            },
            FetchStep::Fail(e) => {
                proof {
                    assert(spec_fetch_rotations(before, ring.queued_entries().len() as int) == 0);
                    assert(spec_fetch_refreshes(before) == 0);
                }
                return FetchRun { outcome: FetchOutcome::Failed(e), rotations, refreshes };
            },
        }
    }
    FetchRun { outcome: FetchOutcome::Exhausted, rotations, refreshes }
}

/// Retry idempotence: a script of two rate-limited responses bearing a
/// retry delay and then a success yields exactly the one decoded body,
/// advances the ring exactly twice (two identities being queued), and
/// never refreshes.
pub proof fn lemma_retry_idempotence(
    s1: u64,
    s2: u64,
    b1: String,
    b2: String,
    body: String,
    queued: int,
)
    requires
        queued >= 2,
    ensures
        spec_fetch_outcome(
            seq![
                (HttpEvent::Status { code: 429, retry_after: Option::Some(s1), body: b1 }),
                (HttpEvent::Status { code: 429, retry_after: Option::Some(s2), body: b2 }),
                (HttpEvent::Status { code: 200, retry_after: Option::None, body: body }),
            ],
        ) == FetchOutcome::Done(body),
        spec_fetch_rotations(
            seq![
                (HttpEvent::Status { code: 429, retry_after: Option::Some(s1), body: b1 }),
                (HttpEvent::Status { code: 429, retry_after: Option::Some(s2), body: b2 }),
                (HttpEvent::Status { code: 200, retry_after: Option::None, body: body }),
            ],
            queued,
        ) == 2,
        spec_fetch_refreshes(
            seq![
                (HttpEvent::Status { code: 429, retry_after: Option::Some(s1), body: b1 }),
                (HttpEvent::Status { code: 429, retry_after: Option::Some(s2), body: b2 }),
                (HttpEvent::Status { code: 200, retry_after: Option::None, body: body }),
            ],
        ) == 0,
{
    let e1 = HttpEvent::Status { code: 429, retry_after: Option::Some(s1), body: b1 };
    let e2 = HttpEvent::Status { code: 429, retry_after: Option::Some(s2), body: b2 };
    let e3 = HttpEvent::Status { code: 200, retry_after: Option::None, body: body };
    let s = seq![e1, e2, e3];
    assert(s.drop_first() =~= seq![e2, e3]);
    assert(seq![e2, e3].drop_first() =~= seq![e3]);
    assert(spec_fetch_outcome(seq![e3]) == FetchOutcome::Done(body));
    assert(spec_fetch_outcome(seq![e2, e3]) == FetchOutcome::Done(body));
    assert(spec_fetch_outcome(s) == FetchOutcome::Done(body));
    assert(spec_fetch_rotations(seq![e3], queued - 2) == 0);
    assert(spec_fetch_rotations(seq![e2, e3], queued - 1) == 1);
    assert(spec_fetch_rotations(s, queued) == 2);
    assert(spec_fetch_refreshes(seq![e3]) == 0);
    assert(spec_fetch_refreshes(seq![e2, e3]) == 0);
    assert(spec_fetch_refreshes(s) == 0);
}

/// Refresh on 401: a script of one unauthorized response and then a
/// success yields exactly the one decoded body and exactly one refresh on
/// the ring, and never advances it by cooldown.
pub proof fn lemma_refresh_on_401(b1: String, body: String, queued: int)
    ensures
        spec_fetch_outcome(
            seq![
                (HttpEvent::Status { code: 401, retry_after: Option::None, body: b1 }),
                (HttpEvent::Status { code: 200, retry_after: Option::None, body: body }),
            ],
        ) == FetchOutcome::Done(body),
        spec_fetch_refreshes(
            seq![
                (HttpEvent::Status { code: 401, retry_after: Option::None, body: b1 }),
                (HttpEvent::Status { code: 200, retry_after: Option::None, body: body }),
            ],
        ) == 1,
        spec_fetch_rotations(
            seq![
                (HttpEvent::Status { code: 401, retry_after: Option::None, body: b1 }),
                (HttpEvent::Status { code: 200, retry_after: Option::None, body: body }),
            ],
            queued,
        ) == 0,
{
    let e1 = HttpEvent::Status { code: 401, retry_after: Option::None, body: b1 };
    let e2 = HttpEvent::Status { code: 200, retry_after: Option::None, body: body };
    let s = seq![e1, e2];
    assert(s.drop_first() =~= seq![e2]);
    assert(spec_fetch_outcome(seq![e2]) == FetchOutcome::Done(body));
    assert(spec_fetch_outcome(s) == FetchOutcome::Done(body));
    assert(spec_fetch_refreshes(seq![e2]) == 0);
    assert(spec_fetch_refreshes(s) == 1);
    assert(spec_fetch_rotations(seq![e2], queued) == 0);
    assert(spec_fetch_rotations(s, queued) == 0);
}

/// The fixed backoff of the retry-forever wrapper, in seconds.
pub const RETRY_BACKOFF_SECS: u64 = 3;

/// What the retry-forever wrapper does next: hand the value on, or retry
/// after the fixed backoff.
pub enum LoopStep<T> {
    Finished(T),
    RetryAfter(u64),
}

/// The retry-forever policy around a workload-level endpoint call: a
/// success is final; any failure is retried after the fixed backoff,
/// without a retry budget.
pub fn loop_until_ok_step<T>(r: Result<T, SimpleError>) -> (s: LoopStep<T>)
    ensures
        match r {
            Result::Ok(v) => s == LoopStep::Finished(v),
            Result::Err(_) => s == LoopStep::<T>::RetryAfter(RETRY_BACKOFF_SECS),
        },
{
    match r {
        Result::Ok(v) => LoopStep::Finished(v),
        Result::Err(_) => LoopStep::RetryAfter(RETRY_BACKOFF_SECS),
    }
}

} // verus!
