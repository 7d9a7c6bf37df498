use vstd::prelude::*;
use crate::quota::{
    is_suspicious_premature_reset, same_quota_values, same_values, suspicious_reset, close_to,
    has_close_in, QuotaSnapshot, QuotaWindow,
};

verus! {

/// What a refresh leaves behind: the snapshot to show, the reading kept
/// waiting for confirmation, and when to re-query to confirm it (Unix seconds).
pub struct RefreshDecision {
    pub next: QuotaSnapshot,
    pub pending: Option<QuotaSnapshot>,
    pub confirmation_due: Option<i64>,
}

/// The pending reading repeats the candidate's values.
pub open spec fn confirms(pending: Option<QuotaSnapshot>, candidate: QuotaSnapshot) -> bool {
    pending matches Some(p) && same_values(p.windows@, candidate.windows@)
}

/// The decision of one refresh at `now_seconds`.
pub open spec fn refresh_decision(
    previous: QuotaSnapshot,
    candidate: QuotaSnapshot,
    pending: Option<QuotaSnapshot>,
    now_seconds: int,
) -> RefreshDecision {
    if suspicious_reset(previous.windows@, candidate, now_seconds * 1000) {
        if confirms(pending, candidate) {
            RefreshDecision { next: candidate, pending: None, confirmation_due: None }
        } else {
            RefreshDecision {
                next: previous,
                pending: Some(candidate),
                confirmation_due: Some((now_seconds + 3) as i64),
            }
        }
    } else {
        RefreshDecision { next: candidate, pending: None, confirmation_due: None }
    }
}

/// Decides what a fresh reading changes. A reading that raises a window's
/// remaining quota by ten points or more before that window's reset is held
/// back: the previous snapshot stays, the reading becomes pending and a
/// confirming query is due three seconds later. It is adopted once a second
/// reading repeats it. Any other reading is adopted at once and clears the
/// pending one.
pub fn decide_refresh(
    previous: QuotaSnapshot,
    candidate: QuotaSnapshot,
    pending: Option<QuotaSnapshot>,
    now_seconds: i64,
) -> (d: RefreshDecision)
    requires
        i64::MIN <= now_seconds * 1000 <= i64::MAX,
        now_seconds + 3 <= i64::MAX,
    ensures
        d == refresh_decision(previous, candidate, pending, now_seconds as int),
{
    if is_suspicious_premature_reset(&previous, &candidate, now_seconds * 1000) {
        let confirmed = match &pending {
            Some(p) => same_quota_values(p, &candidate),
            None => false,
        };
        if confirmed {
            RefreshDecision { next: candidate, pending: None, confirmation_due: None }
        } else {
            RefreshDecision { next: previous, pending: Some(candidate), confirmation_due: Some(now_seconds + 3) }
        }
    } else {
        RefreshDecision { next: candidate, pending: None, confirmation_due: None }
    }
}

/// Every reading repeats its own values.
pub proof fn law_same_values_reflexive(windows: Seq<QuotaWindow>)
    ensures
        same_values(windows, windows),
{
    assert forall|i: int| 0 <= i < windows.len() implies has_close_in(#[trigger] windows[i], windows) by {
        assert(close_to(windows[i], windows[i]));
    }
}

/// A reading that rises early, and that the pending reading does not repeat,
/// is not shown: the previous snapshot stays and the reading waits for
/// confirmation.
pub proof fn law_early_rise_is_held_back(
    previous: QuotaSnapshot,
    candidate: QuotaSnapshot,
    pending: Option<QuotaSnapshot>,
    now_seconds: int,
)
    requires
        suspicious_reset(previous.windows@, candidate, now_seconds * 1000),
        !confirms(pending, candidate),
    ensures
        refresh_decision(previous, candidate, pending, now_seconds).next == previous,
        refresh_decision(previous, candidate, pending, now_seconds).pending == Some(candidate),
{
}

/// A reading that is neither cached nor made with a broken login and does
/// not rise early is shown at once.
pub proof fn law_ordinary_reading_is_adopted(
    previous: QuotaSnapshot,
    candidate: QuotaSnapshot,
    pending: Option<QuotaSnapshot>,
    now_seconds: int,
)
    requires
        !suspicious_reset(previous.windows@, candidate, now_seconds * 1000),
    ensures
        refresh_decision(previous, candidate, pending, now_seconds).next == candidate,
        refresh_decision(previous, candidate, pending, now_seconds).pending is None,
{
}

/// Two consecutive early-rising readings with the same values: the first is
/// held back, the second is shown.
pub proof fn law_repeated_rise_is_adopted(
    previous: QuotaSnapshot,
    first: QuotaSnapshot,
    second: QuotaSnapshot,
    pending: Option<QuotaSnapshot>,
    first_at: int,
    second_at: int,
)
    requires
        suspicious_reset(previous.windows@, first, first_at * 1000),
        suspicious_reset(previous.windows@, second, second_at * 1000),
        !confirms(pending, first),
        same_values(first.windows@, second.windows@),
    ensures
        ({
            let d1 = refresh_decision(previous, first, pending, first_at);
            let d2 = refresh_decision(d1.next, second, d1.pending, second_at);
            d1.next == previous && d2.next == second && d2.pending is None
        }),
{
}

// ------------------------------------------------------------ scheduling

/// The state of the once-a-second refresh scheduler.
pub struct RefreshClock {
    /// Unix seconds of the last refresh it started (0: none yet).
    pub last_periodic: i64,
    /// The last window reset (Unix milliseconds) that triggered a refresh.
    pub last_reset_trigger: Option<i64>,
    /// When a pending reading is to be confirmed (Unix seconds).
    pub confirmation_due: Option<i64>,
}

/// What one tick of the scheduler does.
pub struct Tick {
    pub clock: RefreshClock,
    pub refresh: bool,
}

/// The latest window reset at or before `limit`.
pub open spec fn latest_reset(ws: Seq<QuotaWindow>, limit: int) -> Option<i64>
    decreases ws.len(),
{
    if ws.len() == 0 {
        None
    } else {
        let rest = latest_reset(ws.drop_last(), limit);
        match ws.last().reset_at {
            Some(r) => if r <= limit {
                match rest {
                    Some(m) => if m >= r {
                        Some(m)
                    } else {
                        Some(r)
                    },
                    None => Some(r),
                }
            } else {
                rest
            },
            None => rest,
        }
    }
}

/// A passed reset that has not triggered a refresh yet.
pub open spec fn reset_due(clock: RefreshClock, ws: Seq<QuotaWindow>, now_seconds: int) -> bool {
    latest_reset(ws, now_seconds * 1000) matches Some(r) && clock.last_reset_trigger != Some(r)
}

pub open spec fn confirmation_due(clock: RefreshClock, now_seconds: int) -> bool {
    clock.confirmation_due matches Some(d) && d <= now_seconds
}

/// The scheduler's tick at `now_seconds`.
pub open spec fn tick_result(clock: RefreshClock, ws: Seq<QuotaWindow>, now_seconds: int, auth_changed: bool) -> Tick {
    let reset = reset_due(clock, ws, now_seconds);
    let confirm = confirmation_due(clock, now_seconds);
    let refresh = clock.last_periodic == 0 || now_seconds - clock.last_periodic >= 60 || auth_changed
        || reset || confirm;
    Tick {
        clock: RefreshClock {
            last_periodic: if refresh {
                now_seconds as i64
            } else {
                clock.last_periodic
            },
            last_reset_trigger: if reset {
                latest_reset(ws, now_seconds * 1000)
            } else {
                clock.last_reset_trigger
            },
            confirmation_due: if confirm {
                None
            } else {
                clock.confirmation_due
            },
        },
        refresh,
    }
}

/// The latest window reset at or before `limit` (Unix milliseconds).
pub fn latest_passed_reset(ws: &Vec<QuotaWindow>, limit: i64) -> (r: Option<i64>)
    ensures
        r == latest_reset(ws@, limit as int),
{
    let mut best: Option<i64> = None;
    let mut i: usize = 0;
    while i < ws.len()
        invariant
            i <= ws@.len(),
            best == latest_reset(ws@.take(i as int), limit as int),
        decreases ws@.len() - i,
    {
        assert(ws@.take(i + 1).drop_last() =~= ws@.take(i as int));
        assert(ws@.take(i + 1).last() == ws@[i as int]);
        match ws[i].reset_at {
            Some(r) => {
                if r <= limit {
                    best = match best {
                        Some(m) => if m >= r {
                            Some(m)
                        } else {
                            Some(r)
                        },
                        None => Some(r),
                    };
                }
            },
            None => {},
        }
        i = i + 1;
    }
    assert(ws@.take(ws@.len() as int) =~= ws@);
    best
}

/// One tick of the refresh scheduler. A refresh starts on the first tick, a
/// minute after the last one, when the login file changed, when a window's
/// reset time has passed (once per reset), and when a pending reading is due
/// for confirmation.
pub fn tick(clock: RefreshClock, windows: &Vec<QuotaWindow>, now_seconds: i64, auth_changed: bool) -> (t: Tick)
    requires
        i64::MIN <= now_seconds * 1000 <= i64::MAX,
        i64::MIN <= now_seconds - clock.last_periodic <= i64::MAX,
    ensures
        t == tick_result(clock, windows@, now_seconds as int, auth_changed),
{
    let latest = latest_passed_reset(windows, now_seconds * 1000);
    let reset = match latest {
        Some(r) => clock.last_reset_trigger != Some(r),
        None => false,
    };
    let confirm = match clock.confirmation_due {
        Some(d) => d <= now_seconds,
        None => false,
    };
    let refresh = clock.last_periodic == 0 || now_seconds - clock.last_periodic >= 60 || auth_changed
        || reset || confirm;
    Tick {
        clock: RefreshClock {
            last_periodic: if refresh {
                now_seconds
            } else {
                clock.last_periodic
            },
            last_reset_trigger: if reset {
                latest
            } else {
                clock.last_reset_trigger
            },
            confirmation_due: if confirm {
                None
            } else {
                clock.confirmation_due
            },
        },
        refresh,
    }
}

/// A passed reset triggers one refresh: a later tick that sees the same
/// latest reset does not count it again.
pub proof fn law_reset_counted_once(
    clock: RefreshClock,
    windows: Seq<QuotaWindow>,
    first_at: int,
    second_at: int,
    auth_changed: bool,
)
    requires
        latest_reset(windows, first_at * 1000) is Some,
        latest_reset(windows, second_at * 1000) == latest_reset(windows, first_at * 1000),
    ensures
        !reset_due(tick_result(clock, windows, first_at, auth_changed).clock, windows, second_at),
{
}

/// At most a minute passes between refreshes.
pub proof fn law_refresh_at_least_every_minute(
    clock: RefreshClock,
    windows: Seq<QuotaWindow>,
    now_seconds: int,
    auth_changed: bool,
)
    requires
        now_seconds - clock.last_periodic >= 60,
    ensures
        tick_result(clock, windows, now_seconds, auth_changed).refresh,
        tick_result(clock, windows, now_seconds, auth_changed).clock.last_periodic == now_seconds as i64,
{
}

/// A tick refreshes exactly on the first tick, a minute or more after the
/// last refresh, when the login file changed, when a passed reset has not
/// triggered a refresh yet (which it then records), or when a pending reading
/// is due for confirmation (which is then cleared).
pub proof fn law_refresh_rule(clock: RefreshClock, windows: Seq<QuotaWindow>, now_seconds: int, auth_changed: bool)
    ensures
        tick_result(clock, windows, now_seconds, auth_changed).refresh <==> (clock.last_periodic == 0
            || now_seconds - clock.last_periodic >= 60 || auth_changed || reset_due(clock, windows, now_seconds)
            || confirmation_due(clock, now_seconds)),
        reset_due(clock, windows, now_seconds) ==> tick_result(clock, windows, now_seconds, auth_changed).clock.last_reset_trigger
            == latest_reset(windows, now_seconds * 1000),
        !reset_due(clock, windows, now_seconds) ==> tick_result(clock, windows, now_seconds, auth_changed).clock.last_reset_trigger
            == clock.last_reset_trigger,
        confirmation_due(clock, now_seconds) ==> tick_result(clock, windows, now_seconds, auth_changed).clock.confirmation_due is None,
        !confirmation_due(clock, now_seconds) ==> tick_result(clock, windows, now_seconds, auth_changed).clock.confirmation_due
            == clock.confirmation_due,
{
}

/// The latest passed reset is the reset time of one of the windows, at or
/// before `limit`, and no window's reset at or before `limit` is later; it
/// is absent exactly when no window has a reset at or before `limit`.
pub proof fn law_latest_reset_is_latest_passed(ws: Seq<QuotaWindow>, limit: int)
    ensures
        latest_reset(ws, limit) matches Some(x) ==> x <= limit && exists|i: int|
            0 <= i < ws.len() && #[trigger] ws[i].reset_at == Some(x),
        forall|i: int| 0 <= i < ws.len() && (#[trigger] ws[i]).reset_at is Some && ws[i].reset_at->0 <= limit
            ==> (latest_reset(ws, limit) is Some && ws[i].reset_at->0 <= latest_reset(ws, limit)->0),
    decreases ws.len(),
{
    if ws.len() > 0 {
        let rest = ws.drop_last();
        law_latest_reset_is_latest_passed(rest, limit);
        assert forall|i: int| 0 <= i < rest.len() implies #[trigger] rest[i] == ws[i] by {}
        if let Some(x) = latest_reset(ws, limit) {
            if latest_reset(rest, limit) == Some(x) {
                let i = choose|i: int| 0 <= i < rest.len() && #[trigger] rest[i].reset_at == Some(x);
                assert(ws[i].reset_at == Some(x));
            } else {
                assert(ws[ws.len() - 1].reset_at == Some(x));
            }
        }
        assert forall|i: int| 0 <= i < ws.len() && (#[trigger] ws[i]).reset_at is Some && ws[i].reset_at->0 <= limit
            implies (latest_reset(ws, limit) is Some && ws[i].reset_at->0 <= latest_reset(ws, limit)->0) by {
            if i < ws.len() - 1 {
                assert(rest[i] == ws[i]);
            }
        }
    }
}

/// A tick refreshes for a window reset only once that reset has passed: when
/// every window resets later than `now_seconds` (or has no reset time), the
/// tick neither counts a reset nor changes the recorded one.
pub proof fn law_future_resets_do_not_trigger(clock: RefreshClock, windows: Seq<QuotaWindow>, now_seconds: int, auth_changed: bool)
    requires
        forall|i: int| 0 <= i < windows.len() ==> (#[trigger] windows[i].reset_at matches Some(r) ==> r > now_seconds * 1000),
    ensures
        !reset_due(clock, windows, now_seconds),
        tick_result(clock, windows, now_seconds, auth_changed).clock.last_reset_trigger == clock.last_reset_trigger,
        tick_result(clock, windows, now_seconds, auth_changed).refresh <==> (clock.last_periodic == 0
            || now_seconds - clock.last_periodic >= 60 || auth_changed || confirmation_due(clock, now_seconds)),
{
    law_latest_reset_is_latest_passed(windows, now_seconds * 1000);
    if let Some(x) = latest_reset(windows, now_seconds * 1000) {
        let i = choose|i: int| 0 <= i < windows.len() && #[trigger] windows[i].reset_at == Some(x);
        assert(windows[i].reset_at == Some(x));
    }
}

} // verus!
