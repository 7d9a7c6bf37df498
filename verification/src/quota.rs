use vstd::prelude::*;
use crate::text::{decimal, is_blank, push_decimal, trim};

verus! {

/// One hundred percent, in the hundredths of a percent that every
/// percentage of this module is counted in.
pub const HUNDRED_PERCENT: i64 = 10_000;

/// The rolling windows that the usage endpoint reports.
#[derive(Debug, Clone, Copy, PartialEq, Eq, Structural)]
pub enum WindowKind {
    FiveHour,
    SevenDay,
    ThirtyDay,
    Unknown,
}

/// What the last attempt to use the stored login found.
#[derive(Debug, Clone, Copy, PartialEq, Eq, Structural)]
pub enum CredentialStatus {
    /// Nothing has been queried yet.
    Unknown,
    Valid,
    NotFound,
    ParseError,
    Expired,
}

/// One quota window as shown to the user. Percentages are in hundredths of
/// a percent (`HUNDRED_PERCENT` is 100 %); `reset_at` is in Unix milliseconds.
#[derive(Debug)]
pub struct QuotaWindow {
    pub kind: WindowKind,
    pub label: String,
    pub used_percent: i64,
    pub remaining_percent: i64,
    pub reset_at: Option<i64>,
}

/// The quota state that the widget displays.
#[derive(Debug)]
pub struct QuotaSnapshot {
    pub windows: Vec<QuotaWindow>,
    /// Unix milliseconds of the reading.
    pub queried_at: Option<i64>,
    /// The windows are an earlier reading kept after a failure.
    pub cached: bool,
    pub credential_status: CredentialStatus,
    pub error: Option<String>,
}

/// A window as the usage endpoint reports it: the used percentage (hundredths
/// of a percent), the window length in seconds and the reset time in Unix seconds.
#[derive(Debug)]
pub struct RateLimitWindow {
    pub used_percent: Option<i64>,
    pub limit_window_seconds: Option<i64>,
    pub reset_at: Option<i64>,
}

/// The `rate_limit` object of the usage response.
#[derive(Debug)]
pub struct RateLimit {
    pub primary_window: Option<RateLimitWindow>,
    pub secondary_window: Option<RateLimitWindow>,
}

/// Why a quota query failed.
#[derive(Debug)]
pub enum QueryError {
    NotFound,
    Parse(String),
    Unauthorized,
    RateLimited,
    Network(String),
    Http(u16),
    Response(String),
}

// ---------------------------------------------------------------- specs

pub open spec fn clamp_percent(p: int) -> int {
    if p < 0 {
        0
    } else if p > HUNDRED_PERCENT {
        HUNDRED_PERCENT as int
    } else {
        p
    }
}

/// `i64::saturating_mul(x, 1000)`.
pub open spec fn millis_of(seconds: int) -> int {
    if seconds * 1000 > i64::MAX {
        i64::MAX as int
    } else if seconds * 1000 < i64::MIN {
        i64::MIN as int
    } else {
        seconds * 1000
    }
}

/// `i64::saturating_add`.
pub open spec fn saturating_add(a: int, b: int) -> int {
    if a + b > i64::MAX {
        i64::MAX as int
    } else if a + b < i64::MIN {
        i64::MIN as int
    } else {
        a + b
    }
}

pub open spec fn kind_of_length(seconds: int) -> WindowKind {
    if seconds == 18_000 {
        WindowKind::FiveHour
    } else if seconds == 604_800 {
        WindowKind::SevenDay
    } else if seconds == 2_592_000 {
        WindowKind::ThirtyDay
    } else {
        WindowKind::Unknown
    }
}

pub open spec fn label_of(kind: WindowKind) -> Seq<char> {
    match kind {
        WindowKind::FiveHour => "5 小时"@,
        WindowKind::SevenDay => "7 天"@,
        WindowKind::ThirtyDay => "30 天"@,
        WindowKind::Unknown => "其他窗口"@,
    }
}

/// Display order of the windows.
pub open spec fn rank(kind: WindowKind) -> int {
    match kind {
        WindowKind::FiveHour => 0,
        WindowKind::SevenDay => 1,
        WindowKind::ThirtyDay => 2,
        WindowKind::Unknown => 3,
    }
}

/// What the user sees of a window.
pub struct QuotaWindowView {
    pub kind: WindowKind,
    pub label: Seq<char>,
    pub used_percent: int,
    pub remaining_percent: int,
    pub reset_at: Option<int>,
}

impl View for QuotaWindow {
    type V = QuotaWindowView;

    open spec fn view(&self) -> QuotaWindowView {
        QuotaWindowView {
            kind: self.kind,
            label: self.label@,
            used_percent: self.used_percent as int,
            remaining_percent: self.remaining_percent as int,
            reset_at: match self.reset_at {
                Some(t) => Some(t as int),
                None => None,
            },
        }
    }
}

/// The views of a list of windows.
pub open spec fn views(ws: Seq<QuotaWindow>) -> Seq<QuotaWindowView> {
    ws.map_values(|w: QuotaWindow| w@)
}

/// What `to_quota_window` makes of a reported window.
pub open spec fn window_view_of(raw: RateLimitWindow) -> Option<QuotaWindowView> {
    match raw.used_percent {
        None => None,
        Some(u) => {
            let used = clamp_percent(u as int);
            let seconds = match raw.limit_window_seconds {
                Some(s) => s as int,
                None => 0,
            };
            let kind = kind_of_length(seconds);
            Some(QuotaWindowView {
                kind,
                label: label_of(kind),
                used_percent: used,
                remaining_percent: HUNDRED_PERCENT - used,
                reset_at: match raw.reset_at {
                    Some(t) => Some(millis_of(t as int)),
                    None => None,
                },
            })
        },
    }
}

/// The reported windows, primary first.
pub open spec fn reported(rl: RateLimit) -> Seq<RateLimitWindow> {
    present(rl.primary_window) + present(rl.secondary_window)
}

pub open spec fn present(w: Option<RateLimitWindow>) -> Seq<RateLimitWindow> {
    match w {
        Some(w) => seq![w],
        None => Seq::empty(),
    }
}

/// The displayable windows of a response, before ordering.
pub open spec fn displayable(rl: RateLimit) -> Seq<QuotaWindowView> {
    reported(rl).filter_map(|raw: RateLimitWindow| window_view_of(raw))
}

/// The windows of `ws` with display rank `k`, in their order.
pub open spec fn of_rank(ws: Seq<QuotaWindowView>, k: int) -> Seq<QuotaWindowView> {
    ws.filter(|w: QuotaWindowView| rank(w.kind) == k)
}

/// `ws` in display order; windows of equal rank keep their order.
pub open spec fn by_rank(ws: Seq<QuotaWindowView>) -> Seq<QuotaWindowView> {
    of_rank(ws, 0) + of_rank(ws, 1) + of_rank(ws, 2) + of_rank(ws, 3)
}

/// The text of an error, as the user sees it.
pub open spec fn error_text(e: QueryError) -> Seq<char> {
    match e {
        QueryError::NotFound => "未找到 Codex ChatGPT 登录信息"@,
        QueryError::Parse(d) => "Codex 登录信息无法读取: "@ + d@,
        QueryError::Unauthorized => "Codex 登录已失效，请在 Codex 中重新登录"@,
        QueryError::RateLimited => "额度服务请求过于频繁，请稍后再试"@,
        QueryError::Network(d) => "网络请求失败: "@ + d@,
        QueryError::Http(code) => "额度服务返回 HTTP "@ + decimal(code as nat),
        QueryError::Response(d) => "额度响应格式暂不受支持: "@ + d@,
    }
}

pub open spec fn status_for(e: QueryError) -> CredentialStatus {
    match e {
        QueryError::NotFound => CredentialStatus::NotFound,
        QueryError::Parse(_) => CredentialStatus::ParseError,
        QueryError::Unauthorized => CredentialStatus::Expired,
        _ => CredentialStatus::Valid,
    }
}

/// The first window of `kind` in `ws`.
pub open spec fn first_of_kind(ws: Seq<QuotaWindow>, kind: WindowKind) -> Option<QuotaWindow>
    decreases ws.len(),
{
    if ws.len() == 0 {
        None
    } else if ws[0].kind == kind {
        Some(ws[0])
    } else {
        first_of_kind(ws.drop_first(), kind)
    }
}

/// The window's reset is more than two minutes after `now` (Unix milliseconds).
pub open spec fn reset_still_ahead(w: QuotaWindow, now: int) -> bool {
    match w.reset_at {
        Some(reset) => reset > saturating_add(now, 120_000),
        None => false,
    }
}

/// Before `old` resets, the candidate shows at least ten points more of it remaining.
pub open spec fn jumped_early(old: QuotaWindow, candidate: Seq<QuotaWindow>, now: int) -> bool {
    &&& reset_still_ahead(old, now)
    &&& match first_of_kind(candidate, old.kind) {
        Some(new) => new.remaining_percent - old.remaining_percent >= 1000,
        None => false,
    }
}

/// A fresh, valid reading that raises some window's remaining quota by ten
/// points or more before that window was due to reset.
pub open spec fn suspicious_reset(previous: Seq<QuotaWindow>, candidate: QuotaSnapshot, now: int) -> bool {
    &&& !candidate.cached
    &&& candidate.credential_status == CredentialStatus::Valid
    &&& exists|i: int| 0 <= i < previous.len() && jumped_early(#[trigger] previous[i], candidate.windows@, now)
}

/// The two windows agree on kind and differ by at most two points of remaining quota.
pub open spec fn close_to(a: QuotaWindow, b: QuotaWindow) -> bool {
    a.kind == b.kind && -200 <= a.remaining_percent - b.remaining_percent <= 200
}

/// Some window of `ws` is close to `w`.
pub open spec fn has_close_in(w: QuotaWindow, ws: Seq<QuotaWindow>) -> bool {
    exists|j: int| 0 <= j < ws.len() && close_to(w, #[trigger] ws[j])
}

/// Same number of windows, and every window on the left has a close one on the right.
pub open spec fn same_values(left: Seq<QuotaWindow>, right: Seq<QuotaWindow>) -> bool {
    &&& left.len() == right.len()
    &&& forall|i: int| 0 <= i < left.len() ==> has_close_in(#[trigger] left[i], right)
}

/// The first window of `kind` in `ws` is the one at `j` when none before it has that kind.
proof fn lemma_first_of_kind_at(ws: Seq<QuotaWindow>, kind: WindowKind, j: int)
    requires
        0 <= j < ws.len(),
        ws[j].kind == kind,
        forall|k: int| 0 <= k < j ==> ws[k].kind != kind,
    ensures
        first_of_kind(ws, kind) == Some(ws[j]),
    decreases j,
{
    if j > 0 {
        assert(ws[0].kind != kind);
        let rest = ws.drop_first();
        assert forall|k: int| 0 <= k < j - 1 implies rest[k].kind != kind by {
            assert(rest[k] == ws[k + 1]);
        }
        lemma_first_of_kind_at(rest, kind, j - 1);
        assert(rest[j - 1] == ws[j]);
    }
}

/// A fresh, valid reading is suspicious whenever some earlier window (at
/// any position) was due to reset more than two minutes from now and the
/// reading's first window of the same kind shows ten points or more of it
/// remaining on top of what it showed.
pub proof fn law_early_jump_is_suspicious(previous: Seq<QuotaWindow>, candidate: QuotaSnapshot, now: i64, i: int, j: int)
    requires
        !candidate.cached,
        candidate.credential_status == CredentialStatus::Valid,
        0 <= i < previous.len(),
        0 <= j < candidate.windows@.len(),
        previous[i].reset_at matches Some(r) && r > now + 120_000,
        candidate.windows@[j].kind == previous[i].kind,
        forall|k: int| 0 <= k < j ==> candidate.windows@[k].kind != previous[i].kind,
        candidate.windows@[j].remaining_percent >= previous[i].remaining_percent + 1000,
    ensures
        suspicious_reset(previous, candidate, now as int),
{
    lemma_first_of_kind_at(candidate.windows@, previous[i].kind, j);
    assert(jumped_early(previous[i], candidate.windows@, now as int));
}

/// A reading is never suspicious when it is cached, was made without a valid
/// login, or when no earlier window was due to reset more than two minutes
/// from now.
pub proof fn law_no_early_reset_no_suspicion(previous: Seq<QuotaWindow>, candidate: QuotaSnapshot, now: i64)
    ensures
        candidate.cached ==> !suspicious_reset(previous, candidate, now as int),
        candidate.credential_status != CredentialStatus::Valid ==> !suspicious_reset(previous, candidate, now as int),
        (forall|i: int| 0 <= i < previous.len() ==> (#[trigger] previous[i].reset_at matches Some(r) ==> r <= now + 120_000))
            ==> !suspicious_reset(previous, candidate, now as int),
{
}

// ---------------------------------------------------------------- exec

impl QuotaWindow {
    /// A copy of the window.
    pub fn duplicate(&self) -> (r: QuotaWindow)
        ensures
            r == *self,
    {
        QuotaWindow {
            kind: self.kind,
            label: self.label.clone(),
            used_percent: self.used_percent,
            remaining_percent: self.remaining_percent,
            reset_at: self.reset_at,
        }
    }
}

/// A copy of the windows, in order.
pub fn duplicate_windows(ws: &Vec<QuotaWindow>) -> (r: Vec<QuotaWindow>)
    ensures
        r@ == ws@,
{
    let mut r: Vec<QuotaWindow> = Vec::new();
    let mut i: usize = 0;
    while i < ws.len()
        invariant
            i <= ws@.len(),
            r@ == ws@.subrange(0, i as int),
        decreases ws@.len() - i,
    {
        r.push(ws[i].duplicate());
        i = i + 1;
        assert(r@ =~= ws@.subrange(0, i as int));
    }
    assert(r@ =~= ws@);
    r
}

impl QuotaSnapshot {
    /// The snapshot before the first reading.
    pub fn empty() -> (s: QuotaSnapshot)
        ensures
            s.windows@.len() == 0,
            s.queried_at is None,
            !s.cached,
            s.credential_status == CredentialStatus::Unknown,
            s.error is None,
    {
        QuotaSnapshot {
            windows: Vec::new(),
            queried_at: None,
            cached: false,
            credential_status: CredentialStatus::Unknown,
            error: None,
        }
    }

    /// A copy of the snapshot.
    pub fn duplicate(&self) -> (r: QuotaSnapshot)
        ensures
            r.windows@ == self.windows@,
            r.queried_at == self.queried_at,
            r.cached == self.cached,
            r.credential_status == self.credential_status,
            r.error == self.error,
    {
        QuotaSnapshot {
            windows: duplicate_windows(&self.windows),
            queried_at: self.queried_at,
            cached: self.cached,
            credential_status: self.credential_status,
            error: match &self.error {
                Some(e) => Some(e.clone()),
                None => None,
            },
        }
    }
}

impl QueryError {
    /// The error's text, as the user sees it.
    pub fn message(&self) -> (m: String)
        ensures
            m@ == error_text(*self),
    {
        match self {
            QueryError::NotFound => String::from_str("未找到 Codex ChatGPT 登录信息"),
            QueryError::Parse(d) => {
                let mut m = String::from_str("Codex 登录信息无法读取: ");
                m.append(d.as_str());
                m
            },
            QueryError::Unauthorized => String::from_str("Codex 登录已失效，请在 Codex 中重新登录"),
            QueryError::RateLimited => String::from_str("额度服务请求过于频繁，请稍后再试"),
            QueryError::Network(d) => {
                let mut m = String::from_str("网络请求失败: ");
                m.append(d.as_str());
                m
            },
            QueryError::Http(code) => {
                let mut m = String::from_str("额度服务返回 HTTP ");
                push_decimal(&mut m, *code as u64);
                m
            },
            QueryError::Response(d) => {
                let mut m = String::from_str("额度响应格式暂不受支持: ");
                m.append(d.as_str());
                m
            },
        }
    }
}

fn seconds_to_millis(seconds: i64) -> (r: i64)
    ensures
        r == millis_of(seconds as int),
{
    match seconds.checked_mul(1000) {
        Some(v) => v,
        None => if seconds > 0 {
            i64::MAX
        } else {
            i64::MIN
        },
    }
}

fn label_for(kind: WindowKind) -> (s: String)
    ensures
        s@ == label_of(kind),
{
    match kind {
        WindowKind::FiveHour => String::from_str("5 小时"),
        WindowKind::SevenDay => String::from_str("7 天"),
        WindowKind::ThirtyDay => String::from_str("30 天"),
        WindowKind::Unknown => String::from_str("其他窗口"),
    }
}

/// Turns a reported window into a displayed one: the used share is clamped
/// to 0–100 %, the remainder is what is left of 100 %, the window length names
/// its kind, and the reset time goes from seconds to milliseconds. A window
/// that reports no used share is dropped.
pub fn to_quota_window(window: RateLimitWindow) -> (r: Option<QuotaWindow>)
    ensures
        match window_view_of(window) {
            Some(v) => r matches Some(w) && w@ == v,
            None => r is None,
        },
{
    let raw = match window.used_percent {
        Some(u) => u,
        None => return None,
    };
    let used = if raw < 0 {
        0
    } else if raw > HUNDRED_PERCENT {
        HUNDRED_PERCENT
    } else {
        raw
    };
    let seconds = match window.limit_window_seconds {
        Some(s) => s,
        None => 0,
    };
    let kind = if seconds == 18_000 {
        WindowKind::FiveHour
    } else if seconds == 604_800 {
        WindowKind::SevenDay
    } else if seconds == 2_592_000 {
        WindowKind::ThirtyDay
    } else {
        WindowKind::Unknown
    };
    Some(
        QuotaWindow {
            kind,
            label: label_for(kind),
            used_percent: used,
            remaining_percent: HUNDRED_PERCENT - used,
            reset_at: match window.reset_at {
                Some(t) => Some(seconds_to_millis(t)),
                None => None,
            },
        },
    )
}

/// The snapshot shown after a failed query: the previous windows stay, marked
/// as cached when there are any, the credential status follows the error and
/// the error's text is attached.
pub fn merge_failure(previous: &QuotaSnapshot, error: QueryError) -> (s: QuotaSnapshot)
    ensures
        s.windows@ == previous.windows@,
        s.queried_at == previous.queried_at,
        s.cached == (previous.windows@.len() > 0),
        s.credential_status == status_for(error),
        s.error matches Some(e) && e@ == error_text(error),
{
    let status = match &error {
        QueryError::NotFound => CredentialStatus::NotFound,
        QueryError::Parse(_) => CredentialStatus::ParseError,
        QueryError::Unauthorized => CredentialStatus::Expired,
        _ => CredentialStatus::Valid,
    };
    QuotaSnapshot {
        windows: duplicate_windows(&previous.windows),
        queried_at: previous.queried_at,
        cached: previous.windows.len() > 0,
        credential_status: status,
        error: Some(error.message()),
    }
}

proof fn lemma_first_of_kind_step(ws: Seq<QuotaWindow>, kind: WindowKind, j: int)
    requires
        0 <= j < ws.len(),
        ws[j].kind != kind,
    ensures
        first_of_kind(ws.subrange(j, ws.len() as int), kind) == first_of_kind(
            ws.subrange(j + 1, ws.len() as int),
            kind,
        ),
{
    assert(ws.subrange(j, ws.len() as int).drop_first() =~= ws.subrange(j + 1, ws.len() as int));
}

/// The first window of `kind`.
fn find_kind(ws: &Vec<QuotaWindow>, kind: WindowKind) -> (r: Option<usize>)
    ensures
        match first_of_kind(ws@, kind) {
            Some(w) => r matches Some(j) && j < ws@.len() && ws@[j as int] == w,
            None => r is None,
        },
{
    let mut j: usize = 0;
    assert(ws@.subrange(0, ws@.len() as int) =~= ws@);
    while j < ws.len()
        invariant
            j <= ws@.len(),
            first_of_kind(ws@, kind) == first_of_kind(ws@.subrange(j as int, ws@.len() as int), kind),
        decreases ws@.len() - j,
    {
        if ws[j].kind == kind {
            return Some(j);
        }
        proof {
            lemma_first_of_kind_step(ws@, kind, j as int);
        }
        j = j + 1;
    }
    None
}

/// Whether `candidate` raises some window's remaining quota by ten points or
/// more although `previous` says that window resets more than two minutes
/// after `now_millis`. Cached and invalid readings are never suspicious.
pub fn is_suspicious_premature_reset(
    previous: &QuotaSnapshot,
    candidate: &QuotaSnapshot,
    now_millis: i64,
) -> (b: bool)
    ensures
        b == suspicious_reset(previous.windows@, *candidate, now_millis as int),
{
    if candidate.cached || candidate.credential_status != CredentialStatus::Valid {
        return false;
    }
    let limit: i64 = match now_millis.checked_add(120_000) {
        Some(v) => v,
        None => i64::MAX,
    };
    let mut i: usize = 0;
    while i < previous.windows.len()
        invariant
            i <= previous.windows@.len(),
            !candidate.cached,
            candidate.credential_status == CredentialStatus::Valid,
            limit == saturating_add(now_millis as int, 120_000),
            forall|k: int| 0 <= k < i ==> !jumped_early(#[trigger] previous.windows@[k], candidate.windows@, now_millis as int),
        decreases previous.windows@.len() - i,
    {
        let old = &previous.windows[i];
        let ahead = match old.reset_at {
            Some(reset) => reset > limit,
            None => false,
        };
        if ahead {
            match find_kind(&candidate.windows, old.kind) {
                Some(j) => {
                    let new = &candidate.windows[j];
                    if (new.remaining_percent as i128) - (old.remaining_percent as i128) >= 1000 {
                        assert(jumped_early(previous.windows@[i as int], candidate.windows@, now_millis as int));
                        return true;
                    }
                },
                None => {},
            }
        }
        i = i + 1;
    }
    false
}

/// Whether some window of `ws` is close to `item`.
fn has_close(item: &QuotaWindow, ws: &Vec<QuotaWindow>) -> (b: bool)
    ensures
        b == has_close_in(*item, ws@),
{
    let mut j: usize = 0;
    while j < ws.len()
        invariant
            j <= ws@.len(),
            forall|m: int| 0 <= m < j ==> !close_to(*item, #[trigger] ws@[m]),
        decreases ws@.len() - j,
    {
        let other = &ws[j];
        let diff = (item.remaining_percent as i128) - (other.remaining_percent as i128);
        if item.kind == other.kind && -200 <= diff && diff <= 200 {
            assert(close_to(*item, ws@[j as int]));
            return true;
        }
        j = j + 1;
    }
    false
}

/// Whether `right` repeats the values of `left`: as many windows, and each
/// window of `left` within two points of a window of the same kind in `right`.
pub fn same_quota_values(left: &QuotaSnapshot, right: &QuotaSnapshot) -> (b: bool)
    ensures
        b == same_values(left.windows@, right.windows@),
{
    if left.windows.len() != right.windows.len() {
        return false;
    }
    let mut i: usize = 0;
    while i < left.windows.len()
        invariant
            i <= left.windows@.len(),
            left.windows@.len() == right.windows@.len(),
            forall|k: int| 0 <= k < i ==> has_close_in(#[trigger] left.windows@[k], right.windows@),
        decreases left.windows@.len() - i,
    {
        if !has_close(&left.windows[i], &right.windows) {
            return false;
        }
        i = i + 1;
    }
    true
}


fn rank_of(kind: WindowKind) -> (k: u8)
    ensures
        k == rank(kind),
{
    match kind {
        WindowKind::FiveHour => 0,
        WindowKind::SevenDay => 1,
        WindowKind::ThirtyDay => 2,
        WindowKind::Unknown => 3,
    }
}

/// Appends the windows of rank `k` of `ws` to `out`, in order.
fn push_rank(ws: &Vec<QuotaWindow>, out: &mut Vec<QuotaWindow>, k: u8)
    ensures
        views(final(out)@) == views(old(out)@) + of_rank(views(ws@), k as int),
{
    let ghost start = views(out@);
    let mut i: usize = 0;
    assert(views(ws@).take(0).filter(|w: QuotaWindowView| rank(w.kind) == k) =~= Seq::<QuotaWindowView>::empty()) by {
        reveal_with_fuel(Seq::<_>::filter, 1);
    }
    assert(views(out@) =~= start + views(ws@).take(0).filter(|w: QuotaWindowView| rank(w.kind) == k));
    while i < ws.len()
        invariant
            i <= ws@.len(),
            views(out@) == start + views(ws@).take(i as int).filter(|w: QuotaWindowView| rank(w.kind) == k),
        decreases ws@.len() - i,
    {
        let ghost before = views(out@);
        assert(views(ws@).take(i + 1).drop_last() =~= views(ws@).take(i as int));
        assert(views(ws@).take(i + 1).last() == ws@[i as int]@);
        proof {
            reveal_with_fuel(Seq::<_>::filter, 1);
        }
        if rank_of(ws[i].kind) == k {
            out.push(ws[i].duplicate());
            assert(views(out@) =~= before.push(ws@[i as int]@));
        } else {
            assert(views(out@) =~= before);
        }
        i = i + 1;
    }
    assert(views(ws@).take(ws@.len() as int) =~= views(ws@));
}

/// `ws` in display order (5 h, 7 d, 30 d, other), keeping the order of equal kinds.
pub fn order_windows(ws: Vec<QuotaWindow>) -> (r: Vec<QuotaWindow>)
    ensures
        views(r@) == by_rank(views(ws@)),
{
    let mut r: Vec<QuotaWindow> = Vec::new();
    assert(views(r@) =~= Seq::<QuotaWindowView>::empty());
    push_rank(&ws, &mut r, 0);
    push_rank(&ws, &mut r, 1);
    push_rank(&ws, &mut r, 2);
    push_rank(&ws, &mut r, 3);
    assert(views(r@) =~= by_rank(views(ws@)));
    r
}

/// The windows to display from a usage response: the primary and secondary
/// windows that report a used share, in display order. A response without
/// `rate_limit`, or without any displayable window, is an error.
pub fn collect_windows(rate_limit: Option<RateLimit>) -> (r: Result<Vec<QuotaWindow>, QueryError>)
    ensures
        match rate_limit {
            None => r matches Err(QueryError::Response(d)) && d@ == "缺少 rate_limit"@,
            Some(rl) => if displayable(rl).len() == 0 {
                r matches Err(QueryError::Response(d)) && d@ == "没有可显示的额度窗口"@
            } else {
                r matches Ok(ws) && views(ws@) == by_rank(displayable(rl))
            },
        },
{
    let rl = match rate_limit {
        Some(rl) => rl,
        None => return Err(QueryError::Response(String::from_str("缺少 rate_limit"))),
    };
    let ghost raws = reported(rl);
    let ghost f = |raw: RateLimitWindow| window_view_of(raw);
    let mut ws: Vec<QuotaWindow> = Vec::new();
    let ghost first = present(rl.primary_window);
    let ghost second = present(rl.secondary_window);
    match rl.primary_window {
        Some(w) => {
            let ghost raw = w;
            assert(seq![raw].drop_last() =~= Seq::<RateLimitWindow>::empty());
            match to_quota_window(w) {
                Some(q) => {
                    ws.push(q);
                },
                None => {},
            }
        },
        None => {},
    }
    assert(views(ws@) =~= first.filter_map(f)) by {
        reveal_with_fuel(Seq::<_>::filter_map, 2);
    }
    let ghost after_first = views(ws@);
    match rl.secondary_window {
        Some(w) => {
            let ghost raw = w;
            assert((first + seq![raw]).drop_last() =~= first);
            assert((first + seq![raw]).last() == raw);
            match to_quota_window(w) {
                Some(q) => {
                    ws.push(q);
                    assert(views(ws@) =~= after_first + seq![q@]);
                },
                None => {
                    assert(views(ws@) =~= after_first);
                },
            }
        },
        None => {
            assert(first + second =~= first);
        },
    }
    assert(views(ws@) =~= raws.filter_map(f)) by {
        reveal_with_fuel(Seq::<_>::filter_map, 2);
    }
    if ws.len() == 0 {
        return Err(QueryError::Response(String::from_str("没有可显示的额度窗口")));
    }
    Ok(order_windows(ws))
}

/// How an HTTP status of the usage endpoint is read: 401 and 403 mean the
/// login expired, 429 means too many requests, any other status outside
/// 200–299 is reported with its code.
pub fn classify_status(code: u16) -> (r: Result<(), QueryError>)
    ensures
        (code == 401 || code == 403) ==> r matches Err(QueryError::Unauthorized),
        code == 429 ==> r matches Err(QueryError::RateLimited),
        (code != 401 && code != 403 && code != 429 && !(200 <= code < 300)) ==> (r matches Err(
            QueryError::Http(c)) && c == code),
        (200 <= code < 300) ==> r is Ok,
{
    if code == 401 || code == 403 {
        Err(QueryError::Unauthorized)
    } else if code == 429 {
        Err(QueryError::RateLimited)
    } else if !(200 <= code && code < 300) {
        Err(QueryError::Http(code))
    } else {
        Ok(())
    }
}

/// The note attached to a successful reading made with an old login.
pub open spec fn stale_note() -> Seq<char> {
    "登录信息较旧；若查询失败，请在 Codex 中重新登录"@
}

/// The snapshot after a query: on success the new windows, stamped with
/// `queried_at`, valid credentials, and a note when the login is old; on
/// failure the previous windows as `merge_failure` keeps them.
pub fn snapshot_after_query(
    previous: &QuotaSnapshot,
    stale: bool,
    queried_at: i64,
    outcome: Result<Vec<QuotaWindow>, QueryError>,
) -> (s: QuotaSnapshot)
    ensures
        match outcome {
            Ok(ws) => {
                &&& s.windows@ == ws@
                &&& s.queried_at == Some(queried_at)
                &&& !s.cached
                &&& s.credential_status == CredentialStatus::Valid
                &&& if stale {
                    s.error matches Some(e) && e@ == stale_note()
                } else {
                    s.error is None
                }
            },
            Err(e) => {
                &&& s.windows@ == previous.windows@
                &&& s.queried_at == previous.queried_at
                &&& s.cached == (previous.windows@.len() > 0)
                &&& s.credential_status == status_for(e)
                &&& s.error matches Some(m) && m@ == error_text(e)
            },
        },
{
    match outcome {
        Ok(windows) => QuotaSnapshot {
            windows,
            queried_at: Some(queried_at),
            cached: false,
            credential_status: CredentialStatus::Valid,
            error: if stale {
                Some(String::from_str("登录信息较旧；若查询失败，请在 Codex 中重新登录"))
            } else {
                None
            },
        },
        Err(error) => merge_failure(previous, error),
    }
}

/// The text shown for a failed connection.
pub fn network_error_text(is_timeout: bool, is_connect: bool) -> (m: String)
    ensures
        m@ == if is_timeout {
            "请求超时"@
        } else if is_connect {
            "无法连接额度服务"@
        } else {
            "传输错误"@
        },
{
    if is_timeout {
        String::from_str("请求超时")
    } else if is_connect {
        String::from_str("无法连接额度服务")
    } else {
        String::from_str("传输错误")
    }
}


/// The login file that Codex keeps (`auth.json`).
#[derive(Debug)]
pub struct AuthFile {
    pub auth_mode: Option<String>,
    pub tokens: Option<AuthTokens>,
    pub last_refresh: Option<String>,
}

#[derive(Debug)]
pub struct AuthTokens {
    pub access_token: Option<String>,
    pub account_id: Option<String>,
}

/// What a quota query needs from the login.
#[derive(Debug)]
pub struct Credentials {
    pub access_token: String,
    pub account_id: Option<String>,
    /// The login was last refreshed more than eight days ago.
    pub stale: bool,
}

pub open spec fn not_blank(s: Option<String>) -> bool {
    s matches Some(t) && trim(t@).len() != 0
}

/// A login whose last refresh lies `age_days` whole days back (`None`: not
/// known) is stale when that is more than eight days.
pub open spec fn login_is_stale(age_days: Option<i64>) -> bool {
    age_days matches Some(d) && d > 8
}

/// The credentials that `auth` yields when its last refresh lies `age_days`
/// whole days back (`None`: not known).
pub open spec fn credentials_result(auth: AuthFile, age_days: Option<i64>, r: Result<Credentials, QueryError>) -> bool {
    if !(auth.auth_mode matches Some(m) && m@ == "chatgpt"@) {
        r matches Err(QueryError::NotFound)
    } else if auth.tokens is None {
        r matches Err(QueryError::Parse(d)) && d@ == "缺少 tokens"@
    } else if !not_blank(auth.tokens->0.access_token) {
        r matches Err(QueryError::Parse(d)) && d@ == "缺少 access_token"@
    } else {
        &&& r matches Ok(c)
        &&& c.access_token == auth.tokens->0.access_token->0
        &&& c.account_id == (if not_blank(auth.tokens->0.account_id) {
            auth.tokens->0.account_id
        } else {
            None
        })
        &&& c.stale == login_is_stale(age_days)
    }
}

/// Reads the credentials out of the login file: only a ChatGPT login with a
/// non-blank access token qualifies; a blank account id is dropped; the login
/// is stale when its last refresh lies more than eight whole days back
/// (`age_days`; `None` when not known).
pub fn credentials_from_auth(auth: AuthFile, age_days: Option<i64>) -> (r: Result<Credentials, QueryError>)
    ensures
        credentials_result(auth, age_days, r),
{
    let chatgpt = match &auth.auth_mode {
        Some(m) => *m == String::from_str("chatgpt"),
        None => false,
    };
    if !chatgpt {
        return Err(QueryError::NotFound);
    }
    let tokens = match auth.tokens {
        Some(t) => t,
        None => return Err(QueryError::Parse(String::from_str("缺少 tokens"))),
    };
    let access_token = match tokens.access_token {
        Some(t) => {
            if is_blank(t.as_str()) {
                return Err(QueryError::Parse(String::from_str("缺少 access_token")));
            }
            t
        },
        None => return Err(QueryError::Parse(String::from_str("缺少 access_token"))),
    };
    let account_id = match tokens.account_id {
        Some(id) => if is_blank(id.as_str()) {
            None
        } else {
            Some(id)
        },
        None => None,
    };
    let stale = match age_days {
        Some(d) => d > 8,
        None => false,
    };
    Ok(Credentials { access_token, account_id, stale })
}

/// How many whole days (chrono's `num_days`, rounded toward zero) lie
/// between the RFC 3339 instant `value` and the instant `now_secs` seconds
/// and `now_nanos` nanoseconds after the Unix epoch; `None` when `value` does
/// not parse or `now` is no instant chrono can represent.
pub uninterp spec fn rfc3339_age_days(value: Seq<char>, now_secs: i64, now_nanos: u32) -> Option<i64>;

/// Calls chrono: `DateTime::from_timestamp(now_secs, now_nanos)` for the
/// present, `DateTime::parse_from_rfc3339(value)` for the past instant, then
/// `signed_duration_since` between them (in UTC) and `num_days`. Claimed:
/// the result is a function of these arguments alone.
#[verifier::external_body]
fn age_in_days(value: &str, now_secs: i64, now_nanos: u32) -> (r: Option<i64>)
    ensures
        r == rfc3339_age_days(value@, now_secs, now_nanos),
{
    let now = chrono::DateTime::from_timestamp(now_secs, now_nanos)?;
    match chrono::DateTime::parse_from_rfc3339(value) {
        Ok(date) => Some(now.signed_duration_since(date.with_timezone(&chrono::Utc)).num_days()),
        Err(_) => None,
    }
}

/// How many whole days back the login file says it was last refreshed, at
/// the present instant (`now_secs`, `now_nanos`).
pub open spec fn refresh_age(auth: AuthFile, now_secs: i64, now_nanos: u32) -> Option<i64> {
    match auth.last_refresh {
        Some(v) => rfc3339_age_days(v@, now_secs, now_nanos),
        None => None,
    }
}

/// The credentials of a parsed login file at the present instant, `now_secs`
/// seconds and `now_nanos` nanoseconds after the Unix epoch; the login's age
/// is read from its RFC 3339 `last_refresh`.
pub fn read_credentials(auth: AuthFile, now_secs: i64, now_nanos: u32) -> (r: Result<Credentials, QueryError>)
    ensures
        credentials_result(auth, refresh_age(auth, now_secs, now_nanos), r),
{
    let age_days = match &auth.last_refresh {
        Some(v) => age_in_days(v.as_str(), now_secs, now_nanos),
        None => None,
    };
    credentials_from_auth(auth, age_days)
}

} // verus!
