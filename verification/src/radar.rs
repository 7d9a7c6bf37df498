use vstd::prelude::*;
use crate::text::{chars_of, is_blank, is_white, lemma_trim_keeps, lemma_trimmed_ends, push_char, trim, trim_end, trim_start, trimmed};

verus! {

/// A JSON number: its value as an `i64` when it is an integer that fits
/// (`serde_json::Value::as_i64`), and the bit pattern of its `f64` value
/// (`as_f64`).
#[derive(Debug, Clone, Copy, PartialEq, Eq, Structural)]
pub struct JsonNumber {
    pub int: Option<i64>,
    pub real_bits: u64,
}

/// A parsed JSON document. Object members keep the order the parser gave.
#[derive(Debug)]
pub enum Json {
    Null,
    Bool(bool),
    Number(JsonNumber),
    Str(String),
    Array(Vec<Json>),
    Object(Vec<(String, Json)>),
}

/// A model entry of the Codex Radar summary. Scores are `f64` bit patterns.
#[derive(Debug)]
pub struct RadarModel {
    pub id: String,
    pub label: String,
    pub score: Option<u64>,
    pub status: Option<String>,
    pub passed: Option<i64>,
    pub valid_tasks: Option<i64>,
    pub invalid_tasks: Option<i64>,
    pub wall_time: Option<String>,
}

/// A quota tier of the summary. Hours are `f64` bit patterns.
#[derive(Debug)]
pub struct RadarQuotaRow {
    pub tier: String,
    pub five_hour: Option<u64>,
    pub seven_day: Option<u64>,
    pub basis: Option<String>,
}

/// The Codex Radar view of the detail window.
#[derive(Debug)]
pub struct RadarSnapshot {
    pub models: Vec<RadarModel>,
    pub quota_rows: Vec<RadarQuotaRow>,
    pub status: Option<String>,
    pub signal: Option<String>,
    pub batch: Option<String>,
    pub quota_batch: Option<String>,
    pub updated_at: Option<String>,
    pub fetched_at: Option<i64>,
    pub source: String,
    pub attribution: String,
    pub site_url: String,
    pub cached: bool,
    pub error: Option<String>,
}

// ------------------------------------------------------------------ views

pub open spec fn opt_view(o: Option<String>) -> Option<Seq<char>> {
    match o {
        Some(s) => Some(s@),
        None => None,
    }
}

pub struct RadarModelView {
    pub id: Seq<char>,
    pub label: Seq<char>,
    pub score: Option<u64>,
    pub status: Option<Seq<char>>,
    pub passed: Option<i64>,
    pub valid_tasks: Option<i64>,
    pub invalid_tasks: Option<i64>,
    pub wall_time: Option<Seq<char>>,
}

impl View for RadarModel {
    type V = RadarModelView;

    open spec fn view(&self) -> RadarModelView {
        RadarModelView {
            id: self.id@,
            label: self.label@,
            score: self.score,
            status: opt_view(self.status),
            passed: self.passed,
            valid_tasks: self.valid_tasks,
            invalid_tasks: self.invalid_tasks,
            wall_time: opt_view(self.wall_time),
        }
    }
}

pub struct RadarQuotaRowView {
    pub tier: Seq<char>,
    pub five_hour: Option<u64>,
    pub seven_day: Option<u64>,
    pub basis: Option<Seq<char>>,
}

impl View for RadarQuotaRow {
    type V = RadarQuotaRowView;

    open spec fn view(&self) -> RadarQuotaRowView {
        RadarQuotaRowView {
            tier: self.tier@,
            five_hour: self.five_hour,
            seven_day: self.seven_day,
            basis: opt_view(self.basis),
        }
    }
}

pub open spec fn model_views(ms: Seq<RadarModel>) -> Seq<RadarModelView> {
    ms.map_values(|m: RadarModel| m@)
}

pub open spec fn row_views(rs: Seq<RadarQuotaRow>) -> Seq<RadarQuotaRowView> {
    rs.map_values(|r: RadarQuotaRow| r@)
}

// ------------------------------------------------------------------ JSON access

/// The value of the first member named `key`.
pub open spec fn member(entries: Seq<(String, Json)>, key: Seq<char>) -> Option<Json>
    decreases entries.len(),
{
    if entries.len() == 0 {
        None
    } else if entries[0].0@ == key {
        Some(entries[0].1)
    } else {
        member(entries.drop_first(), key)
    }
}

/// `Value::get(key)`: the member `key` of an object.
pub open spec fn get(v: Json, key: Seq<char>) -> Option<Json> {
    match v {
        Json::Object(entries) => member(entries@, key),
        _ => None,
    }
}

pub open spec fn get_opt(v: Option<Json>, key: Seq<char>) -> Option<Json> {
    match v {
        Some(x) => get(x, key),
        None => None,
    }
}

/// `Value::as_str`.
pub open spec fn as_str(v: Option<Json>) -> Option<Seq<char>> {
    match v {
        Some(Json::Str(s)) => Some(s@),
        _ => None,
    }
}

/// `Value::as_f64`, as a bit pattern.
pub open spec fn as_real(v: Option<Json>) -> Option<u64> {
    match v {
        Some(Json::Number(n)) => Some(n.real_bits),
        _ => None,
    }
}

/// `Value::as_i64`.
pub open spec fn as_int(v: Option<Json>) -> Option<i64> {
    match v {
        Some(Json::Number(n)) => n.int,
        _ => None,
    }
}

/// A string member, trimmed, when it is not blank.
pub open spec fn text_of(v: Json, key: Seq<char>) -> Option<Seq<char>> {
    match as_str(get(v, key)) {
        Some(s) => if trim(s).len() > 0 {
            Some(trim(s))
        } else {
            None
        },
        None => None,
    }
}

pub open spec fn text_opt(v: Option<Json>, key: Seq<char>) -> Option<Seq<char>> {
    match v {
        Some(x) => text_of(x, key),
        None => None,
    }
}

pub open spec fn or_else<T>(a: Option<T>, b: Option<T>) -> Option<T> {
    match a {
        Some(x) => Some(x),
        None => b,
    }
}

/// The first member of `entries` named `key`.
fn member_ref<'a>(entries: &'a Vec<(String, Json)>, key: &str) -> (r: Option<&'a Json>)
    ensures
        match member(entries@, key@) {
            Some(x) => r matches Some(y) && *y == x,
            None => r is None,
        },
{
    let mut i: usize = 0;
    let k = String::from_str(key);
    assert(entries@.subrange(0, entries@.len() as int) =~= entries@);
    while i < entries.len()
        invariant
            i <= entries@.len(),
            k@ == key@,
            member(entries@, key@) == member(entries@.subrange(i as int, entries@.len() as int), key@),
        decreases entries@.len() - i,
    {
        if entries[i].0 == k {
            return Some(&entries[i].1);
        }
        assert(entries@.subrange(i as int, entries@.len() as int).drop_first() =~= entries@.subrange(i + 1, entries@.len() as int));
        i = i + 1;
    }
    None
}

/// `Value::get(key)`.
pub fn get_member<'a>(v: &'a Json, key: &str) -> (r: Option<&'a Json>)
    ensures
        match get(*v, key@) {
            Some(x) => r matches Some(y) && *y == x,
            None => r is None,
        },
{
    match v {
        Json::Object(entries) => member_ref(entries, key),
        _ => None,
    }
}

fn get_in<'a>(v: Option<&'a Json>, key: &str) -> (r: Option<&'a Json>)
    ensures
        match get_opt(match v { Some(x) => Some(*x), None => None }, key@) {
            Some(x) => r matches Some(y) && *y == x,
            None => r is None,
        },
{
    match v {
        Some(x) => get_member(x, key),
        None => None,
    }
}

fn str_of(v: Option<&Json>) -> (r: Option<String>)
    ensures
        opt_view(r) == as_str(match v { Some(x) => Some(*x), None => None }),
{
    match v {
        Some(Json::Str(s)) => Some(s.clone()),
        _ => None,
    }
}

fn real_of(v: Option<&Json>) -> (r: Option<u64>)
    ensures
        r == as_real(match v { Some(x) => Some(*x), None => None }),
{
    match v {
        Some(Json::Number(n)) => Some(n.real_bits),
        _ => None,
    }
}

fn int_of(v: Option<&Json>) -> (r: Option<i64>)
    ensures
        r == as_int(match v { Some(x) => Some(*x), None => None }),
{
    match v {
        Some(Json::Number(n)) => n.int,
        _ => None,
    }
}

/// A string member, trimmed, when it is not blank.
pub fn text(v: &Json, key: &str) -> (r: Option<String>)
    ensures
        opt_view(r) == text_of(*v, key@),
{
    match get_member(v, key) {
        Some(Json::Str(s)) => {
            if is_blank(s.as_str()) {
                None
            } else {
                Some(trimmed(s.as_str()))
            }
        },
        _ => None,
    }
}

fn text_in(v: Option<&Json>, key: &str) -> (r: Option<String>)
    ensures
        opt_view(r) == text_opt(match v { Some(x) => Some(*x), None => None }, key@),
{
    match v {
        Some(x) => text(x, key),
        None => None,
    }
}

// ------------------------------------------------------------------ models

/// `String`'s order: lexicographic by character (UTF-8 byte order is code point order).
pub open spec fn key_le(a: Seq<char>, b: Seq<char>) -> bool
    decreases a.len(),
{
    if a.len() == 0 {
        true
    } else if b.len() == 0 {
        false
    } else if (a[0] as u32) < (b[0] as u32) {
        true
    } else if (a[0] as u32) > (b[0] as u32) {
        false
    } else {
        key_le(a.drop_first(), b.drop_first())
    }
}

pub open spec fn key_at(entries: Seq<(String, Json)>, i: int) -> Seq<char> {
    entries[i].0@
}

/// Inserts entry `i` into the key-ordered index list `s`, after the entries
/// with an equal key (a stable insertion).
pub open spec fn insert_index(entries: Seq<(String, Json)>, s: Seq<usize>, i: usize) -> Seq<usize>
    decreases s.len(),
{
    if s.len() == 0 {
        seq![i]
    } else if key_le(key_at(entries, s.last() as int), key_at(entries, i as int)) {
        s.push(i)
    } else {
        insert_index(entries, s.drop_last(), i).push(s.last())
    }
}

/// The indices of the first `n` entries in key order, entries with equal
/// keys in the order of the members (a stable sort by key).
pub open spec fn sorted_indices(entries: Seq<(String, Json)>, n: nat) -> Seq<usize>
    decreases n,
{
    if n == 0 {
        Seq::empty()
    } else {
        insert_index(entries, sorted_indices(entries, (n - 1) as nat), (n - 1) as usize)
    }
}

/// A model entry built from a summary `value`.
pub open spec fn model_of(id: Seq<char>, label: Seq<char>, value: Json) -> RadarModelView {
    RadarModelView {
        id,
        label,
        score: as_real(get(value, "score"@)),
        status: text_of(value, "status"@),
        passed: as_int(get(value, "passed"@)),
        valid_tasks: as_int(or_else(get(value, "valid_tasks"@), get(value, "tasks"@))),
        invalid_tasks: as_int(or_else(get(value, "invalid_tasks"@), get(value, "invalid"@))),
        wall_time: text_of(value, "wall_time_human"@),
    }
}

pub open spec fn spaced(key: Seq<char>) -> Seq<char> {
    Seq::new(key.len(), |i: int| if key[i] == '_' { ' ' } else { key[i] })
}

/// The model of the latest run: labelled with its model name (or "Latest")
/// and reasoning effort.
pub open spec fn latest_models(model_iq: Json) -> Seq<RadarModelView> {
    match get(model_iq, "latest"@) {
        Some(latest) => {
            let model = match text_of(latest, "model"@) {
                Some(m) => m,
                None => "Latest"@,
            };
            let effort = match text_of(latest, "reasoning_effort"@) {
                Some(e) => e,
                None => Seq::<char>::empty(),
            };
            seq![model_of("latest"@, trim(model + " "@ + effort), latest)]
        },
        None => Seq::empty(),
    }
}

/// The models of the comparisons listed (by index) in `order`: each with a
/// latest run, labelled with its label or its key with spaces for underscores.
pub open spec fn comparison_models(entries: Seq<(String, Json)>, order: Seq<usize>) -> Seq<RadarModelView>
    decreases order.len(),
{
    if order.len() == 0 {
        Seq::empty()
    } else {
        let before = comparison_models(entries, order.drop_last());
        let (key, comparison) = entries[order.last() as int];
        match get(comparison, "latest"@) {
            Some(latest) => {
                let label = match text_of(comparison, "label"@) {
                    Some(l) => l,
                    None => spaced(key@),
                };
                before.push(model_of(key@, label, latest))
            },
            None => before,
        }
    }
}

/// All models of the summary's `model_iq` object: the latest run, then
/// every compared model (the list has no fixed cap).
pub open spec fn summary_models(model_iq: Json) -> Seq<RadarModelView> {
    let compared = match get(model_iq, "comparisons"@) {
        Some(Json::Object(entries)) => comparison_models(entries@, sorted_indices(entries@, entries@.len())),
        _ => Seq::empty(),
    };
    latest_models(model_iq) + compared
}

/// The quota rows that have a tier.
pub open spec fn quota_rows_of(rows: Seq<Json>) -> Seq<RadarQuotaRowView>
    decreases rows.len(),
{
    if rows.len() == 0 {
        Seq::empty()
    } else {
        let before = quota_rows_of(rows.drop_last());
        let row = rows.last();
        match text_of(row, "tier"@) {
            Some(tier) => before.push(
                RadarQuotaRowView {
                    tier,
                    five_hour: as_real(get(row, "five_h"@)),
                    seven_day: as_real(get(row, "seven_d"@)),
                    basis: text_of(row, "basis"@),
                },
            ),
            None => before,
        }
    }
}

pub open spec fn summary_rows(quota: Option<Json>) -> Seq<RadarQuotaRowView> {
    match get_opt(quota, "rows"@) {
        Some(Json::Array(rows)) => quota_rows_of(rows@),
        _ => Seq::empty(),
    }
}

/// The headline signal: the expected window of the prediction, else the
/// window message, else the prediction summary.
pub open spec fn summary_signal(root: Json) -> Option<Seq<char>> {
    or_else(
        as_str(get_opt(get(root, "prediction"@), "expected_window"@)),
        or_else(
            as_str(get_opt(get(root, "window"@), "message"@)),
            as_str(get_opt(get(root, "prediction"@), "summary"@)),
        ),
    )
}

proof fn lemma_key_le_total(a: Seq<char>, b: Seq<char>)
    ensures
        key_le(a, b) || key_le(b, a),
    decreases a.len(),
{
    if a.len() > 0 && b.len() > 0 && (a[0] as u32) == (b[0] as u32) {
        lemma_key_le_total(a.drop_first(), b.drop_first());
    }
}

proof fn lemma_key_le_transitive(a: Seq<char>, b: Seq<char>, c: Seq<char>)
    requires
        key_le(a, b),
        key_le(b, c),
    ensures
        key_le(a, c),
    decreases a.len(),
{
    if a.len() > 0 && b.len() > 0 && c.len() > 0 && (a[0] as u32) == (b[0] as u32) && (b[0] as u32) == (c[0] as u32) {
        lemma_key_le_transitive(a.drop_first(), b.drop_first(), c.drop_first());
    }
}

/// The listed entries are in key order.
pub open spec fn in_key_order(entries: Seq<(String, Json)>, order: Seq<usize>) -> bool {
    forall|i: int, j: int| 0 <= i < j < order.len() ==> key_le(#[trigger] key_at(entries, order[i] as int), #[trigger] key_at(entries, order[j] as int))
}

proof fn lemma_insert_members(entries: Seq<(String, Json)>, s: Seq<usize>, e: usize, x: int)
    requires
        0 <= x < insert_index(entries, s, e).len(),
    ensures
        insert_index(entries, s, e).len() == s.len() + 1,
        insert_index(entries, s, e)[x] == e || exists|y: int| 0 <= y < s.len() && s[y] == #[trigger] insert_index(entries, s, e)[x],
    decreases s.len(),
{
    if s.len() == 0 {
    } else if key_le(key_at(entries, s.last() as int), key_at(entries, e as int)) {
        if x < s.len() {
            assert(s[x] == insert_index(entries, s, e)[x]);
        }
    } else {
        let r = insert_index(entries, s.drop_last(), e);
        if x < r.len() {
            lemma_insert_members(entries, s.drop_last(), e, x);
            if r[x] != e {
                let y = choose|y: int| 0 <= y < s.drop_last().len() && s.drop_last()[y] == #[trigger] r[x];
                assert(s[y] == insert_index(entries, s, e)[x]);
            }
        } else {
            lemma_insert_members(entries, s.drop_last(), e, 0);
            assert(s[s.len() - 1] == insert_index(entries, s, e)[x]);
        }
    }
}

proof fn lemma_insert_keeps_order(entries: Seq<(String, Json)>, s: Seq<usize>, e: usize)
    requires
        in_key_order(entries, s),
    ensures
        in_key_order(entries, insert_index(entries, s, e)),
    decreases s.len(),
{
    let r = insert_index(entries, s, e);
    if s.len() == 0 {
    } else if key_le(key_at(entries, s.last() as int), key_at(entries, e as int)) {
        assert forall|i: int, j: int| 0 <= i < j < r.len() implies key_le(#[trigger] key_at(entries, r[i] as int), #[trigger] key_at(entries, r[j] as int)) by {
            if j == s.len() {
                if i < s.len() - 1 {
                    assert(key_le(key_at(entries, s[i] as int), key_at(entries, s[s.len() - 1] as int)));
                    lemma_key_le_transitive(key_at(entries, s[i] as int), key_at(entries, s.last() as int), key_at(entries, e as int));
                }
            } else {
                assert(r[i] == s[i] && r[j] == s[j]);
            }
        }
    } else {
        let d = s.drop_last();
        assert forall|i: int, j: int| 0 <= i < j < d.len() implies key_le(#[trigger] key_at(entries, d[i] as int), #[trigger] key_at(entries, d[j] as int)) by {
            assert(d[i] == s[i] && d[j] == s[j]);
        }
        lemma_insert_keeps_order(entries, d, e);
        let q = insert_index(entries, d, e);
        lemma_key_le_total(key_at(entries, s.last() as int), key_at(entries, e as int));
        assert forall|i: int, j: int| 0 <= i < j < r.len() implies key_le(#[trigger] key_at(entries, r[i] as int), #[trigger] key_at(entries, r[j] as int)) by {
            if j == q.len() {
                lemma_insert_members(entries, d, e, i);
                if q[i] != e {
                    let y = choose|y: int| 0 <= y < d.len() && d[y] == #[trigger] q[i];
                    assert(key_le(key_at(entries, s[y] as int), key_at(entries, s[s.len() - 1] as int)));
                }
            } else {
                assert(r[i] == q[i] && r[j] == q[j]);
            }
        }
    }
}

/// The compared models are listed in key order.
pub proof fn law_comparisons_in_key_order(entries: Seq<(String, Json)>, n: nat)
    ensures
        in_key_order(entries, sorted_indices(entries, n)),
    decreases n,
{
    if n > 0 {
        law_comparisons_in_key_order(entries, (n - 1) as nat);
        lemma_insert_keeps_order(entries, sorted_indices(entries, (n - 1) as nat), (n - 1) as usize);
    }
}

fn key_le_exec(a: &[char], b: &[char]) -> (r: bool)
    ensures
        r == key_le(a@, b@),
{
    let mut i: usize = 0;
    assert(a@.skip(0) =~= a@);
    assert(b@.skip(0) =~= b@);
    while i < a.len() && i < b.len()
        invariant
            i <= a@.len(),
            i <= b@.len(),
            key_le(a@, b@) == key_le(a@.skip(i as int), b@.skip(i as int)),
        decreases a@.len() - i,
    {
        let x = a[i] as u32;
        let y = b[i] as u32;
        if x < y {
            return true;
        }
        if x > y {
            return false;
        }
        assert(a@.skip(i as int).drop_first() =~= a@.skip(i + 1));
        assert(b@.skip(i as int).drop_first() =~= b@.skip(i + 1));
        i = i + 1;
    }
    i == a.len()
}

fn entry_key_le(entries: &Vec<(String, Json)>, i: usize, j: usize) -> (r: bool)
    requires
        i < entries@.len(),
        j < entries@.len(),
    ensures
        r == key_le(key_at(entries@, i as int), key_at(entries@, j as int)),
{
    let a = chars_of(entries[i].0.as_str());
    let b = chars_of(entries[j].0.as_str());
    key_le_exec(a.as_slice(), b.as_slice())
}

proof fn lemma_insert_step(entries: Seq<(String, Json)>, s: Seq<usize>, i: usize, p: int)
    requires
        0 < p <= s.len(),
        !key_le(key_at(entries, s[p - 1] as int), key_at(entries, i as int)),
    ensures
        insert_index(entries, s.take(p), i) + s.skip(p) == insert_index(entries, s.take(p - 1), i) + s.skip(p - 1),
{
    assert(s.take(p).drop_last() =~= s.take(p - 1));
    assert(s.take(p).last() == s[p - 1]);
    assert(insert_index(entries, s.take(p), i) == insert_index(entries, s.take(p - 1), i).push(s[p - 1]));
    assert(insert_index(entries, s.take(p - 1), i).push(s[p - 1]) + s.skip(p) =~= insert_index(entries, s.take(p - 1), i) + s.skip(p - 1));
}

/// Inserts index `i` into the key-ordered index list `order`.
#[verifier::rlimit(40)]
fn insert_sorted(entries: &Vec<(String, Json)>, order: &mut Vec<usize>, i: usize)
    requires
        i < entries@.len(),
        forall|k: int| 0 <= k < old(order)@.len() ==> #[trigger] old(order)@[k] < entries@.len(),
    ensures
        final(order)@ == insert_index(entries@, old(order)@, i),
        forall|k: int| 0 <= k < final(order)@.len() ==> #[trigger] final(order)@[k] < entries@.len(),
{
    let ghost s = order@;
    let mut p: usize = order.len();
    assert(s.take(s.len() as int) =~= s);
    assert(s.skip(s.len() as int) =~= Seq::<usize>::empty());
    while p > 0 && !entry_key_le(entries, order[p - 1], i)
        invariant
            p <= s.len(),
            order@ == s,
            i < entries@.len(),
            forall|k: int| 0 <= k < s.len() ==> #[trigger] s[k] < entries@.len(),
            insert_index(entries@, s, i) == insert_index(entries@, s.take(p as int), i) + s.skip(p as int),
        decreases p,
    {
        proof {
            lemma_insert_step(entries@, s, i, p as int);
        }
        p = p - 1;
    }
    proof {
        if p == 0 {
            assert(s.take(0) =~= Seq::<usize>::empty());
        } else {
            assert(s.take(p as int).drop_last() =~= s.take(p - 1));
            assert(s.take(p as int).last() == s[p - 1]);
        }
        assert(insert_index(entries@, s.take(p as int), i) == s.take(p as int).push(i));
        assert(s.take(p as int).push(i) + s.skip(p as int) =~= s.insert(p as int, i));
    }
    order.insert(p, i);
}

/// The indices of `entries` in key order.
fn sort_indices(entries: &Vec<(String, Json)>) -> (order: Vec<usize>)
    ensures
        order@ == sorted_indices(entries@, entries@.len()),
        forall|k: int| 0 <= k < order@.len() ==> #[trigger] order@[k] < entries@.len(),
{
    let mut order: Vec<usize> = Vec::new();
    let mut n: usize = 0;
    while n < entries.len()
        invariant
            n <= entries@.len(),
            order@ == sorted_indices(entries@, n as nat),
            forall|k: int| 0 <= k < order@.len() ==> #[trigger] order@[k] < entries@.len(),
        decreases entries@.len() - n,
    {
        insert_sorted(entries, &mut order, n);
        n = n + 1;
    }
    order
}

fn model_from(id: String, label: String, value: &Json) -> (m: RadarModel)
    ensures
        m@ == model_of(id@, label@, *value),
{
    let valid = match get_member(value, "valid_tasks") {
        Some(v) => Some(v),
        None => get_member(value, "tasks"),
    };
    let invalid = match get_member(value, "invalid_tasks") {
        Some(v) => Some(v),
        None => get_member(value, "invalid"),
    };
    RadarModel {
        id,
        label,
        score: real_of(get_member(value, "score")),
        status: text(value, "status"),
        passed: int_of(get_member(value, "passed")),
        valid_tasks: int_of(valid),
        invalid_tasks: int_of(invalid),
        wall_time: text(value, "wall_time_human"),
    }
}

fn spaced_key(key: &str) -> (r: String)
    ensures
        r@ == spaced(key@),
{
    let v = chars_of(key);
    let mut r = String::new();
    let mut i: usize = 0;
    while i < v.len()
        invariant
            i <= v@.len(),
            r@ == spaced(v@).take(i as int),
        decreases v@.len() - i,
    {
        push_char(&mut r, if v[i] == '_' { ' ' } else { v[i] });
        i = i + 1;
        assert(r@ =~= spaced(v@).take(i as int));
    }
    assert(spaced(v@).take(v@.len() as int) =~= spaced(v@));
    r
}

/// The trimmed text of `s`.
fn trimmed_string(s: &String) -> (r: String)
    ensures
        r@ == trim(s@),
{
    trimmed(s.as_str())
}

fn latest_model(model_iq: &Json, out: &mut Vec<RadarModel>)
    requires
        old(out)@.len() == 0,
    ensures
        model_views(final(out)@) == latest_models(*model_iq),
{
    match get_member(model_iq, "latest") {
        Some(latest) => {
            let model = match text(latest, "model") {
                Some(m) => m,
                None => String::from_str("Latest"),
            };
            let effort = match text(latest, "reasoning_effort") {
                Some(e) => e,
                None => String::new(),
            };
            let mut joined = model;
            joined.append(" ");
            joined.append(effort.as_str());
            let label = trimmed_string(&joined);
            out.push(model_from(String::from_str("latest"), label, latest));
            assert(model_views(out@) =~= latest_models(*model_iq));
        },
        None => {
            assert(model_views(out@) =~= latest_models(*model_iq));
        },
    }
}

fn comparison_list(entries: &Vec<(String, Json)>, out: &mut Vec<RadarModel>)
    ensures
        model_views(final(out)@) == model_views(old(out)@) + comparison_models(entries@, sorted_indices(entries@, entries@.len())),
{
    let order = sort_indices(entries);
    let ghost start = model_views(out@);
    let mut k: usize = 0;
    assert(order@.take(0) =~= Seq::<usize>::empty());
    assert(model_views(out@) =~= start + comparison_models(entries@, order@.take(0)));
    while k < order.len()
        invariant
            k <= order@.len(),
            forall|m: int| 0 <= m < order@.len() ==> #[trigger] order@[m] < entries@.len(),
            model_views(out@) == start + comparison_models(entries@, order@.take(k as int)),
        decreases order@.len() - k,
    {
        assert(order@.take(k + 1).drop_last() =~= order@.take(k as int));
        assert(order@.take(k + 1).last() == order@[k as int]);
        let idx = order[k];
        let entry = &entries[idx];
        let ghost before = model_views(out@);
        match get_member(&entry.1, "latest") {
            Some(latest) => {
                let label = match text(&entry.1, "label") {
                    Some(l) => l,
                    None => spaced_key(entry.0.as_str()),
                };
                out.push(model_from(entry.0.clone(), label, latest));
                assert(model_views(out@) =~= before.push(model_views(out@).last()));
            },
            None => {},
        }
        k = k + 1;
    }
    assert(order@.take(order@.len() as int) =~= order@);
}

fn quota_rows_from(rows: &Vec<Json>) -> (r: Vec<RadarQuotaRow>)
    ensures
        row_views(r@) == quota_rows_of(rows@),
{
    let mut r: Vec<RadarQuotaRow> = Vec::new();
    let mut i: usize = 0;
    assert(rows@.take(0) =~= Seq::<Json>::empty());
    assert(row_views(r@) =~= quota_rows_of(rows@.take(0)));
    while i < rows.len()
        invariant
            i <= rows@.len(),
            row_views(r@) == quota_rows_of(rows@.take(i as int)),
        decreases rows@.len() - i,
    {
        assert(rows@.take(i + 1).drop_last() =~= rows@.take(i as int));
        assert(rows@.take(i + 1).last() == rows@[i as int]);
        let row = &rows[i];
        let ghost before = row_views(r@);
        match text(row, "tier") {
            Some(tier) => {
                r.push(RadarQuotaRow {
                    tier,
                    five_hour: real_of(get_member(row, "five_h")),
                    seven_day: real_of(get_member(row, "seven_d")),
                    basis: text(row, "basis"),
                });
                assert(row_views(r@) =~= before.push(row_views(r@).last()));
            },
            None => {},
        }
        i = i + 1;
    }
    assert(rows@.take(rows@.len() as int) =~= rows@);
    r
}

// ------------------------------------------------------------------ summary

pub open spec fn default_attribution() -> Seq<char> {
    "数据来自 Codex 雷达 codexradar.com"@
}

pub open spec fn site() -> Seq<char> {
    "https://codexradar.com"@
}

/// What `parse_summary` makes of the summary `root` fetched at `fetched_at`.
pub open spec fn summary_result(root: Json, fetched_at: i64, r: Result<RadarSnapshot, String>) -> bool {
    match get(root, "model_iq"@) {
        Some(Json::Object(members)) => {
            let model_iq = Json::Object(members);
            let quota = get(model_iq, "quota_radar"@);
            let requirements = get_opt(get(root, "api_access"@), "requirements"@);
            &&& r matches Ok(_)
            &&& model_views(r->Ok_0.models@) == summary_models(model_iq)
            &&& row_views(r->Ok_0.quota_rows@) == summary_rows(quota)
            &&& opt_view(r->Ok_0.status) == text_of(root, "status"@)
            &&& opt_view(r->Ok_0.signal) == summary_signal(root)
            &&& opt_view(r->Ok_0.batch) == text_opt(get(model_iq, "latest"@), "date"@)
            &&& opt_view(r->Ok_0.quota_batch) == text_opt(quota, "date"@)
            &&& opt_view(r->Ok_0.updated_at) == or_else(text_opt(quota, "updated_at"@), text_of(root, "monitored_at"@))
            &&& r->Ok_0.fetched_at == Some(fetched_at)
            &&& r->Ok_0.source@ == "public_summary"@
            &&& r->Ok_0.attribution@ == (match text_opt(requirements, "attribution_text"@) {
                Some(a) => a,
                None => default_attribution(),
            })
            &&& r->Ok_0.site_url@ == site()
            &&& !r->Ok_0.cached
            &&& r->Ok_0.error is None
        },
        _ => r matches Err(e) && e@ == "缺少 model_iq"@,
    }
}

/// Reads the public Codex Radar summary: the latest model run and the
/// compared models (by key), the quota tiers that name a
/// tier, the status and headline signal, the batch dates, and the attribution
/// the site asks for. A summary without a `model_iq` object is refused.
pub fn parse_summary(root: &Json, fetched_at: i64) -> (r: Result<RadarSnapshot, String>)
    ensures
        summary_result(*root, fetched_at, r),
{
    let model_iq = match get_member(root, "model_iq") {
        Some(v) => match v {
            Json::Object(_) => v,
            _ => return Err(String::from_str("缺少 model_iq")),
        },
        None => return Err(String::from_str("缺少 model_iq")),
    };
    let mut models: Vec<RadarModel> = Vec::new();
    latest_model(model_iq, &mut models);
    match get_member(model_iq, "comparisons") {
        Some(Json::Object(entries)) => {
            comparison_list(entries, &mut models);
        },
        _ => {
            assert(model_views(models@) =~= model_views(models@) + Seq::<RadarModelView>::empty());
        },
    }
    let quota = get_member(model_iq, "quota_radar");
    let quota_rows = match get_in(quota, "rows") {
        Some(Json::Array(rows)) => quota_rows_from(rows),
        _ => {
            let v: Vec<RadarQuotaRow> = Vec::new();
            assert(row_views(v@) =~= Seq::<RadarQuotaRowView>::empty());
            v
        },
    };
    let requirements = get_in(get_member(root, "api_access"), "requirements");
    let signal = match str_of(get_in(get_member(root, "prediction"), "expected_window")) {
        Some(s) => Some(s),
        None => match str_of(get_in(get_member(root, "window"), "message")) {
            Some(s) => Some(s),
            None => str_of(get_in(get_member(root, "prediction"), "summary")),
        },
    };
    let updated_at = match text_in(quota, "updated_at") {
        Some(u) => Some(u),
        None => text(root, "monitored_at"),
    };
    let attribution = match text_in(requirements, "attribution_text") {
        Some(a) => a,
        None => String::from_str("数据来自 Codex 雷达 codexradar.com"),
    };
    Ok(RadarSnapshot {
        models,
        quota_rows,
        status: text(root, "status"),
        signal,
        batch: text_in(get_member(model_iq, "latest"), "date"),
        quota_batch: text_in(quota, "date"),
        updated_at,
        fetched_at: Some(fetched_at),
        source: String::from_str("public_summary"),
        attribution,
        site_url: String::from_str("https://codexradar.com"),
        cached: false,
        error: None,
    })
}

fn clone_opt(o: &Option<String>) -> (r: Option<String>)
    ensures
        r == *o,
{
    match o {
        Some(s) => Some(s.clone()),
        None => None,
    }
}

impl RadarModel {
    pub fn duplicate(&self) -> (r: RadarModel)
        ensures
            r@ == self@,
    {
        RadarModel {
            id: self.id.clone(),
            label: self.label.clone(),
            score: self.score,
            status: clone_opt(&self.status),
            passed: self.passed,
            valid_tasks: self.valid_tasks,
            invalid_tasks: self.invalid_tasks,
            wall_time: clone_opt(&self.wall_time),
        }
    }
}

impl RadarQuotaRow {
    pub fn duplicate(&self) -> (r: RadarQuotaRow)
        ensures
            r@ == self@,
    {
        RadarQuotaRow {
            tier: self.tier.clone(),
            five_hour: self.five_hour,
            seven_day: self.seven_day,
            basis: clone_opt(&self.basis),
        }
    }
}

impl RadarSnapshot {
    /// The radar view before the first fetch.
    pub fn empty() -> (s: RadarSnapshot)
        ensures
            s.models@.len() == 0,
            s.quota_rows@.len() == 0,
            s.status is None && s.signal is None && s.batch is None,
            s.quota_batch is None && s.updated_at is None && s.fetched_at is None,
            s.source@.len() == 0 && s.attribution@.len() == 0 && s.site_url@.len() == 0,
            !s.cached,
            s.error is None,
    {
        RadarSnapshot {
            models: Vec::new(),
            quota_rows: Vec::new(),
            status: None,
            signal: None,
            batch: None,
            quota_batch: None,
            updated_at: None,
            fetched_at: None,
            source: String::new(),
            attribution: String::new(),
            site_url: String::new(),
            cached: false,
            error: None,
        }
    }
}

/// The radar view after a failed fetch: the previous one, marked as cached
/// when it shows any model or quota row, with `error` attached.
pub fn merge_failure(previous: &RadarSnapshot, error: String) -> (s: RadarSnapshot)
    ensures
        model_views(s.models@) == model_views(previous.models@),
        row_views(s.quota_rows@) == row_views(previous.quota_rows@),
        s.status == previous.status && s.signal == previous.signal && s.batch == previous.batch,
        s.quota_batch == previous.quota_batch && s.updated_at == previous.updated_at,
        s.fetched_at == previous.fetched_at,
        s.source == previous.source && s.attribution == previous.attribution && s.site_url == previous.site_url,
        s.cached == (previous.models@.len() > 0 || previous.quota_rows@.len() > 0),
        s.error == Some(error),
{
    let mut models: Vec<RadarModel> = Vec::new();
    let mut i: usize = 0;
    while i < previous.models.len()
        invariant
            i <= previous.models@.len(),
            model_views(models@) == model_views(previous.models@).take(i as int),
        decreases previous.models@.len() - i,
    {
        let ghost before = model_views(models@);
        models.push(previous.models[i].duplicate());
        assert(model_views(models@) =~= before.push(previous.models@[i as int]@));
        i = i + 1;
        assert(model_views(models@) =~= model_views(previous.models@).take(i as int));
    }
    assert(model_views(previous.models@).take(previous.models@.len() as int) =~= model_views(previous.models@));
    let mut rows: Vec<RadarQuotaRow> = Vec::new();
    let mut j: usize = 0;
    while j < previous.quota_rows.len()
        invariant
            j <= previous.quota_rows@.len(),
            row_views(rows@) == row_views(previous.quota_rows@).take(j as int),
        decreases previous.quota_rows@.len() - j,
    {
        let ghost before = row_views(rows@);
        rows.push(previous.quota_rows[j].duplicate());
        assert(row_views(rows@) =~= before.push(previous.quota_rows@[j as int]@));
        j = j + 1;
        assert(row_views(rows@) =~= row_views(previous.quota_rows@).take(j as int));
    }
    assert(row_views(previous.quota_rows@).take(previous.quota_rows@.len() as int) =~= row_views(previous.quota_rows@));
    RadarSnapshot {
        models,
        quota_rows: rows,
        status: clone_opt(&previous.status),
        signal: clone_opt(&previous.signal),
        batch: clone_opt(&previous.batch),
        quota_batch: clone_opt(&previous.quota_batch),
        updated_at: clone_opt(&previous.updated_at),
        fetched_at: previous.fetched_at,
        source: previous.source.clone(),
        attribution: previous.attribution.clone(),
        site_url: previous.site_url.clone(),
        cached: previous.models.len() > 0 || previous.quota_rows.len() > 0,
        error: Some(error),
    }
}

/// The text shown when Codex Radar cannot be reached.
pub fn connection_error_text(is_timeout: bool) -> (m: String)
    ensures
        m@ == (if is_timeout { "Codex Radar 请求超时"@ } else { "无法连接 Codex Radar"@ }),
{
    if is_timeout {
        String::from_str("Codex Radar 请求超时")
    } else {
        String::from_str("无法连接 Codex Radar")
    }
}

/// "Radar 数据格式错误：<detail>": the summary lacks what the view needs.
pub fn format_error_text(detail: &str) -> (m: String)
    ensures
        m@ == "Radar 数据格式错误："@ + detail@,
{
    let mut m = String::from_str("Radar 数据格式错误：");
    m.append(detail);
    m
}

/// "Radar 响应无法解析：<detail>": the response is not JSON.
pub fn response_error_text(detail: &str) -> (m: String)
    ensures
        m@ == "Radar 响应无法解析："@ + detail@,
{
    let mut m = String::from_str("Radar 响应无法解析：");
    m.append(detail);
    m
}

/// The radar view after a fetch: the parsed summary, or the previous view
/// with the parse error attached.
pub fn summary_or_previous(previous: &RadarSnapshot, root: &Json, fetched_at: i64) -> (s: RadarSnapshot)
    ensures
        match get(*root, "model_iq"@) {
            Some(Json::Object(_)) => summary_result(*root, fetched_at, Ok(s)),
            _ => {
                &&& model_views(s.models@) == model_views(previous.models@)
                &&& row_views(s.quota_rows@) == row_views(previous.quota_rows@)
                &&& s.status == previous.status && s.signal == previous.signal && s.batch == previous.batch
                &&& s.quota_batch == previous.quota_batch && s.updated_at == previous.updated_at
                &&& s.fetched_at == previous.fetched_at
                &&& s.source == previous.source && s.attribution == previous.attribution
                &&& s.site_url == previous.site_url
                &&& s.cached == (previous.models@.len() > 0 || previous.quota_rows@.len() > 0)
                &&& s.error matches Some(e) && e@ == "Radar 数据格式错误："@ + "缺少 model_iq"@
            },
        },
{
    match parse_summary(root, fetched_at) {
        Ok(snapshot) => snapshot,
        Err(error) => merge_failure(previous, format_error_text(error.as_str())),
    }
}

/// The latest run is the first model of the summary, labelled with its
/// model name and, when the summary gives one, its reasoning effort after a
/// space (both as trimmed texts).
pub proof fn law_latest_label_names_model_and_effort(
    root: Json,
    fetched_at: i64,
    r: Result<RadarSnapshot, String>,
    members: Vec<(String, Json)>,
    latest: Json,
    model: Seq<char>,
)
    requires
        summary_result(root, fetched_at, r),
        get(root, "model_iq"@) == Some(Json::Object(members)),
        get(Json::Object(members), "latest"@) == Some(latest),
        text_of(latest, "model"@) == Some(model),
    ensures
        r matches Ok(s) && s.models@.len() > 0 && s.models@[0]@.label == match text_of(latest, "reasoning_effort"@) {
            Some(effort) => model + " "@ + effort,
            None => model,
        },
{
    reveal_strlit(" ");
    let s = r->Ok_0;
    let views = model_views(s.models@);
    let model_iq = Json::Object(members);
    assert(views == summary_models(model_iq));
    assert(summary_models(model_iq)[0] == latest_models(model_iq)[0]);
    assert(views[0] == s.models@[0]@);
    lemma_trimmed_ends(as_str(get(latest, "model"@))->0);
    match text_of(latest, "reasoning_effort"@) {
        Some(effort) => {
            lemma_trimmed_ends(as_str(get(latest, "reasoning_effort"@))->0);
            let joined = model + " "@ + effort;
            assert(joined[0] == model[0]);
            assert(joined.last() == effort.last());
            lemma_trim_keeps(joined);
        },
        None => {
            let joined = model + " "@ + Seq::<char>::empty();
            assert(joined.drop_last() =~= model);
            assert(is_white(joined.last()));
            assert(trim_start(joined) == joined);
            assert(trim_end(joined) == trim_end(model));
            assert(trim_end(model) == model);
        },
    }
}

} // verus!
