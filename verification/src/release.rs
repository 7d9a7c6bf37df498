use vstd::prelude::*;
use crate::text::{
    chars_of, contains_exec, contains_seq, decimal, ends_with, ends_with_exec, lowercase,
    lowercase_chars, push_char, push_decimal, starts_with, starts_with_exec, string_of,
};

verus! {

// ------------------------------------------------------------------ versions

/// `s` without its leading `v` and `V` characters (`trim_start_matches(['v', 'V'])`).
pub open spec fn strip_v(s: Seq<char>) -> Seq<char>
    decreases s.len(),
{
    if s.len() > 0 && (s[0] == 'v' || s[0] == 'V') {
        strip_v(s.drop_first())
    } else {
        s
    }
}

/// The pieces of `s` between dots (`s.split('.')`); there is always at least one.
pub open spec fn split_dots(s: Seq<char>) -> Seq<Seq<char>>
    decreases s.len(),
{
    if s.len() == 0 {
        seq![Seq::<char>::empty()]
    } else {
        let before = split_dots(s.drop_last());
        if s.last() == '.' {
            before.push(Seq::<char>::empty())
        } else {
            before.update(before.len() - 1, before.last().push(s.last()))
        }
    }
}

pub open spec fn is_digit(c: char) -> bool {
    '0' <= c && c <= '9'
}

/// The leading ASCII digits of `p`.
pub open spec fn digit_prefix(p: Seq<char>) -> Seq<char>
    decreases p.len(),
{
    if p.len() > 0 && is_digit(p[0]) {
        seq![p[0]] + digit_prefix(p.drop_first())
    } else {
        Seq::<char>::empty()
    }
}

/// The number that a string of ASCII digits writes.
pub open spec fn digits_value(d: Seq<char>) -> nat
    decreases d.len(),
{
    if d.len() == 0 {
        0
    } else {
        digits_value(d.drop_last()) * 10 + ((d.last() as u32) - ('0' as u32)) as nat
    }
}

/// The number of one dotted piece: its leading digits read as a `u64`, or 0
/// when there are none or they do not fit.
pub open spec fn piece_value(p: Seq<char>) -> u64 {
    let d = digit_prefix(p);
    if d.len() == 0 || digits_value(d) > u64::MAX {
        0
    } else {
        digits_value(d) as u64
    }
}

/// The numbers of a version string such as `v0.4.1`.
pub open spec fn version_numbers(s: Seq<char>) -> Seq<u64> {
    split_dots(strip_v(s)).map_values(|p: Seq<char>| piece_value(p))
}

/// The `i`-th number, counting missing ones as 0.
pub open spec fn number_at(ns: Seq<u64>, i: int) -> int {
    if 0 <= i < ns.len() {
        ns[i] as int
    } else {
        0
    }
}

/// The numbers agree before position `k`.
pub open spec fn agree_before(a: Seq<u64>, b: Seq<u64>, k: int) -> bool {
    forall|j: int| 0 <= j < k ==> #[trigger] number_at(a, j) == number_at(b, j)
}

/// `candidate` is numerically later than `current`: at the first position
/// where they differ (missing numbers count as 0), the candidate's is greater.
pub open spec fn numbers_later(current: Seq<u64>, candidate: Seq<u64>) -> bool {
    exists|k: int| 0 <= k && agree_before(current, candidate, k) && #[trigger] number_at(candidate, k) > number_at(current, k)
}

pub open spec fn version_newer(current: Seq<char>, candidate: Seq<char>) -> bool {
    numbers_later(version_numbers(current), version_numbers(candidate))
}

proof fn lemma_split_dots_nonempty(s: Seq<char>)
    ensures
        split_dots(s).len() >= 1,
    decreases s.len(),
{
    if s.len() > 0 {
        lemma_split_dots_nonempty(s.drop_last());
    }
}

proof fn lemma_digit_prefix_of_digits(p: Seq<char>, i: int)
    requires
        0 <= i <= p.len(),
        forall|j: int| 0 <= j < i ==> is_digit(#[trigger] p[j]),
        i == p.len() || !is_digit(p[i]),
    ensures
        digit_prefix(p) == p.take(i),
    decreases i,
{
    if i == 0 {
        assert(p.take(0) =~= Seq::<char>::empty());
    } else {
        let rest = p.drop_first();
        assert forall|j: int| 0 <= j < i - 1 implies is_digit(#[trigger] rest[j]) by {
            assert(rest[j] == p[j + 1]);
        }
        if i - 1 < rest.len() {
            assert(rest[i - 1] == p[i]);
        }
        lemma_digit_prefix_of_digits(rest, i - 1);
        assert(seq![p[0]] + rest.take(i - 1) =~= p.take(i));
    }
}

proof fn lemma_digits_value_grows(d: Seq<char>, c: char)
    requires
        is_digit(c),
    ensures
        digits_value(d.push(c)) == digits_value(d) * 10 + ((c as u32) - ('0' as u32)),
        digits_value(d.push(c)) >= digits_value(d),
{
    assert(d.push(c).drop_last() =~= d);
}

/// The number of one dotted piece.
fn piece_number(p: &[char]) -> (n: u64)
    ensures
        n == piece_value(p@),
{
    let mut i: usize = 0;
    let mut acc: u64 = 0;
    let mut overflow = false;
    while i < p.len() && '0' <= p[i] && p[i] <= '9'
        invariant
            i <= p@.len(),
            forall|j: int| 0 <= j < i ==> is_digit(#[trigger] p@[j]),
            overflow ==> digits_value(p@.take(i as int)) > u64::MAX,
            !overflow ==> acc == digits_value(p@.take(i as int)),
        decreases p@.len() - i,
    {
        let c = p[i];
        proof {
            assert(p@.take(i + 1) =~= p@.take(i as int).push(c));
            lemma_digits_value_grows(p@.take(i as int), c);
        }
        let d = (c as u32 - '0' as u32) as u64;
        if !overflow {
            match acc.checked_mul(10) {
                Some(t) => match t.checked_add(d) {
                    Some(v) => {
                        acc = v;
                    },
                    None => {
                        overflow = true;
                    },
                },
                None => {
                    overflow = true;
                },
            }
        }
        i = i + 1;
    }
    proof {
        lemma_digit_prefix_of_digits(p@, i as int);
    }
    if i == 0 || overflow {
        0
    } else {
        acc
    }
}

/// The numbers of a version string: leading `v`/`V` dropped, split at dots,
/// each piece read by its leading digits (0 when it has none or they overflow).
pub fn version_parts(value: &str) -> (parts: Vec<u64>)
    ensures
        parts@ == version_numbers(value@),
{
    let v = chars_of(value);
    let mut start: usize = 0;
    assert(v@.subrange(0, v@.len() as int) =~= v@);
    while start < v.len() && (v[start] == 'v' || v[start] == 'V')
        invariant
            start <= v@.len(),
            strip_v(v@) == strip_v(v@.subrange(start as int, v@.len() as int)),
        decreases v@.len() - start,
    {
        assert(v@.subrange(start as int, v@.len() as int).drop_first() =~= v@.subrange(start + 1, v@.len() as int));
        start = start + 1;
    }
    let ghost t = v@.subrange(start as int, v@.len() as int);
    assert(strip_v(t) == t);
    let mut parts: Vec<u64> = Vec::new();
    let mut piece: Vec<char> = Vec::new();
    let mut i: usize = start;
    assert(t.take(0) =~= Seq::<char>::empty());
    assert(parts@.push(piece_value(piece@)) =~= split_dots(t.take(0)).map_values(|p: Seq<char>| piece_value(p)));
    while i < v.len()
        invariant
            start <= i <= v@.len(),
            t == v@.subrange(start as int, v@.len() as int),
            parts@.len() + 1 == split_dots(t.take(i - start)).len(),
            forall|k: int| 0 <= k < parts@.len() ==> #[trigger] parts@[k] == piece_value(split_dots(t.take(i - start))[k]),
            piece@ == split_dots(t.take(i - start)).last(),
        decreases v@.len() - i,
    {
        let ghost k = i - start;
        proof {
            lemma_split_dots_nonempty(t.take(k));
            assert(t.take(k + 1).drop_last() =~= t.take(k));
            assert(t.take(k + 1).last() == v@[i as int]);
        }
        if v[i] == '.' {
            parts.push(piece_number(piece.as_slice()));
            piece = Vec::new();
        } else {
            piece.push(v[i]);
        }
        i = i + 1;
    }
    let ghost all = split_dots(t.take(i - start));
    assert(t.take(i - start) =~= t);
    parts.push(piece_number(piece.as_slice()));
    assert(parts@ =~= all.map_values(|p: Seq<char>| piece_value(p)));
    parts
}

/// Whether `candidate` is a later version than `current`, comparing the
/// dotted numbers one by one and counting missing ones as 0.
pub fn is_newer_version(current: &str, candidate: &str) -> (b: bool)
    ensures
        b == version_newer(current@, candidate@),
{
    let cur = version_parts(current);
    let cand = version_parts(candidate);
    let length = if cur.len() >= cand.len() {
        cur.len()
    } else {
        cand.len()
    };
    let mut i: usize = 0;
    while i < length
        invariant
            i <= length,
            length == cur@.len() || length == cand@.len(),
            cur@.len() <= length && cand@.len() <= length,
            cur@ == version_numbers(current@),
            cand@ == version_numbers(candidate@),
            agree_before(cur@, cand@, i as int),
        decreases length - i,
    {
        let a: u64 = if i < cur.len() {
            cur[i]
        } else {
            0
        };
        let b: u64 = if i < cand.len() {
            cand[i]
        } else {
            0
        };
        assert(a == number_at(cur@, i as int) && b == number_at(cand@, i as int));
        if a != b {
            if b > a {
                assert(number_at(cand@, i as int) > number_at(cur@, i as int));
                return true;
            } else {
                assert forall|k: int| 0 <= k && agree_before(cur@, cand@, k) implies !(#[trigger] number_at(cand@, k) > number_at(cur@, k)) by {
                    if k > i {
                        assert(number_at(cur@, i as int) == number_at(cand@, i as int));
                    }
                }
                return false;
            }
        }
        i = i + 1;
    }
    assert forall|k: int| 0 <= k && agree_before(cur@, cand@, k) implies !(#[trigger] number_at(cand@, k) > number_at(cur@, k)) by {
        if k < i {
            assert(number_at(cur@, k) == number_at(cand@, k));
        }
    }
    false
}

/// No version is newer than itself.
pub proof fn law_newer_irreflexive(version: Seq<char>)
    ensures
        !version_newer(version, version),
{
}

/// Of two versions at most one is newer than the other.
pub proof fn law_newer_asymmetric(a: Seq<char>, b: Seq<char>)
    ensures
        !(version_newer(a, b) && version_newer(b, a)),
{
    let x = version_numbers(a);
    let y = version_numbers(b);
    if version_newer(a, b) && version_newer(b, a) {
        let k1 = choose|k: int| 0 <= k && agree_before(x, y, k) && #[trigger] number_at(y, k) > number_at(x, k);
        let k2 = choose|k: int| 0 <= k && agree_before(y, x, k) && #[trigger] number_at(x, k) > number_at(y, k);
        if k1 < k2 {
            assert(number_at(y, k1) == number_at(x, k1));
        } else if k2 < k1 {
            assert(number_at(x, k2) == number_at(y, k2));
        }
    }
}

/// Newer is transitive: a release newer than one that is newer than the
/// running version is newer than the running version.
pub proof fn law_newer_transitive(a: Seq<char>, b: Seq<char>, c: Seq<char>)
    requires
        version_newer(a, b),
        version_newer(b, c),
    ensures
        version_newer(a, c),
{
    let x = version_numbers(a);
    let y = version_numbers(b);
    let z = version_numbers(c);
    let k1 = choose|k: int| 0 <= k && agree_before(x, y, k) && #[trigger] number_at(y, k) > number_at(x, k);
    let k2 = choose|k: int| 0 <= k && agree_before(y, z, k) && #[trigger] number_at(z, k) > number_at(y, k);
    let k = if k1 <= k2 { k1 } else { k2 };
    assert forall|j: int| 0 <= j < k implies #[trigger] number_at(x, j) == number_at(z, j) by {
        assert(number_at(x, j) == number_at(y, j));
        assert(number_at(y, j) == number_at(z, j));
    }
    if k1 < k2 {
        assert(number_at(y, k1) == number_at(z, k1));
    } else if k2 < k1 {
        assert(number_at(x, k2) == number_at(y, k2));
    }
    assert(agree_before(x, z, k) && number_at(z, k) > number_at(x, k));
}

// ------------------------------------------------------------------ releases

/// The update state shown in the settings window.
#[derive(Debug)]
pub struct UpdateStatus {
    pub state: String,
    pub current_version: String,
    pub available_version: Option<String>,
    pub message: Option<String>,
}

/// A release that can be installed.
#[derive(Debug)]
pub struct UpdateRelease {
    pub version: String,
    pub notes: Option<String>,
    pub download_url: String,
}

/// An asset of a GitHub release.
#[derive(Debug, Clone)]
pub struct GithubAsset {
    pub name: String,
    pub browser_download_url: String,
}

impl UpdateStatus {
    /// Nothing checked yet.
    pub fn idle(version: String) -> (s: UpdateStatus)
        ensures
            s.state@ == "idle"@,
            s.current_version == version,
            s.available_version is None,
            s.message is None,
    {
        UpdateStatus { state: String::from_str("idle"), current_version: version, available_version: None, message: None }
    }

    pub fn with_state(version: String, state: &str, available_version: Option<String>, message: Option<String>) -> (s: UpdateStatus)
        ensures
            s.state@ == state@,
            s.current_version == version,
            s.available_version == available_version,
            s.message == message,
    {
        UpdateStatus { state: String::from_str(state), current_version: version, available_version, message }
    }
}

impl UpdateRelease {
    pub fn duplicate(&self) -> (r: UpdateRelease)
        ensures
            r == *self,
    {
        UpdateRelease {
            version: self.version.clone(),
            notes: match &self.notes {
                Some(n) => Some(n.clone()),
                None => None,
            },
            download_url: self.download_url.clone(),
        }
    }
}

/// Downloads are only taken from the project's own releases.
pub open spec fn trusted_prefix() -> Seq<char> {
    "https://github.com/Afterlife-lh/codex-quota-bar/releases/download/"@
}

/// An x64 MSI installer; `localized` also asks for the zh-CN one.
pub open spec fn msi_for(a: GithubAsset, localized: bool) -> bool {
    let name = lowercase(a.name@);
    &&& ends_with(name, ".msi"@)
    &&& contains_seq(name, "x64"@)
    &&& (localized ==> contains_seq(name, "zh-cn"@))
}

/// The first asset that is an installer of the kind asked for.
pub open spec fn first_msi(assets: Seq<GithubAsset>, localized: bool) -> Option<GithubAsset>
    decreases assets.len(),
{
    if assets.len() == 0 {
        None
    } else if msi_for(assets[0], localized) {
        Some(assets[0])
    } else {
        first_msi(assets.drop_first(), localized)
    }
}

/// The installer to download: the zh-CN x64 MSI, else any x64 MSI.
pub open spec fn chosen_installer(assets: Seq<GithubAsset>) -> Option<GithubAsset> {
    match first_msi(assets, true) {
        Some(a) => Some(a),
        None => first_msi(assets, false),
    }
}

/// What the latest release means for the running version: nothing when it
/// is not newer; otherwise its installer, which must exist and come from the
/// project's own release downloads.
pub open spec fn release_result(current: Seq<char>, tag_name: Seq<char>, body: Option<String>, assets: Seq<GithubAsset>, r: Result<Option<UpdateRelease>, String>) -> bool {
    let version = strip_v(tag_name);
    if !version_newer(current, version) {
        r matches Ok(None)
    } else {
        match chosen_installer(assets) {
            None => r matches Err(m) && m@ == "新版本没有可用的 x64 MSI 安装包"@,
            Some(a) => if !starts_with(a.browser_download_url@, trusted_prefix()) {
                r matches Err(m) && m@ == "更新下载地址不属于受信任仓库"@
            } else {
                &&& r matches Ok(Some(rel))
                &&& rel.version@ == version
                &&& rel.notes == body
                &&& rel.download_url == a.browser_download_url
            },
        }
    }
}

/// A leading `v` does not change a version.
pub proof fn law_v_prefix_ignored(version: Seq<char>)
    ensures
        version_numbers(seq!['v'] + version) == version_numbers(version),
        version_numbers(seq!['V'] + version) == version_numbers(version),
{
    assert((seq!['v'] + version).drop_first() =~= version);
    assert((seq!['V'] + version).drop_first() =~= version);
}

/// Missing numbers count as zero: `1.0` and `1.0.0` are the same version.
pub proof fn law_trailing_zero_is_no_change(current: Seq<u64>, candidate: Seq<u64>)
    ensures
        numbers_later(current, candidate.push(0)) == numbers_later(current, candidate),
        numbers_later(candidate.push(0), current) == numbers_later(candidate, current),
{
    let longer = candidate.push(0);
    assert forall|i: int| #[trigger] number_at(longer, i) == number_at(candidate, i) by {
        if 0 <= i < candidate.len() {
            assert(longer[i] == candidate[i]);
        }
    }
    assert forall|k: int| agree_before(current, longer, k) == agree_before(current, candidate, k) by {
        if agree_before(current, candidate, k) {
            assert forall|j: int| 0 <= j < k implies #[trigger] number_at(current, j) == number_at(longer, j) by {
                assert(number_at(longer, j) == number_at(candidate, j));
            }
        }
        if agree_before(current, longer, k) {
            assert forall|j: int| 0 <= j < k implies #[trigger] number_at(current, j) == number_at(candidate, j) by {
                assert(number_at(longer, j) == number_at(candidate, j));
            }
        }
    }
    assert forall|k: int| agree_before(longer, current, k) == agree_before(candidate, current, k) by {
        if agree_before(candidate, current, k) {
            assert forall|j: int| 0 <= j < k implies #[trigger] number_at(longer, j) == number_at(current, j) by {
                assert(number_at(longer, j) == number_at(candidate, j));
            }
        }
        if agree_before(longer, current, k) {
            assert forall|j: int| 0 <= j < k implies #[trigger] number_at(candidate, j) == number_at(current, j) by {
                assert(number_at(longer, j) == number_at(candidate, j));
            }
        }
    }
    if numbers_later(current, longer) {
        let k = choose|k: int| 0 <= k && agree_before(current, longer, k) && #[trigger] number_at(longer, k) > number_at(current, k);
        assert(number_at(candidate, k) > number_at(current, k));
    }
    if numbers_later(current, candidate) {
        let k = choose|k: int| 0 <= k && agree_before(current, candidate, k) && #[trigger] number_at(candidate, k) > number_at(current, k);
        assert(number_at(longer, k) > number_at(current, k));
    }
    if numbers_later(longer, current) {
        let k = choose|k: int| 0 <= k && agree_before(longer, current, k) && #[trigger] number_at(current, k) > number_at(longer, k);
        assert(number_at(current, k) > number_at(candidate, k));
    }
    if numbers_later(candidate, current) {
        let k = choose|k: int| 0 <= k && agree_before(candidate, current, k) && #[trigger] number_at(current, k) > number_at(candidate, k);
        assert(number_at(current, k) > number_at(longer, k));
    }
}

/// An offered update is newer than the running version and is downloaded
/// only from the project's own releases.
pub proof fn law_updates_are_newer_and_trusted(
    current: Seq<char>,
    tag_name: Seq<char>,
    body: Option<String>,
    assets: Seq<GithubAsset>,
    r: Result<Option<UpdateRelease>, String>,
)
    requires
        release_result(current, tag_name, body, assets, r),
        r matches Ok(Some(_)),
    ensures
        version_newer(current, r->Ok_0->0.version@),
        starts_with(r->Ok_0->0.download_url@, trusted_prefix()),
{
}

fn is_msi(a: &GithubAsset, localized: bool) -> (b: bool)
    ensures
        b == msi_for(*a, localized),
{
    let name = chars_of(a.name.as_str());
    let lower = lowercase_chars(name.as_slice());
    let msi = chars_of(".msi");
    let x64 = chars_of("x64");
    let zh = chars_of("zh-cn");
    ends_with_exec(lower.as_slice(), msi.as_slice()) && contains_exec(lower.as_slice(), x64.as_slice())
        && (!localized || contains_exec(lower.as_slice(), zh.as_slice()))
}

fn find_msi(assets: &Vec<GithubAsset>, localized: bool) -> (r: Option<usize>)
    ensures
        match first_msi(assets@, localized) {
            Some(a) => r matches Some(i) && i < assets@.len() && assets@[i as int] == a,
            None => r is None,
        },
{
    let mut i: usize = 0;
    assert(assets@.subrange(0, assets@.len() as int) =~= assets@);
    while i < assets.len()
        invariant
            i <= assets@.len(),
            first_msi(assets@, localized) == first_msi(assets@.subrange(i as int, assets@.len() as int), localized),
        decreases assets@.len() - i,
    {
        if is_msi(&assets[i], localized) {
            return Some(i);
        }
        assert(assets@.subrange(i as int, assets@.len() as int).drop_first() =~= assets@.subrange(i + 1, assets@.len() as int));
        i = i + 1;
    }
    None
}

/// Reads the latest release for the running version `current`: its tag
/// without a leading `v` is its version; an older or equal one means no
/// update; a newer one needs an x64 MSI (preferably the zh-CN one) whose
/// download address lies under the project's own releases.
pub fn select_release(current: &str, tag_name: &str, body: Option<String>, assets: &Vec<GithubAsset>) -> (r: Result<Option<UpdateRelease>, String>)
    ensures
        release_result(current@, tag_name@, body, assets@, r),
{
    let tag = chars_of(tag_name);
    let mut start: usize = 0;
    assert(tag@.subrange(0, tag@.len() as int) =~= tag@);
    while start < tag.len() && (tag[start] == 'v' || tag[start] == 'V')
        invariant
            start <= tag@.len(),
            strip_v(tag@) == strip_v(tag@.subrange(start as int, tag@.len() as int)),
        decreases tag@.len() - start,
    {
        assert(tag@.subrange(start as int, tag@.len() as int).drop_first() =~= tag@.subrange(start + 1, tag@.len() as int));
        start = start + 1;
    }
    let version = string_of(tag.as_slice(), start, tag.len());
    assert(strip_v(tag@.subrange(start as int, tag@.len() as int)) == tag@.subrange(start as int, tag@.len() as int));
    if !is_newer_version(current, version.as_str()) {
        return Ok(None);
    }
    let index = match find_msi(assets, true) {
        Some(i) => i,
        None => match find_msi(assets, false) {
            Some(i) => i,
            None => return Err(String::from_str("新版本没有可用的 x64 MSI 安装包")),
        },
    };
    let url = &assets[index].browser_download_url;
    let url_chars = chars_of(url.as_str());
    let prefix = chars_of("https://github.com/Afterlife-lh/codex-quota-bar/releases/download/");
    if !starts_with_exec(url_chars.as_slice(), prefix.as_slice()) {
        return Err(String::from_str("更新下载地址不属于受信任仓库"));
    }
    Ok(Some(UpdateRelease { version, notes: body, download_url: url.clone() }))
}

/// "GitHub 返回 HTTP <code>": the release query was answered with an error status.
pub fn github_http_error(code: u16) -> (m: String)
    ensures
        m@ == "GitHub 返回 HTTP "@ + decimal(code as nat),
{
    let mut m = String::from_str("GitHub 返回 HTTP ");
    push_decimal(&mut m, code as u64);
    m
}

/// "更新下载返回 HTTP <code>": the installer download was answered with an error status.
pub fn download_http_error(code: u16) -> (m: String)
    ensures
        m@ == "更新下载返回 HTTP "@ + decimal(code as nat),
{
    let mut m = String::from_str("更新下载返回 HTTP ");
    push_decimal(&mut m, code as u64);
    m
}

/// The file name the installer of `version` is saved under.
pub fn installer_file_name(version: &str) -> (name: String)
    ensures
        name@ == "Codex-Quota-Bar-"@ + version@ + "-x64-zh-CN.msi"@,
{
    let mut name = String::from_str("Codex-Quota-Bar-");
    name.append(version);
    name.append("-x64-zh-CN.msi");
    name
}

// ------------------------------------------------------------------ installer

/// A Windows path as a command line can take it: the extended-length
/// prefixes `\\?\UNC\` and `\\?\` are dropped (the UNC one leaving `\\`).
pub open spec fn command_path(p: Seq<char>) -> Seq<char> {
    let unc = "\\\\?\\UNC\\"@;
    let ext = "\\\\?\\"@;
    if starts_with(p, unc) {
        "\\\\"@ + p.skip(unc.len() as int)
    } else if starts_with(p, ext) {
        p.skip(ext.len() as int)
    } else {
        p
    }
}

/// `s` with every `'` doubled, for a single-quoted PowerShell string.
pub open spec fn quoted_literal(s: Seq<char>) -> Seq<char>
    decreases s.len(),
{
    if s.len() == 0 {
        s
    } else if s.last() == '\'' {
        quoted_literal(s.drop_last()) + seq!['\'', '\'']
    } else {
        quoted_literal(s.drop_last()).push(s.last())
    }
}

pub fn windows_command_path(path: &str) -> (r: String)
    ensures
        r@ == command_path(path@),
{
    let v = chars_of(path);
    let unc = chars_of("\\\\?\\UNC\\");
    let ext = chars_of("\\\\?\\");
    if starts_with_exec(v.as_slice(), unc.as_slice()) {
        let mut r = String::from_str("\\\\");
        let rest = string_of(v.as_slice(), unc.len(), v.len());
        r.append(rest.as_str());
        assert(v@.subrange(unc@.len() as int, v@.len() as int) =~= v@.skip(unc@.len() as int));
        r
    } else if starts_with_exec(v.as_slice(), ext.as_slice()) {
        let r = string_of(v.as_slice(), ext.len(), v.len());
        assert(v@.subrange(ext@.len() as int, v@.len() as int) =~= v@.skip(ext@.len() as int));
        r
    } else {
        let r = string_of(v.as_slice(), 0, v.len());
        assert(v@.subrange(0, v@.len() as int) =~= v@);
        r
    }
}

pub fn powershell_literal(value: &str) -> (r: String)
    ensures
        r@ == quoted_literal(value@),
{
    let v = chars_of(value);
    let mut r = String::new();
    let mut i: usize = 0;
    assert(v@.take(0) =~= Seq::<char>::empty());
    while i < v.len()
        invariant
            i <= v@.len(),
            r@ == quoted_literal(v@.take(i as int)),
        decreases v@.len() - i,
    {
        assert(v@.take(i + 1).drop_last() =~= v@.take(i as int));
        assert(v@.take(i + 1).last() == v@[i as int]);
        if v[i] == '\'' {
            push_char(&mut r, '\'');
            push_char(&mut r, '\'');
            assert(r@ =~= quoted_literal(v@.take(i as int)) + seq!['\'', '\'']);
        } else {
            push_char(&mut r, v[i]);
        }
        i = i + 1;
    }
    assert(v@.take(v@.len() as int) =~= v@);
    r
}

/// The PowerShell script that installs the MSI at `msi_path` after a short
/// pause, removes it when the installation succeeded (exit code 0 or 3010),
/// and starts `exe_path` again once it has confirmed that the file exists.
pub open spec fn installer_script_text(msi_path: Seq<char>, exe_path: Seq<char>) -> Seq<char> {
    "$msi='"@ + quoted_literal(command_path(msi_path)) + "';$exe='"@ + quoted_literal(command_path(exe_path))
        + "';Start-Sleep -Seconds 2;& msiexec.exe /i $msi /passive /norestart;$code=$LASTEXITCODE;if($code -eq 0 -or $code -eq 3010){Remove-Item -LiteralPath $msi -Force -ErrorAction SilentlyContinue};if(Test-Path -LiteralPath $exe){Start-Process -FilePath $exe}"@
}

pub fn installer_script(msi_path: &str, exe_path: &str) -> (script: String)
    ensures
        script@ == installer_script_text(msi_path@, exe_path@),
{
    let msi = powershell_literal(windows_command_path(msi_path).as_str());
    let exe = powershell_literal(windows_command_path(exe_path).as_str());
    let mut script = String::from_str("$msi='");
    script.append(msi.as_str());
    script.append("';$exe='");
    script.append(exe.as_str());
    script.append(
        "';Start-Sleep -Seconds 2;& msiexec.exe /i $msi /passive /norestart;$code=$LASTEXITCODE;if($code -eq 0 -or $code -eq 3010){Remove-Item -LiteralPath $msi -Force -ErrorAction SilentlyContinue};if(Test-Path -LiteralPath $exe){Start-Process -FilePath $exe}",
    );
    script
}

// ------------------------------------------------------------------ update flow

/// What a finished update check leads to.
pub struct CheckOutcome {
    pub status: UpdateStatus,
    /// The new pending release (`Some(None)` clears it); `None` keeps the old one.
    pub pending: Option<Option<UpdateRelease>>,
    /// Go on to install the release right away.
    pub install: bool,
}

/// The outcome of an update check for version `current`: no newer release
/// clears the pending one and reports that the app is up to date; a newer
/// release becomes pending, is announced with its notes, and is installed at
/// once when `auto_install` is set; a failed check reports its error and
/// keeps the pending release.
pub fn after_check(current: String, outcome: Result<Option<UpdateRelease>, String>, auto_install: bool) -> (o: CheckOutcome)
    ensures
        o.status.current_version == current,
        match outcome {
            Ok(None) => {
                &&& o.status.state@ == "up_to_date"@
                &&& o.status.available_version is None
                &&& o.status.message matches Some(m) && m@ == "当前已是最新版本"@
                &&& o.pending == Some(Option::<UpdateRelease>::None)
                &&& !o.install
            },
            Ok(Some(r)) => {
                &&& o.status.state@ == "available"@
                &&& o.status.available_version == Some(r.version)
                &&& o.status.message == r.notes
                &&& o.pending == Some(Some(r))
                &&& o.install == auto_install
            },
            Err(e) => {
                &&& o.status.state@ == "error"@
                &&& o.status.available_version is None
                &&& o.status.message == Some(e)
                &&& o.pending is None
                &&& !o.install
            },
        },
{
    match outcome {
        Ok(None) => CheckOutcome {
            status: UpdateStatus::with_state(current, "up_to_date", None, Some(String::from_str("当前已是最新版本"))),
            pending: Some(None),
            install: false,
        },
        Ok(Some(release)) => {
            let r = release.duplicate();
            CheckOutcome {
                status: UpdateStatus::with_state(current, "available", Some(r.version), r.notes),
                pending: Some(Some(release)),
                install: auto_install,
            }
        },
        Err(error) => CheckOutcome {
            status: UpdateStatus::with_state(current, "error", None, Some(error)),
            pending: None,
            install: false,
        },
    }
}

/// Starts installing the pending release: without one the user is told to
/// check first; with one the download begins and is announced.
pub fn begin_install(current: String, pending: Option<UpdateRelease>) -> (r: Result<(UpdateRelease, UpdateStatus), UpdateStatus>)
    ensures
        match pending {
            None => {
                &&& r matches Err(s)
                &&& r->Err_0.state@ == "error"@
                &&& r->Err_0.current_version == current
                &&& r->Err_0.available_version is None
                &&& (r->Err_0.message matches Some(m) && m@ == "请先检查更新"@)
            },
            Some(p) => {
                &&& r matches Ok(_)
                &&& r->Ok_0.0 == p
                &&& r->Ok_0.1.state@ == "downloading"@
                &&& r->Ok_0.1.current_version == current
                &&& r->Ok_0.1.available_version == Some(p.version)
                &&& (r->Ok_0.1.message matches Some(m) && m@ == "正在下载更新…"@)
            },
        },
{
    match pending {
        None => Err(UpdateStatus::with_state(current, "error", None, Some(String::from_str("请先检查更新")))),
        Some(release) => {
            let version = release.version.clone();
            Ok((release, UpdateStatus::with_state(current, "downloading", Some(version), Some(String::from_str("正在下载更新…")))))
        },
    }
}

/// After the download of release `version`: on success the installation is
/// announced (and the installer is to be launched), on failure its error is shown.
pub fn after_download(current: String, version: String, outcome: Result<(), String>) -> (r: Result<UpdateStatus, UpdateStatus>)
    ensures
        match outcome {
            Ok(()) => {
                &&& r matches Ok(_)
                &&& r->Ok_0.state@ == "installing"@
                &&& r->Ok_0.current_version == current
                &&& r->Ok_0.available_version == Some(version)
                &&& (r->Ok_0.message matches Some(m) && m@ == "即将安装并重启…"@)
            },
            Err(e) => {
                &&& r matches Err(_)
                &&& r->Err_0.state@ == "error"@
                &&& r->Err_0.current_version == current
                &&& r->Err_0.available_version is None
                &&& r->Err_0.message == Some(e)
            },
        },
{
    match outcome {
        Ok(()) => Ok(UpdateStatus::with_state(current, "installing", Some(version), Some(String::from_str("即将安装并重启…")))),
        Err(e) => Err(UpdateStatus::with_state(current, "error", None, Some(e))),
    }
}

/// After launching the installer: on success the app quits (no new status);
/// on failure the error is shown.
pub fn after_launch(current: String, outcome: Result<(), String>) -> (r: Option<UpdateStatus>)
    ensures
        match outcome {
            Ok(()) => r is None,
            Err(e) => {
                &&& r matches Some(_)
                &&& r->0.state@ == "error"@
                &&& r->0.current_version == current
                &&& r->0.available_version is None
                &&& r->0.message == Some(e)
            },
        },
{
    match outcome {
        Ok(()) => None,
        Err(e) => Some(UpdateStatus::with_state(current, "error", None, Some(e))),
    }
}

} // verus!
