use vstd::prelude::*;
use crate::text::{
    char_views, chars_of, contains_exec, contains_seq, lowercase, lowercase_chars, same_chars,
    slice_chars, split_char, split_exec, starts_with, starts_with_exec, string_of, trim, trim_chars,
};

verus! {

/// The first position of `c` in `s`.
pub open spec fn index_of_char(s: Seq<char>, c: char) -> Option<int>
    decreases s.len(),
{
    if s.len() == 0 {
        None
    } else if s[0] == c {
        Some(0)
    } else {
        match index_of_char(s.drop_first(), c) {
            Some(i) => Some(i + 1),
            None => None,
        }
    }
}

/// The address of a `scheme=address` entry, when the entry names `scheme`
/// (compared after trimming and ASCII lower-casing).
pub open spec fn entry_address(entry: Seq<char>, scheme: Seq<char>) -> Option<Seq<char>> {
    match index_of_char(entry, '=') {
        None => None,
        Some(k) => if lowercase(trim(entry.take(k))) == scheme {
            Some(trim(entry.skip(k + 1)))
        } else {
            None
        },
    }
}

/// The address of the first entry that names `scheme`.
pub open spec fn first_address(entries: Seq<Seq<char>>, scheme: Seq<char>) -> Option<Seq<char>>
    decreases entries.len(),
{
    if entries.len() == 0 {
        None
    } else {
        match entry_address(entries[0], scheme) {
            Some(a) => Some(a),
            None => first_address(entries.drop_first(), scheme),
        }
    }
}

/// The proxy address chosen from a trimmed, non-empty setting: a per-scheme
/// list `http=…;https=…` yields its https entry, else its http entry; a
/// plain address is used as it is.
pub open spec fn selected_address(v: Seq<char>) -> Option<Seq<char>> {
    if contains_seq(v, seq!['=']) {
        let entries = split_char(v, ';');
        match first_address(entries, "https"@) {
            Some(a) => Some(a),
            None => first_address(entries, "http"@),
        }
    } else {
        Some(v)
    }
}

/// The proxy URL for HTTPS traffic that the Windows proxy setting `value`
/// gives: none for an empty setting, for a list without an http or https
/// entry, or for an empty or SOCKS address; an address without a scheme gets
/// `http://`.
pub open spec fn proxy_url(value: Seq<char>) -> Option<Seq<char>> {
    let v = trim(value);
    if v.len() == 0 {
        None
    } else {
        match selected_address(v) {
            None => None,
            Some(s) => if s.len() == 0 || starts_with(lowercase(s), "socks"@) {
                None
            } else if contains_seq(s, "://"@) {
                Some(s)
            } else {
                Some("http://"@ + s)
            },
        }
    }
}

/// A chosen proxy URL always names a scheme and is never a SOCKS proxy.
pub proof fn law_proxy_url_has_scheme(value: Seq<char>)
    ensures
        proxy_url(value) matches Some(u) ==> contains_seq(u, "://"@),
        selected_address(trim(value)) matches Some(s) ==> (proxy_url(value) is Some ==> !starts_with(lowercase(s), "socks"@)),
{
    let v = trim(value);
    if v.len() > 0 {
        if let Some(s) = selected_address(v) {
            if s.len() > 0 && !starts_with(lowercase(s), "socks"@) && !contains_seq(s, "://"@) {
                let u = "http://"@ + s;
                reveal_strlit("http://");
                reveal_strlit("://");
                assert(u.subrange(4, 7) =~= "://"@);
                assert(crate::text::occurs_at(u, "://"@, 4));
            }
        }
    }
}

fn find_char(v: &[char], c: char) -> (r: Option<usize>)
    ensures
        match r {
            Some(i) => index_of_char(v@, c) == Some(i as int) && i < v@.len(),
            None => index_of_char(v@, c) is None,
        },
{
    let mut i: usize = 0;
    assert(v@.subrange(0, v@.len() as int) =~= v@);
    while i < v.len()
        invariant
            i <= v@.len(),
            forall|k: int| 0 <= k < i ==> v@[k] != c,
            index_of_char(v@, c) == (match index_of_char(v@.subrange(i as int, v@.len() as int), c) {
                Some(k) => Some(k + i),
                None => None,
            }),
        decreases v@.len() - i,
    {
        if v[i] == c {
            return Some(i);
        }
        assert(v@.subrange(i as int, v@.len() as int).drop_first() =~= v@.subrange(i + 1, v@.len() as int));
        i = i + 1;
    }
    None
}

fn address_of(entry: &[char], scheme: &[char]) -> (r: Option<Vec<char>>)
    ensures
        match entry_address(entry@, scheme@) {
            Some(a) => r matches Some(x) && x@ == a,
            None => r is None,
        },
{
    let k = match find_char(entry, '=') {
        Some(k) => k,
        None => return None,
    };
    let key = slice_chars(entry, 0, k);
    let key_trimmed = trim_chars(key.as_slice());
    let key_lower = lowercase_chars(key_trimmed.as_slice());
    assert(key@ =~= entry@.take(k as int));
    if !same_chars(key_lower.as_slice(), scheme) {
        return None;
    }
    assert(k < entry.len());
    let rest = slice_chars(entry, k + 1, entry.len());
    assert(rest@ =~= entry@.skip(k + 1));
    Some(trim_chars(rest.as_slice()))
}

fn first_address_exec(entries: &Vec<Vec<char>>, scheme: &[char]) -> (r: Option<Vec<char>>)
    ensures
        match first_address(char_views(entries@), scheme@) {
            Some(a) => r matches Some(x) && x@ == a,
            None => r is None,
        },
{
    let ghost all = char_views(entries@);
    let mut i: usize = 0;
    assert(all.subrange(0, all.len() as int) =~= all);
    while i < entries.len()
        invariant
            i <= entries@.len(),
            all == char_views(entries@),
            first_address(all, scheme@) == first_address(all.subrange(i as int, all.len() as int), scheme@),
        decreases entries@.len() - i,
    {
        assert(all.subrange(i as int, all.len() as int)[0] == entries@[i as int]@);
        match address_of(entries[i].as_slice(), scheme) {
            Some(a) => return Some(a),
            None => {},
        }
        assert(all.subrange(i as int, all.len() as int).drop_first() =~= all.subrange(i + 1, all.len() as int));
        i = i + 1;
    }
    None
}

/// The proxy URL for HTTPS traffic that the Windows proxy setting `value`
/// gives (see `proxy_url`).
pub fn proxy_url_for_https(value: &str) -> (r: Option<String>)
    ensures
        match proxy_url(value@) {
            Some(u) => r matches Some(s) && s@ == u,
            None => r is None,
        },
{
    let raw = chars_of(value);
    let v = trim_chars(raw.as_slice());
    if v.len() == 0 {
        return None;
    }
    let eq = chars_of("=");
    proof {
        reveal_strlit("=");
    }
    assert(eq@ =~= seq!['=']);
    let selected = if contains_exec(v.as_slice(), eq.as_slice()) {
        let entries = split_exec(v.as_slice(), ';');
        let https = chars_of("https");
        let http = chars_of("http");
        match first_address_exec(&entries, https.as_slice()) {
            Some(a) => a,
            None => match first_address_exec(&entries, http.as_slice()) {
                Some(a) => a,
                None => return None,
            },
        }
    } else {
        v
    };
    if selected.len() == 0 {
        return None;
    }
    let lower = lowercase_chars(selected.as_slice());
    let socks = chars_of("socks");
    if starts_with_exec(lower.as_slice(), socks.as_slice()) {
        return None;
    }
    let sep = chars_of("://");
    if contains_exec(selected.as_slice(), sep.as_slice()) {
        Some(string_of(selected.as_slice(), 0, selected.len()))
    } else {
        let mut url = String::from_str("http://");
        let rest = string_of(selected.as_slice(), 0, selected.len());
        url.append(rest.as_str());
        Some(url)
    }
}

} // verus!
