//! HTTP header maps, as the `http` crate keeps them, modelled as the entries they hold.

use vstd::prelude::*;
use vstd::multiset::Multiset;
use vstd::utf8::encode_utf8;
use reqwest::header::{HeaderMap, HeaderName, HeaderValue};
use crate::utils::text::pairs_view;

verus! {

/// The header map of the `http` crate, as `reqwest` re-exports it.
#[verifier::external_type_specification]
#[verifier::external_body]
#[verifier::reject_recursive_types(T)]
pub struct ExHeaderMap<T>(HeaderMap<T>);

/// A header value of the `http` crate, as `reqwest` re-exports it.
#[verifier::external_type_specification]
#[verifier::external_body]
pub struct ExHeaderValue(HeaderValue);

/// What a header map holds: one `(name, value)` entry per stored value, names in the
/// lowercase form the map keeps them in.
pub uninterp spec fn header_entries(headers: HeaderMap) -> Multiset<(Seq<char>, Seq<u8>)>;

/// A header name as the map stores it: non-empty, lowercase letters, digits and `-`.
pub open spec fn lowercase_token(name: Seq<char>) -> bool {
    name.len() > 0 && forall|i: int| 0 <= i < name.len() ==>
        (('a' <= #[trigger] name[i] && name[i] <= 'z') || ('0' <= name[i] && name[i] <= '9') || name[i] == '-')
}

/// `HeaderMap::clone`: the copy holds the same entries.
#[verifier::external_body]
pub(crate) fn clone_headers(headers: &HeaderMap) -> (r: HeaderMap)
    ensures
        header_entries(r) == header_entries(*headers),
{
    headers.clone()
}

/// `HeaderMap::remove` with a name given as text: every value stored under that name
/// goes, and nothing else.
#[verifier::external_body]
pub(crate) fn remove_header(headers: &mut HeaderMap, name: &str)
    requires
        lowercase_token(name@),
    ensures
        header_entries(*final(headers))
            == header_entries(*old(headers)).filter(|e: (Seq<char>, Seq<u8>)| e.0 != name@),
{
    headers.remove(name);
}

/// The largest header name `HeaderName::from_bytes` accepts, in bytes.
pub const MAX_HEADER_NAME_LEN: usize = 65535;

/// A character allowed in a header name (an RFC 9110 `tchar`).
pub open spec fn tchar(c: char) -> bool {
    ||| 'a' <= c <= 'z'
    ||| 'A' <= c <= 'Z'
    ||| '0' <= c <= '9'
    ||| c == '!' || c == '#' || c == '$' || c == '%' || c == '&' || c == '\'' || c == '*'
    ||| c == '+' || c == '-' || c == '.' || c == '^' || c == '_' || c == '`' || c == '|' || c == '~'
}

/// `c` with an ASCII capital turned lowercase.
pub open spec fn ascii_lower(c: char) -> char {
    if 'A' <= c <= 'Z' { ((c as int) + 32) as char } else { c }
}

/// The header name that `HeaderName::from_bytes` makes of `key`: the key lowercased,
/// when it is one to `MAX_HEADER_NAME_LEN` characters allowed in a name.
pub open spec fn header_name_of(key: Seq<char>) -> Option<Seq<char>> {
    if 1 <= key.len() <= MAX_HEADER_NAME_LEN && forall|i: int| 0 <= i < key.len() ==> tchar(#[trigger] key[i]) {
        Some(key.map_values(|c: char| ascii_lower(c)))
    } else {
        None
    }
}

/// Whether `HeaderValue::from_str` accepts `value`: no control character but the tab.
pub open spec fn header_value_ok(value: Seq<char>) -> bool {
    forall|i: int| 0 <= i < value.len() ==> (#[trigger] value[i] == '\t' || (' ' <= value[i] && value[i] != '\u{7f}'))
}

/// `HeaderMap::new`: a map with no entries.
#[verifier::external_body]
pub(crate) fn new_headers() -> (r: HeaderMap)
    ensures
        header_entries(r) == Multiset::<(Seq<char>, Seq<u8>)>::empty(),
{
    HeaderMap::new()
}

/// `HeaderMap::insert` of one pair of texts, the name made with `HeaderName::from_bytes`
/// and the value with `HeaderValue::from_str`; nothing happens, and `false` is returned,
/// when either refuses. An insert replaces every value stored under the name. The map
/// panics past its largest size, which the `requires` keeps well away from.
#[verifier::external_body]
pub(crate) fn insert_header(headers: &mut HeaderMap, key: &str, value: &str) -> (r: bool)
    requires
        header_entries(*old(headers)).len() < 16384,
    ensures
        match header_name_of(key@) {
            Some(name) => if header_value_ok(value@) {
                &&& r
                &&& header_entries(*final(headers)) == header_entries(*old(headers))
                    .filter(|e: (Seq<char>, Seq<u8>)| e.0 != name).insert((name, encode_utf8(value@)))
            } else {
                !r && header_entries(*final(headers)) == header_entries(*old(headers))
            },
            None => !r && header_entries(*final(headers)) == header_entries(*old(headers)),
        },
{
    match (HeaderName::from_bytes(key.as_bytes()), HeaderValue::from_str(value)) {
        (Ok(name), Ok(val)) => {
            headers.insert(name, val);
            true
        },
        _ => false,
    }
}

/// The entries of a map built by inserting `pairs` in order into an empty one, the
/// pairs that are no valid header skipped.
pub open spec fn headers_from(pairs: Seq<(Seq<char>, Seq<char>)>) -> Multiset<(Seq<char>, Seq<u8>)>
    decreases pairs.len(),
{
    if pairs.len() == 0 {
        Multiset::empty()
    } else {
        let before = headers_from(pairs.drop_last());
        let key = pairs.last().0;
        let value = pairs.last().1;
        match header_name_of(key) {
            Some(name) => if header_value_ok(value) {
                before.filter(|e: (Seq<char>, Seq<u8>)| e.0 != name).insert((name, encode_utf8(value)))
            } else {
                before
            },
            None => before,
        }
    }
}

proof fn lemma_filter_len(m: Multiset<(Seq<char>, Seq<u8>)>, name: Seq<char>)
    ensures
        m.filter(|e: (Seq<char>, Seq<u8>)| e.0 != name).len() <= m.len(),
{
    broadcast use vstd::multiset::group_multiset_axioms;
    let kept = m.filter(|e: (Seq<char>, Seq<u8>)| e.0 != name);
    let dropped = m.filter(|e: (Seq<char>, Seq<u8>)| e.0 == name);
    assert(m =~= kept.add(dropped));
}

proof fn lemma_headers_from_len(pairs: Seq<(Seq<char>, Seq<char>)>)
    ensures
        headers_from(pairs).len() <= pairs.len(),
    decreases pairs.len(),
{
    if pairs.len() > 0 {
        lemma_headers_from_len(pairs.drop_last());
        let before = headers_from(pairs.drop_last());
        match header_name_of(pairs.last().0) {
            Some(name) => {
                lemma_filter_len(before, name);
            },
            None => {},
        }
    }
}

/// Law: of the pairs a header map is built from, the last valid one of a name wins:
/// the map holds that value under the name, and no other.
pub proof fn a_later_header_replaces_an_earlier_one(pairs: Seq<(Seq<char>, Seq<char>)>, key: Seq<char>, value: Seq<char>, other: Seq<u8>)
    requires
        header_name_of(key) is Some,
        header_value_ok(value),
    ensures
        headers_from(pairs.push((key, value))).count((header_name_of(key)->0, other))
            == if other == encode_utf8(value) { 1nat } else { 0nat },
{
    broadcast use vstd::multiset::group_multiset_axioms;
    let all = pairs.push((key, value));
    assert(all.drop_last() =~= pairs);
}

/// A header map holding `pairs`, inserted in order: a pair whose name or value is not a
/// valid header is skipped, and a later pair replaces an earlier one of the same name.
pub fn build_header_map(pairs: &Option<Vec<(String, String)>>) -> (r: HeaderMap)
    requires
        pairs matches Some(ps) ==> ps.len() < 16384,
    ensures
        header_entries(r) == match pairs {
            Some(ps) => headers_from(pairs_view(ps@)),
            None => Multiset::empty(),
        },
{
    let mut map = new_headers();
    match pairs {
        None => map,
        Some(ps) => {
            let ghost pv = pairs_view(ps@);
            let mut i: usize = 0;
            proof {
                assert(pv.take(0) =~= Seq::<(Seq<char>, Seq<char>)>::empty());
            }
            while i < ps.len()
                invariant
                    i <= ps.len(),
                    ps.len() < 16384,
                    pv == pairs_view(ps@),
                    header_entries(map) == headers_from(pv.take(i as int)),
                decreases ps.len() - i,
            {
                proof {
                    lemma_headers_from_len(pv.take(i as int));
                    assert(pv.take(i + 1).drop_last() =~= pv.take(i as int));
                    assert(pv.take(i + 1).last() == (ps@[i as int].0@, ps@[i as int].1@));
                }
                let _ = insert_header(&mut map, ps[i].0.as_str(), ps[i].1.as_str());
                i = i + 1;
            }
            proof {
                assert(pv.take(i as int) =~= pv);
            }
            map
        },
    }
}

} // verus!
