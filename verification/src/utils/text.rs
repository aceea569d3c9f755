//! Decimal numbers and small string questions, stated over character sequences.

use vstd::prelude::*;
use vstd::string::*;
use super::misc::{decimal_digits, digit_char, digits};

verus! {

/// The decimal text of `n`, as `u64::to_string` writes it.
pub open spec fn decimal(n: nat) -> Seq<char> {
    digits(n).map_values(|d: u8| digit_char(d))
}

/// An ASCII decimal digit.
pub open spec fn is_digit(c: char) -> bool {
    '0' <= c && c <= '9'
}

/// The value of one ASCII decimal digit.
pub open spec fn digit_value(c: char) -> nat {
    (c as int - '0' as int) as nat
}

/// The value of a run of decimal digits, most significant first.
pub open spec fn digits_value(s: Seq<char>) -> nat
    decreases s.len(),
{
    if s.len() == 0 {
        0
    } else {
        digits_value(s.drop_last()) * 10 + digit_value(s.last())
    }
}

/// What `str::parse` gives for an unsigned integer type whose largest value is `max`:
/// an optional `+`, then one or more ASCII digits whose value fits.
pub open spec fn parse_unsigned(s: Seq<char>, max: nat) -> Option<nat> {
    let body = unsigned_body(s);
    if body.len() > 0 && all_digits(body) && digits_value(body) <= max {
        Some(digits_value(body))
    } else {
        None
    }
}

/// The digits of an unsigned number's text: all of it but a leading `+`.
pub open spec fn unsigned_body(s: Seq<char>) -> Seq<char> {
    if s.len() > 0 && s[0] == '+' { s.drop_first() } else { s }
}

/// Every character of `s` is an ASCII decimal digit.
pub open spec fn all_digits(s: Seq<char>) -> bool {
    forall|i: int| 0 <= i < s.len() ==> is_digit(#[trigger] s[i])
}

/// `s` with every occurrence of `x` taken out, as `str::replace(x, "")` leaves it.
pub open spec fn without(s: Seq<char>, x: char) -> Seq<char>
    decreases s.len(),
{
    if s.len() == 0 {
        s
    } else if s.last() == x {
        without(s.drop_last(), x)
    } else {
        without(s.drop_last(), x).push(s.last())
    }
}

/// The value paired with `key` by the last pair that names it, which is what
/// collecting the pairs into a map keeps.
pub open spec fn last_value(pairs: Seq<(Seq<char>, Seq<char>)>, key: Seq<char>) -> Option<Seq<char>>
    decreases pairs.len(),
{
    if pairs.len() == 0 {
        None
    } else if pairs.last().0 == key {
        Some(pairs.last().1)
    } else {
        last_value(pairs.drop_last(), key)
    }
}

/// The view of a list of string pairs.
pub open spec fn pairs_view(pairs: Seq<(String, String)>) -> Seq<(Seq<char>, Seq<char>)> {
    pairs.map_values(|p: (String, String)| (p.0@, p.1@))
}

/// Whether two strings hold the same text.
pub fn same_text(a: &str, b: &str) -> (r: bool)
    ensures
        r == (a@ == b@),
{
    a.to_owned() == b.to_owned()
}

/// The decimal text of `n`.
pub fn decimal_string(n: u64) -> (s: String)
    ensures
        s@ == decimal(n as nat),
{
    let ds = decimal_digits(n);
    let mut s = String::new();
    let mut i: usize = 0;
    while i < ds.len()
        invariant
            ds@ == digits(n as nat),
            i <= ds.len(),
            s@ == ds@.take(i as int).map_values(|d: u8| digit_char(d)),
        decreases ds.len() - i,
    {
        let d = ds[i];
        let t = digit_str(d);
        s.append(t);
        proof {
            assert(ds@.take(i + 1).map_values(|d: u8| digit_char(d))
                =~= ds@.take(i as int).map_values(|d: u8| digit_char(d)).push(digit_char(d)));
        }
        i = i + 1;
    }
    proof {
        assert(ds@.take(ds@.len() as int) =~= ds@);
    }
    s
}

/// The one-character text of the digit `d`.
fn digit_str(d: u8) -> (s: &'static str)
    ensures
        s@ == seq![digit_char(d)],
{
    if d == 0 { proof { reveal_strlit("0"); } "0" }
    else if d == 1 { proof { reveal_strlit("1"); } "1" }
    else if d == 2 { proof { reveal_strlit("2"); } "2" }
    else if d == 3 { proof { reveal_strlit("3"); } "3" }
    else if d == 4 { proof { reveal_strlit("4"); } "4" }
    else if d == 5 { proof { reveal_strlit("5"); } "5" }
    else if d == 6 { proof { reveal_strlit("6"); } "6" }
    else if d == 7 { proof { reveal_strlit("7"); } "7" }
    else if d == 8 { proof { reveal_strlit("8"); } "8" }
    else { proof { reveal_strlit("9"); } "9" }
}

proof fn lemma_digits_value_grows(s: Seq<char>, k: int)
    requires
        0 <= k <= s.len(),
        forall|i: int| 0 <= i < s.len() ==> is_digit(#[trigger] s[i]),
    ensures
        digits_value(s.take(k)) <= digits_value(s),
    decreases s.len() - k,
{
    if k < s.len() {
        lemma_digits_value_grows(s, k + 1);
        assert(s.take(k + 1).drop_last() =~= s.take(k));
    } else {
        assert(s.take(k) =~= s);
    }
}

proof fn lemma_decimal_digits(n: nat)
    ensures
        decimal(n).len() > 0,
        all_digits(decimal(n)),
        digits_value(decimal(n)) == n,
        decimal(n)[0] != '+',
    decreases n,
{
    reveal_with_fuel(digits, 2);
    if n >= 10 {
        lemma_decimal_digits(n / 10);
        let prev = decimal(n / 10);
        assert(decimal(n) =~= prev.push(digit_char((n % 10) as u8)));
        assert(decimal(n).drop_last() =~= prev);
        assert(decimal(n).last() == digit_char((n % 10) as u8));
        assert(digit_value(digit_char((n % 10) as u8)) == n % 10);
        assert(digits_value(decimal(n)) == digits_value(prev) * 10 + (n % 10));
        assert((n / 10) * 10 + n % 10 == n) by (nonlinear_arith);
        assert forall|i: int| 0 <= i < decimal(n).len() implies is_digit(#[trigger] decimal(n)[i]) by {
            if i < prev.len() {
                assert(decimal(n)[i] == prev[i]);
            }
        }
        assert(decimal(n)[0] == prev[0]);
    } else {
        assert(decimal(n) =~= seq![digit_char(n as u8)]);
        assert(decimal(n).drop_last() =~= Seq::<char>::empty());
        assert(decimal(n).last() == digit_char(n as u8));
        assert(digit_value(digit_char(n as u8)) == n);
        assert(digits_value(Seq::<char>::empty()) == 0);
        assert(digits_value(decimal(n)) == digits_value(decimal(n).drop_last()) * 10 + digit_value(decimal(n).last()));
    }
}

/// Law: reading back the decimal text of a number gives the number, whenever it fits.
pub proof fn decimal_reads_back(n: nat, max: nat)
    requires
        n <= max,
    ensures
        parse_unsigned(decimal(n), max) == Some(n),
{
    lemma_decimal_digits(n);
}

/// Parse the text of `s` left after taking out every `skip`, as `u64` parsing does.
pub fn parse_u64_without(s: &str, skip: char) -> (r: Option<u64>)
    ensures
        r matches Some(v) ==> parse_unsigned(without(s@, skip), u64::MAX as nat) == Some(v as nat),
        r is None ==> parse_unsigned(without(s@, skip), u64::MAX as nat) is None,
{
    let n = s.unicode_len();
    let mut kept: Vec<char> = Vec::new();
    let mut pos: usize = 0;
    let ghost text = s@;
    for c in it: s.chars()
        invariant
            text == s@,
            n == text.len(),
            it.seq() == text,
            pos == it.index(),
            pos <= text.len(),
            kept@ == without(text.take(pos as int), skip),
    {
        proof {
            assert(text.take(pos + 1).drop_last() =~= text.take(pos as int));
            assert(text[pos as int] == c);
        }
        if c != skip {
            kept.push(c);
        }
        pos = pos + 1;
    }
    proof {
        assert(text.take(text.len() as int) =~= text);
    }
    parse_u64_chars(&kept)
}

/// Parse `cs` as `u64` parsing does: an optional `+`, then one or more ASCII digits
/// whose value fits.
pub fn parse_u64_chars(cs: &Vec<char>) -> (r: Option<u64>)
    ensures
        r matches Some(v) ==> parse_unsigned(cs@, u64::MAX as nat) == Some(v as nat),
        r is None ==> parse_unsigned(cs@, u64::MAX as nat) is None,
{
    let first: usize = if cs.len() > 0 && cs[0] == '+' { 1 } else { 0 };
    let ghost body = if cs@.len() > 0 && cs@[0] == '+' { cs@.drop_first() } else { cs@ };
    proof {
        assert(body =~= cs@.skip(first as int));
    }
    if first >= cs.len() {
        return None;
    }
    let mut value: u64 = 0;
    let mut i = first;
    while i < cs.len()
        invariant
            first <= i <= cs.len(),
            body =~= cs@.skip(first as int),
            body == unsigned_body(cs@),
            forall|k: int| 0 <= k < i - first ==> is_digit(#[trigger] body[k]),
            value as nat == digits_value(body.take(i - first)),
        decreases cs.len() - i,
    {
        let c = cs[i];
        proof {
            assert(body[i - first] == c);
            assert(body.take(i - first + 1).drop_last() =~= body.take(i - first));
        }
        if !('0' <= c && c <= '9') {
            proof {
                assert(!is_digit(body[i - first]));
                assert(!all_digits(body));
                assert(parse_unsigned(cs@, u64::MAX as nat) is None);
            }
            return None;
        }
        let d = (c as u32 - '0' as u32) as u64;
        assert(d as nat == digit_value(c));
        let next = match value.checked_mul(10) {
            Some(t) => t.checked_add(d),
            None => None,
        };
        match next {
            Some(v) => {
                value = v;
            },
            None => {
                proof {
                    assert(digits_value(body.take(i - first + 1)) == value * 10 + d);
                    assert(digits_value(body.take(i - first + 1)) > u64::MAX);
                    if all_digits(body) {
                        lemma_digits_value_grows(body, i - first + 1);
                        assert(digits_value(body) > u64::MAX);
                    }
                    assert(parse_unsigned(cs@, u64::MAX as nat) is None);
                }
                return None;
            },
        }
        i = i + 1;
    }
    proof {
        assert(body.take(i - first) =~= body);
    }
    Some(value)
}

/// The value that the last pair named `key` gives it, if any pair does.
pub fn find_last_value<'a>(pairs: &'a Vec<(String, String)>, key: &str) -> (r: Option<&'a String>)
    ensures
        r matches Some(v) ==> last_value(pairs_view(pairs@), key@) == Some(v@),
        r is None ==> last_value(pairs_view(pairs@), key@) is None,
{
    let wanted = key.to_owned();
    let mut i = pairs.len();
    proof {
        assert(pairs_view(pairs@).take(i as int) =~= pairs_view(pairs@));
    }
    while i > 0
        invariant
            i <= pairs.len(),
            wanted@ == key@,
            last_value(pairs_view(pairs@), key@) == last_value(pairs_view(pairs@).take(i as int), key@),
        decreases i,
    {
        let ghost pv = pairs_view(pairs@);
        proof {
            assert(pv.take(i as int).drop_last() =~= pv.take(i - 1));
        }
        i = i - 1;
        if pairs[i].0 == wanted {
            return Some(&pairs[i].1);
        }
    }
    proof {
        assert(pairs_view(pairs@).take(0) =~= Seq::<(Seq<char>, Seq<char>)>::empty());
    }
    None
}

/// The characters of `s`, in order.
pub fn chars_of(s: &str) -> (r: Vec<char>)
    ensures
        r@ == s@,
{
    let mut cs: Vec<char> = Vec::new();
    let ghost text = s@;
    for c in it: s.chars()
        invariant
            text == s@,
            it.seq() == text,
            cs@ == text.take(it.index() as int),
    {
        proof {
            assert(text.take(it.index() + 1) =~= cs@.push(c));
        }
        cs.push(c);
    }
    proof {
        assert(text.take(text.len() as int) =~= text);
    }
    cs
}

/// Whether `needle` occurs in `hay` as a run of consecutive characters.
pub open spec fn has_substring(hay: Seq<char>, needle: Seq<char>) -> bool {
    exists|i: int| 0 <= i && i + needle.len() <= hay.len() && #[trigger] hay.subrange(i, i + needle.len()) == needle
}

/// Whether `needle` occurs in `hay`, as `str::contains` answers it.
pub fn contains_substring(hay: &str, needle: &str) -> (r: bool)
    ensures
        r == has_substring(hay@, needle@),
{
    let h = chars_of(hay);
    let n = chars_of(needle);
    if n.len() > h.len() {
        return false;
    }
    let mut i: usize = 0;
    while i <= h.len() - n.len()
        invariant
            h@ == hay@,
            n@ == needle@,
            n.len() <= h.len(),
            i <= h.len() - n.len() + 1,
            forall|k: int| 0 <= k < i ==> #[trigger] h@.subrange(k, k + n@.len()) != n@,
        decreases h.len() - i,
    {
        let mut j: usize = 0;
        while j < n.len() && h[i + j] == n[j]
            invariant
                h@ == hay@,
                n@ == needle@,
                i + n.len() <= h.len(),
                j <= n.len(),
                forall|m: int| 0 <= m < j ==> h@[i + m] == n@[m],
            decreases n.len() - j,
        {
            j = j + 1;
        }
        if j == n.len() {
            proof {
                assert(h@.subrange(i as int, i + n@.len()) =~= n@);
            }
            return true;
        }
        proof {
            if h@.subrange(i as int, i + n@.len()) == n@ {
                assert(h@.subrange(i as int, i + n@.len())[j as int] == h@[i + j]);
            }
        }
        i = i + 1;
    }
    proof {
        assert forall|k: int| 0 <= k && k + needle@.len() <= hay@.len() implies
            #[trigger] hay@.subrange(k, k + needle@.len()) != needle@ by {
            assert(k < i);
        }
    }
    false
}

/// Whether `a` sorts before `b`: compared character by character, a proper prefix
/// first, as `str`'s ordering compares two texts.
pub open spec fn text_lt(a: Seq<char>, b: Seq<char>) -> bool
    decreases a.len(),
{
    if a.len() == 0 {
        b.len() > 0
    } else if b.len() == 0 {
        false
    } else if a[0] != b[0] {
        a[0] < b[0]
    } else {
        text_lt(a.drop_first(), b.drop_first())
    }
}

/// No text sorts before itself, and of two different texts one sorts first.
pub proof fn lemma_text_lt_total(a: Seq<char>, b: Seq<char>)
    ensures
        !text_lt(a, a),
        a != b ==> text_lt(a, b) || text_lt(b, a),
        text_lt(a, b) ==> !text_lt(b, a),
    decreases a.len(),
{
    if a.len() > 0 {
        lemma_text_lt_total(a.drop_first(), a.drop_first());
        if b.len() > 0 {
            lemma_text_lt_total(a.drop_first(), b.drop_first());
            if a[0] == b[0] && a.drop_first() == b.drop_first() {
                assert(a =~= seq![a[0]] + a.drop_first());
                assert(b =~= seq![b[0]] + b.drop_first());
            }
        }
    } else if b.len() == 0 {
        assert(a =~= b);
    }
}

/// Sorting before is transitive.
pub proof fn lemma_text_lt_trans(a: Seq<char>, b: Seq<char>, c: Seq<char>)
    requires
        text_lt(a, b),
        text_lt(b, c),
    ensures
        text_lt(a, c),
    decreases a.len(),
{
    if a.len() > 0 && b.len() > 0 && c.len() > 0 && a[0] == b[0] && b[0] == c[0] {
        lemma_text_lt_trans(a.drop_first(), b.drop_first(), c.drop_first());
    }
}

/// Whether `a` sorts before `b`, as `str`'s ordering says.
pub fn text_less(a: &str, b: &str) -> (r: bool)
    ensures
        r == text_lt(a@, b@),
{
    let x = chars_of(a);
    let y = chars_of(b);
    let mut i: usize = 0;
    proof {
        assert(x@.skip(0) =~= x@);
        assert(y@.skip(0) =~= y@);
    }
    while i < x.len() && i < y.len() && x[i] == y[i]
        invariant
            x@ == a@,
            y@ == b@,
            i <= x.len(),
            i <= y.len(),
            text_lt(a@, b@) == text_lt(x@.skip(i as int), y@.skip(i as int)),
        decreases x.len() - i,
    {
        proof {
            assert(x@.skip(i as int).drop_first() =~= x@.skip(i + 1));
            assert(y@.skip(i as int).drop_first() =~= y@.skip(i + 1));
        }
        i = i + 1;
    }
    if i == x.len() {
        i < y.len()
    } else if i == y.len() {
        false
    } else {
        x[i] < y[i]
    }
}

} // verus!
