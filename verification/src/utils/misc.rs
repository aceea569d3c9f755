use vstd::prelude::*;
use vstd::string::*;

verus! {

/// The decimal digits of `n`, most significant first; `0` has the single digit 0.
pub open spec fn digits(n: nat) -> Seq<u8>
    decreases n,
{
    if n < 10 {
        seq![n as u8]
    } else {
        digits(n / 10).push((n % 10) as u8)
    }
}

/// The keycap emoji of one decimal digit: the digit, a variation selector, and the
/// combining enclosing keycap.
pub open spec fn keycap(d: u8) -> Seq<char> {
    seq![digit_char(d), '\u{FE0F}', '\u{20E3}']
}

/// The ASCII character of a decimal digit.
pub open spec fn digit_char(d: u8) -> char {
    if d == 0 { '0' }
    else if d == 1 { '1' }
    else if d == 2 { '2' }
    else if d == 3 { '3' }
    else if d == 4 { '4' }
    else if d == 5 { '5' }
    else if d == 6 { '6' }
    else if d == 7 { '7' }
    else if d == 8 { '8' }
    else { '9' }
}

/// Every digit of `ds` written as its keycap emoji, in order.
pub open spec fn keycaps(ds: Seq<u8>) -> Seq<char>
    decreases ds.len(),
{
    if ds.len() == 0 {
        Seq::empty()
    } else {
        keycaps(ds.drop_last()) + keycap(ds.last())
    }
}

proof fn lemma_digits_bounded(n: nat)
    ensures
        digits(n).len() > 0,
        forall|i: int| 0 <= i < digits(n).len() ==> digits(n)[i] < 10,
    decreases n,
{
    if n >= 10 {
        lemma_digits_bounded(n / 10);
    }
}

/// The decimal digits of `n`, most significant first.
pub fn decimal_digits(n: u64) -> (v: Vec<u8>)
    ensures
        v@ == digits(n as nat),
{
    let mut m = n;
    let mut v: Vec<u8> = Vec::new();
    while m >= 10
        invariant
            digits(n as nat) == digits(m as nat) + v@,
        decreases m,
    {
        let d = (m % 10) as u8;
        proof {
            assert(digits(m as nat) == digits((m / 10) as nat).push(d));
            assert(digits((m / 10) as nat) + v@.insert(0, d) =~= digits((m / 10) as nat).push(d) + v@);
        }
        v.insert(0, d);
        m = m / 10;
    }
    let d = m as u8;
    proof {
        assert(digits(m as nat) == seq![d]);
        assert(seq![d] + v@ =~= v@.insert(0, d));
    }
    v.insert(0, d);
    v
}

/// The keycap emoji of the digit `d`.
fn keycap_str(d: u8) -> (s: &'static str)
    requires
        d < 10,
    ensures
        s@ == keycap(d),
{
    if d == 0 {
        proof { reveal_strlit("0\u{FE0F}\u{20E3}"); }
        "0\u{FE0F}\u{20E3}"
    } else if d == 1 {
        proof { reveal_strlit("1\u{FE0F}\u{20E3}"); }
        "1\u{FE0F}\u{20E3}"
    } else if d == 2 {
        proof { reveal_strlit("2\u{FE0F}\u{20E3}"); }
        "2\u{FE0F}\u{20E3}"
    } else if d == 3 {
        proof { reveal_strlit("3\u{FE0F}\u{20E3}"); }
        "3\u{FE0F}\u{20E3}"
    } else if d == 4 {
        proof { reveal_strlit("4\u{FE0F}\u{20E3}"); }
        "4\u{FE0F}\u{20E3}"
    } else if d == 5 {
        proof { reveal_strlit("5\u{FE0F}\u{20E3}"); }
        "5\u{FE0F}\u{20E3}"
    } else if d == 6 {
        proof { reveal_strlit("6\u{FE0F}\u{20E3}"); }
        "6\u{FE0F}\u{20E3}"
    } else if d == 7 {
        proof { reveal_strlit("7\u{FE0F}\u{20E3}"); }
        "7\u{FE0F}\u{20E3}"
    } else if d == 8 {
        proof { reveal_strlit("8\u{FE0F}\u{20E3}"); }
        "8\u{FE0F}\u{20E3}"
    } else {
        proof { reveal_strlit("9\u{FE0F}\u{20E3}"); }
        "9\u{FE0F}\u{20E3}"
    }
}

/// Append the keycap emoji of every digit of `n` to `out`.
pub(crate) fn push_keycaps(out: &mut String, n: u64)
    ensures
        final(out)@ == old(out)@ + keycaps(digits(n as nat)),
{
    let ds = decimal_digits(n);
    proof { lemma_digits_bounded(n as nat); }
    let ghost start = out@;
    let mut i: usize = 0;
    while i < ds.len()
        invariant
            ds@ == digits(n as nat),
            forall|k: int| 0 <= k < ds@.len() ==> ds@[k] < 10,
            i <= ds.len(),
            out@ == start + keycaps(ds@.take(i as int)),
        decreases ds.len() - i,
    {
        let cap = keycap_str(ds[i]);
        proof {
            assert(ds@.take(i + 1).drop_last() =~= ds@.take(i as int));
        }
        out.append(cap);
        i = i + 1;
    }
    proof {
        assert(ds@.take(ds@.len() as int) =~= ds@);
    }
}

/// Writing a number with keycap emoji, one per decimal digit.
pub trait ToEmoji {
    fn to_emoji(&self) -> String;
}

impl ToEmoji for usize {
    fn to_emoji(&self) -> (s: String)
        ensures
            s@ == keycaps(digits(*self as nat)),
    {
        let mut s = String::new();
        push_keycaps(&mut s, *self as u64);
        s
    }
}

/// The lowercase hexadecimal SHA-256 digest of `bytes`, as `sha256::digest` writes it.
pub uninterp spec fn sha256_hex(bytes: Seq<u8>) -> Seq<char>;

/// The `n` low base-256 digits of `u`, least significant first.
pub open spec fn base256_digits(u: nat, n: nat) -> Seq<u8>
    decreases n,
{
    if n == 0 {
        Seq::empty()
    } else {
        seq![(u % 256) as u8] + base256_digits(u / 256, (n - 1) as nat)
    }
}

/// The eight little-endian bytes of `x`, as `i64::to_le_bytes` gives them.
pub open spec fn le_bytes(x: i64) -> Seq<u8> {
    base256_digits((x as u64) as nat, 8)
}

/// `sha256::digest` on a byte slice. The contract claims only that the text is the
/// one `sha256_hex` names for the bytes; the hash itself is not stated.
#[verifier::external_body]
fn sha256_digest(bytes: &[u8]) -> (r: String)
    ensures
        r@ == sha256_hex(bytes@),
{
    sha256::digest(bytes)
}

/// `time::UtcDateTime::now().unix_timestamp()`: the clock's seconds since the epoch.
/// Nothing is claimed of the value.
#[verifier::external_body]
fn unix_timestamp_now() -> (r: i64) {
    time::UtcDateTime::now().unix_timestamp()
}

/// The little-endian bytes of `x`.
pub fn le_bytes_of(x: i64) -> (r: Vec<u8>)
    ensures
        r@ == le_bytes(x),
{
    let mut u: u64 = x as u64;
    let mut out: Vec<u8> = Vec::new();
    let mut k: usize = 0;
    while k < 8
        invariant
            k <= 8,
            out@ + base256_digits(u as nat, (8 - k) as nat) == le_bytes(x),
        decreases 8 - k,
    {
        let ghost rest = base256_digits(u as nat, (8 - k) as nat);
        proof {
            assert(rest == seq![(u % 256) as u8] + base256_digits((u / 256) as nat, (8 - k - 1) as nat));
            assert(out@.push((u % 256) as u8) + base256_digits((u / 256) as nat, (8 - k - 1) as nat)
                =~= out@ + rest);
        }
        out.push((u % 256) as u8);
        u = u / 256;
        k = k + 1;
    }
    proof {
        assert(out@ + base256_digits(u as nat, 0) =~= out@);
    }
    out
}

/// The SHA-256 hex digest of the little-endian bytes of `secs`.
pub fn timestamp_digest(secs: i64) -> (r: String)
    ensures
        r@ == sha256_hex(le_bytes(secs)),
{
    let bytes = le_bytes_of(secs);
    sha256_digest(bytes.as_slice())
}

/// A fresh token: the SHA-256 hex digest of the current Unix time's little-endian
/// bytes. Whatever the clock read, the result is the digest of some timestamp.
pub fn sha256_now() -> (r: String)
    ensures
        exists|t: i64| r@ == sha256_hex(le_bytes(t)),
{
    let now = unix_timestamp_now();
    timestamp_digest(now)
}

} // verus!
