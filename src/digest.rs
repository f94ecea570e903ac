//! Content addresses: SHA-256 fingerprints and digests.

use vstd::prelude::*;
use crate::text::{concat, decimal, decimal_string, owned, push_char, push_str};

verus! {

/// The SHA-256 hash of `data`.
pub uninterp spec fn sha256_of(data: Seq<u8>) -> Seq<u8>;

/// Relies on `sha2::Sha256::digest`: the 32-byte SHA-256 hash of `data`.
#[verifier::external_body]
fn sha256(data: &[u8]) -> (r: [u8; 32])
    ensures
        r@ == sha256_of(data@),
{
    <sha2::Sha256 as sha2::Digest>::digest(data).into()
}

/// A 32-byte content fingerprint.
#[derive(Clone, Copy, Debug, PartialEq, Eq, Hash)]
pub struct Fingerprint(pub [u8; 32]);

/// A content address: a fingerprint and a length in bytes.
#[derive(Clone, Copy, Debug, PartialEq, Eq, Hash)]
pub struct Digest(pub Fingerprint, pub usize);

/// The lower-case hex digit for `d`.
pub open spec fn hex_digit(d: nat) -> char {
    if d < 10 { digit_of(d) } else if d == 10 { 'a' } else if d == 11 { 'b' } else if d == 12 { 'c' }
    else if d == 13 { 'd' } else if d == 14 { 'e' } else { 'f' }
}

/// The decimal digit for `d`.
pub open spec fn digit_of(d: nat) -> char {
    crate::text::digit_char(d)
}

/// The value of the hex digit `c`, in either case.
pub open spec fn hex_value(c: char) -> Option<nat> {
    if '0' <= c && c <= '9' {
        Some((c as nat - '0' as nat) as nat)
    } else if 'a' <= c && c <= 'f' {
        Some((c as nat - 'a' as nat + 10) as nat)
    } else if 'A' <= c && c <= 'F' {
        Some((c as nat - 'A' as nat + 10) as nat)
    } else {
        None
    }
}

/// Lower-case hex, two digits per byte.
pub open spec fn hex_of(b: Seq<u8>) -> Seq<char>
    decreases b.len(),
{
    if b.len() == 0 {
        Seq::empty()
    } else {
        hex_of(b.drop_last()) + seq![hex_digit(b.last() as nat / 16), hex_digit(b.last() as nat % 16)]
    }
}

/// `s` is 64 hex digits.
pub open spec fn is_fingerprint_hex(s: Seq<char>) -> bool {
    s.len() == 64 && forall|i: int| 0 <= i < 64 ==> (#[trigger] hex_value(s[i])) is Some
}

/// The byte that the hex digits at `2 i` and `2 i + 1` of `s` denote.
pub open spec fn hex_byte(s: Seq<char>, i: int) -> nat {
    hex_value(s[2 * i])->Some_0 * 16 + hex_value(s[2 * i + 1])->Some_0
}

/// The rendering of a digest in messages.
pub open spec fn digest_text(d: Digest) -> Seq<char> {
    digest_text_of(d.0.0@, d.1 as nat)
}

/// The rendering in messages of the digest with fingerprint `fp` and length `size`.
pub open spec fn digest_text_of(fp: Seq<u8>, size: nat) -> Seq<char> {
    "Digest(Fingerprint<"@ + hex_of(fp) + ">, "@ + decimal(size) + ")"@
}

/// The decimal value of the digits `s`.
pub open spec fn digits_value(s: Seq<char>) -> nat
    decreases s.len(),
{
    if s.len() == 0 {
        0
    } else {
        (digits_value(s.drop_last()) * 10 + (s.last() as int - '0' as int)) as nat
    }
}

/// `s` is one or more decimal digits.
pub open spec fn all_digits(s: Seq<char>) -> bool {
    s.len() > 0 && forall|i: int| 0 <= i < s.len() ==> '0' <= #[trigger] s[i] && s[i] <= '9'
}

/// The digits of an unsigned integer literal: an optional `+`, then the digits.
pub open spec fn unsigned_digits(s: Seq<char>) -> Seq<char> {
    if s.len() > 0 && s[0] == '+' { s.drop_first() } else { s }
}

/// The value `s` denotes as an unsigned integer, if it is one.
pub open spec fn unsigned_value(s: Seq<char>) -> Option<nat> {
    if all_digits(unsigned_digits(s)) { Some(digits_value(unsigned_digits(s))) } else { None }
}

fn hex_char(d: u8) -> (c: char)
    requires
        d < 16,
    ensures
        c == hex_digit(d as nat),
{
    if d == 0 { '0' } else if d == 1 { '1' } else if d == 2 { '2' } else if d == 3 { '3' }
    else if d == 4 { '4' } else if d == 5 { '5' } else if d == 6 { '6' } else if d == 7 { '7' }
    else if d == 8 { '8' } else if d == 9 { '9' } else if d == 10 { 'a' } else if d == 11 { 'b' }
    else if d == 12 { 'c' } else if d == 13 { 'd' } else if d == 14 { 'e' } else { 'f' }
}

fn hex_val(c: char) -> (r: Option<u8>)
    ensures
        match hex_value(c) {
            Some(v) => r == Some(v as u8) && v < 16,
            None => r is None,
        },
{
    if '0' <= c && c <= '9' {
        Some((c as u32 - '0' as u32) as u8)
    } else if 'a' <= c && c <= 'f' {
        Some((c as u32 - 'a' as u32 + 10) as u8)
    } else if 'A' <= c && c <= 'F' {
        Some((c as u32 - 'A' as u32 + 10) as u8)
    } else {
        None
    }
}

impl Fingerprint {
    /// The fingerprint as 64 lower-case hex digits.
    pub fn to_hex(&self) -> (r: String)
        ensures
            r@ == hex_of(self.0@),
    {
        let mut r = String::new();
        let mut i: usize = 0;
        while i < 32
            invariant
                i <= 32,
                r@ == hex_of(self.0@.subrange(0, i as int)),
            decreases 32 - i,
        {
            let b = self.0[i];
            push_char(&mut r, hex_char(b / 16));
            push_char(&mut r, hex_char(b % 16));
            proof {
                let s = self.0@.subrange(0, i as int + 1);
                assert(s.drop_last() =~= self.0@.subrange(0, i as int));
                assert(r@ =~= hex_of(s));
            }
            i = i + 1;
        }
        proof {
            assert(self.0@.subrange(0, 32) =~= self.0@);
        }
        r
    }

    /// The fingerprint that 64 hex digits (in either case) denote.
    pub fn from_hex_string(s: &str) -> (r: Result<Fingerprint, String>)
        ensures
            r is Ok <==> is_fingerprint_hex(s@),
            r matches Ok(f) ==> forall|i: int| 0 <= i < 32 ==> f.0@[i] as nat == hex_byte(s@, i),
            r matches Err(m) ==> m@ == "Invalid fingerprint: "@ + s@,
    {
        let n = s.unicode_len();
        if n != 64 {
            return Err(concat("Invalid fingerprint: ", s));
        }
        let mut out = [0u8; 32];
        let mut i: usize = 0;
        while i < 32
            invariant
                n == s@.len(),
                n == 64,
                i <= 32,
                forall|j: int| 0 <= j < 2 * i ==> (#[trigger] hex_value(s@[j])) is Some,
                forall|j: int| 0 <= j < i ==> out@[j] as nat == hex_byte(s@, j),
            decreases 32 - i,
        {
            let hi = hex_val(s.get_char(2 * i));
            let lo = hex_val(s.get_char(2 * i + 1));
            match (hi, lo) {
                (Some(h), Some(l)) => {
                    out[i] = h * 16 + l;
                    assert(out@[i as int] as nat == hex_byte(s@, i as int));
                },
                _ => {
                    return Err(concat("Invalid fingerprint: ", s));
                },
            }
            i = i + 1;
        }
        Ok(Fingerprint(out))
    }
}

impl Digest {
    /// The digest of `data`: its SHA-256 fingerprint and its length.
    pub fn of_bytes(data: &[u8]) -> (r: Digest)
        ensures
            r.0.0@ == sha256_of(data@),
            r.1 == data@.len(),
    {
        Digest(Fingerprint(sha256(data)), data.len())
    }

    /// Whether two digests are the same.
    pub fn same_as(&self, o: &Digest) -> (r: bool)
        ensures
            r == (self.0.0@ == o.0.0@ && self.1 == o.1),
    {
        if self.1 != o.1 {
            return false;
        }
        let mut i: usize = 0;
        while i < 32
            invariant
                i <= 32,
                forall|j: int| 0 <= j < i ==> self.0.0@[j] == o.0.0@[j],
            decreases 32 - i,
        {
            if self.0.0[i] != o.0.0[i] {
                return false;
            }
            i = i + 1;
        }
        assert(self.0.0@ =~= o.0.0@);
        true
    }

    /// The rendering of this digest in messages.
    pub fn describe(&self) -> (r: String)
        ensures
            r@ == digest_text(*self),
    {
        let mut r = owned("Digest(Fingerprint<");
        let h = self.0.to_hex();
        push_str(&mut r, h.as_str());
        push_str(&mut r, ">, ");
        let n = decimal_string(self.1 as u64);
        push_str(&mut r, n.as_str());
        push_str(&mut r, ")");
        r
    }
}

/// The unsigned integer that `s` denotes, if it is one and fits in a `usize`.
pub fn parse_usize(s: &str) -> (r: Option<usize>)
    ensures
        match unsigned_value(s@) {
            Some(v) => if v <= usize::MAX { r == Some(v as usize) } else { r is None },
            None => r is None,
        },
{
    let n = s.unicode_len();
    let mut i: usize = 0;
    if n > 0 && s.get_char(0) == '+' {
        i = 1;
    }
    let ghost d = unsigned_digits(s@);
    proof {
        if i == 1 {
            assert(d =~= s@.subrange(1, n as int));
        } else {
            assert(d =~= s@.subrange(0, n as int));
        }
    }
    if i == n {
        return None;
    }
    let start = i;
    let mut acc: usize = 0;
    while i < n
        invariant
            n == s@.len(),
            start <= i <= n,
            start < n,
            d == s@.subrange(start as int, n as int),
            d == unsigned_digits(s@),
            forall|j: int| start <= j < i ==> '0' <= #[trigger] s@[j] && s@[j] <= '9',
            acc as nat == digits_value(s@.subrange(start as int, i as int)),
        decreases n - i,
    {
        let c = s.get_char(i);
        if c < '0' || c > '9' {
            proof {
                assert(d[i - start] == c);
                assert(!('0' <= d[i - start] && d[i - start] <= '9'));
                assert(!all_digits(d));
                assert(d == unsigned_digits(s@));
                assert(unsigned_value(s@) is None);
            }
            return None;
        }
        let v = (c as u32 - '0' as u32) as usize;
        proof {
            assert(s@.subrange(start as int, i + 1).drop_last() =~= s@.subrange(start as int, i as int));
        }
        if acc > (usize::MAX - v) / 10 {
            proof {
                if all_digits(d) {
                    lemma_digits_prefix_le(d, (i + 1 - start) as int);
                    assert(d.subrange(0, (i + 1 - start) as int) =~= s@.subrange(start as int, i + 1));
                    let pv = digits_value(s@.subrange(start as int, i + 1));
                    assert(pv == acc * 10 + v);
                    assert(acc * 10 + v > usize::MAX) by (nonlinear_arith)
                        requires
                            acc > (usize::MAX - v) / 10,
                            v <= 9,
                    ;
                }
            }
            return None;
        }
        acc = acc * 10 + v;
        i = i + 1;
    }
    proof {
        assert(s@.subrange(start as int, n as int) == d);
        assert(forall|j: int| 0 <= j < d.len() ==> '0' <= #[trigger] d[j] && d[j] <= '9');
    }
    Some(acc)
}

/// A prefix of a digit string is worth no more than the whole.
proof fn lemma_digits_prefix_le(s: Seq<char>, k: int)
    requires
        0 <= k <= s.len(),
        forall|j: int| 0 <= j < s.len() ==> '0' <= #[trigger] s[j] && s[j] <= '9',
    ensures
        digits_value(s.subrange(0, k)) <= digits_value(s),
    decreases s.len() - k,
{
    if k < s.len() {
        lemma_digits_prefix_le(s, k + 1);
        let p = s.subrange(0, k + 1);
        assert(p.drop_last() =~= s.subrange(0, k));
    } else {
        assert(s.subrange(0, k) =~= s);
    }
}

/// The digest that a fingerprint in hex and a decimal length denote. An error names the
/// offending text.
pub fn lift_digest(fingerprint: &str, serialized_bytes_length: &str) -> (r: Result<Digest, String>)
    ensures
        r is Ok <==> (unsigned_value(serialized_bytes_length@) matches Some(v) && v <= usize::MAX
            && is_fingerprint_hex(fingerprint@)),
        r matches Ok(d) ==> d.1 as nat == unsigned_value(serialized_bytes_length@)->Some_0
            && forall|i: int| 0 <= i < 32 ==> d.0.0@[i] as nat == hex_byte(fingerprint@, i),
        !(unsigned_value(serialized_bytes_length@) matches Some(v) && v <= usize::MAX) ==> (r matches Err(m)
            && m@ == "Length was not a usize: "@ + serialized_bytes_length@),
        (unsigned_value(serialized_bytes_length@) matches Some(v) && v <= usize::MAX)
            && !is_fingerprint_hex(fingerprint@) ==> (r matches Err(m) && m@ == "Invalid fingerprint: "@ + fingerprint@),
{
    let len = match parse_usize(serialized_bytes_length) {
        Some(n) => n,
        None => {
            return Err(concat("Length was not a usize: ", serialized_bytes_length));
        },
    };
    let fp = Fingerprint::from_hex_string(fingerprint)?;
    Ok(Digest(fp, len))
}

} // verus!
