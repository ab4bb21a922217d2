//! Object ids as the browser backend stores them: hex text, optionally
//! behind an `sg_` prefix.
use vstd::prelude::*;
use vstd::string::*;

verus! {

/// The bytes after a leading `sg_`, or all of them.
pub open spec fn without_sg(b: Seq<u8>) -> Seq<u8> {
    if b.len() >= 3 && b[0] == 0x73 && b[1] == 0x67 && b[2] == 0x5f {
        b.skip(3)
    } else {
        b
    }
}

/// The value of a hex digit (either case).
pub open spec fn hex_value(c: u8) -> Option<u8> {
    if 0x30 <= c <= 0x39 {
        Some((c - 0x30) as u8)
    } else if 0x61 <= c <= 0x66 {
        Some((c - 0x61 + 10) as u8)
    } else if 0x41 <= c <= 0x46 {
        Some((c - 0x41 + 10) as u8)
    } else {
        None
    }
}

/// The byte a pair of hex digits stands for; `None` unless both are hex
/// digits.
pub open spec fn pair_value(c1: u8, c2: u8) -> Option<u8> {
    match (hex_value(c1), hex_value(c2)) {
        (Some(a), Some(b)) => Some((a * 16 + b) as u8),
        _ => None,
    }
}

/// The bytes the pairs of `s` read as, or `None` when one does not read.
pub open spec fn decode_pairs(s: Seq<u8>) -> Option<Seq<u8>>
    decreases s.len(),
{
    if s.len() < 2 {
        Some(Seq::empty())
    } else {
        match (decode_pairs(s.take(s.len() - 2)), pair_value(s[s.len() - 2], s[s.len() - 1])) {
            (Some(r), Some(v)) => Some(r.push(v)),
            _ => None,
        }
    }
}

/// The bytes an object id's hex text (without any `sg_` prefix) reads as;
/// `None` for an odd length or a pair that does not read.
pub open spec fn spec_hex_to_bytes(b: Seq<u8>) -> Option<Seq<u8>> {
    let s = without_sg(b);
    if s.len() % 2 != 0 {
        None
    } else {
        decode_pairs(s)
    }
}

fn hex_digit(c: u8) -> (r: Option<u8>)
    ensures
        r == hex_value(c),
{
    if 0x30 <= c && c <= 0x39 {
        Some(c - 0x30)
    } else if 0x61 <= c && c <= 0x66 {
        Some(c - 0x61 + 10)
    } else if 0x41 <= c && c <= 0x46 {
        Some(c - 0x41 + 10)
    } else {
        None
    }
}

fn read_pair(c1: u8, c2: u8) -> (r: Option<u8>)
    ensures
        r == pair_value(c1, c2),
{
    match (hex_digit(c1), hex_digit(c2)) {
        (Some(a), Some(b)) => Some(a * 16 + b),
        _ => None,
    }
}

/// Once a prefix of pairs fails to read, so does every longer run.
proof fn lemma_decode_fails_on(s: Seq<u8>, k: int)
    requires
        0 <= k <= s.len(),
        k % 2 == 0,
        s.len() % 2 == 0,
        decode_pairs(s.take(k)) is None,
    ensures
        decode_pairs(s) is None,
    decreases s.len(),
{
    if s.len() > k {
        let t = s.take(s.len() - 2);
        assert(t.take(k) =~= s.take(k));
        lemma_decode_fails_on(t, k);
    } else {
        assert(s.take(k) =~= s);
    }
}

/// Decode an object id's hex text, after an optional `sg_` prefix, into
/// bytes; `None` for an odd length or any character that is not a hex
/// digit.
pub fn hex_to_bytes(hex: &str) -> (r: Option<Vec<u8>>)
    ensures
        match r {
            Some(v) => spec_hex_to_bytes(hex.spec_bytes()) == Some(v@),
            None => spec_hex_to_bytes(hex.spec_bytes()) is None,
        },
{
    let b = hex.as_bytes();
    let start: usize = if b.len() >= 3 && b[0] == 0x73 && b[1] == 0x67 && b[2] == 0x5f {
        3
    } else {
        0
    };
    let ghost s = without_sg(b@);
    proof {
        if start == 3 {
            assert(s =~= b@.skip(3));
        } else {
            assert(s =~= b@);
        }
    }
    let n = b.len() - start;
    if n % 2 != 0 {
        return None;
    }
    let mut out: Vec<u8> = Vec::new();
    let mut i: usize = 0;
    proof {
        assert(s.take(0) =~= Seq::<u8>::empty());
    }
    while i < n
        invariant
            b@ == hex.spec_bytes(),
            s == without_sg(b@),
            n == s.len(),
            n % 2 == 0,
            i <= n,
            i % 2 == 0,
            start + n == b@.len(),
            forall|j: int| 0 <= j < n ==> s[j] == b@[start + j],
            decode_pairs(s.take(i as int)) == Some(out@),
        decreases n - i,
    {
        assert(i + 2 <= n);
        let v = read_pair(b[start + i], b[start + i + 1]);
        proof {
            let t = s.take(i + 2);
            assert(t.take(t.len() - 2) =~= s.take(i as int));
            assert(t[t.len() - 2] == s[i as int] && t[t.len() - 1] == s[i + 1]);
        }
        match v {
            None => {
                proof {
                    lemma_decode_fails_on(s, i + 2);
                }
                return None;
            },
            Some(x) => {
                out.push(x);
            },
        }
        i = i + 2;
    }
    proof {
        assert(s.take(n as int) =~= s);
    }
    Some(out)
}

} // verus!
