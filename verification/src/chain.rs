//! Digests over lists of texts, in which no two lists share their bytes.
use vstd::prelude::*;
use vstd::string::*;
use vstd::utf8::encode_utf8;

use crate::crypto::{digest_bytes, sha256};

verus! {

/// A natural number in `k` bytes, the most significant one first.
pub open spec fn big_endian(n: int, k: int) -> Seq<u8>
    decreases k,
{
    if k <= 0 {
        Seq::empty()
    } else {
        big_endian(n / 256, k - 1).push((n % 256) as u8)
    }
}

/// A number of 64 bits in eight bytes; a negative one by its complement.
pub open spec fn signed_bytes(n: int) -> Seq<u8> {
    big_endian(
        if n < 0 {
            n + 0x1_0000_0000_0000_0000
        } else {
            n
        },
        8,
    )
}

fn push_big_endian(bytes: &mut Vec<u8>, n: u64, k: u32)
    ensures
        final(bytes)@ == old(bytes)@ + big_endian(n as int, k as int),
    decreases k,
{
    if k > 0 {
        push_big_endian(bytes, n / 256, k - 1);
        bytes.push((n % 256) as u8);
        proof {
            assert(bytes@ =~= old(bytes)@ + big_endian(n as int, k as int));
        }
    } else {
        proof {
            assert(bytes@ =~= old(bytes)@ + big_endian(n as int, k as int));
        }
    }
}

/// A number of 64 bits in eight bytes.
pub fn to_signed_bytes(n: i64) -> (r: Vec<u8>)
    ensures
        r@ == signed_bytes(n as int),
{
    let mut bytes: Vec<u8> = Vec::new();
    let m: u64 = if n < 0 {
        (n as i128 + 0x1_0000_0000_0000_0000) as u64
    } else {
        n as u64
    };
    push_big_endian(&mut bytes, m, 8);
    proof {
        assert(bytes@ =~= signed_bytes(n as int));
    }
    bytes
}

proof fn big_endian_length(n: int, k: int)
    requires
        0 <= k,
    ensures
        big_endian(n, k).len() == k,
    decreases k,
{
    if k > 0 {
        big_endian_length(n / 256, k - 1);
    }
}

/// How many numbers there are of `k` bytes.
pub open spec fn power_of_256(k: int) -> int
    decreases k,
{
    if k <= 0 {
        1
    } else {
        256 * power_of_256(k - 1)
    }
}

/// Numbers that have the same bytes are the same.
pub proof fn big_endian_injective(a: int, b: int, k: int)
    requires
        0 <= a < power_of_256(k),
        0 <= b < power_of_256(k),
        big_endian(a, k) == big_endian(b, k),
    ensures
        a == b,
    decreases k,
{
    if k > 0 {
        let x = big_endian(a / 256, k - 1);
        let y = big_endian(b / 256, k - 1);
        assert(big_endian(a, k).drop_last() =~= x);
        assert(big_endian(b, k).drop_last() =~= y);
        assert(big_endian(a, k).last() == (a % 256) as u8);
        assert(big_endian(b, k).last() == (b % 256) as u8);
        assert(power_of_256(k) == 256 * power_of_256(k - 1));
        big_endian_injective(a / 256, b / 256, k - 1);
    }
}

/// Numbers of 64 bits that have the same bytes are the same.
pub proof fn signed_bytes_injective(a: i64, b: i64)
    requires
        signed_bytes(a as int) == signed_bytes(b as int),
    ensures
        a == b,
{
    reveal_with_fuel(power_of_256, 9);
    let x = if a < 0 {
        a + 0x1_0000_0000_0000_0000
    } else {
        a as int
    };
    let y = if b < 0 {
        b + 0x1_0000_0000_0000_0000
    } else {
        b as int
    };
    big_endian_injective(x, y, 8);
}

/// A list of byte strings in one: each one behind its length.
pub open spec fn framed(parts: Seq<Seq<u8>>) -> Seq<u8>
    decreases parts.len(),
{
    if parts.len() == 0 {
        Seq::empty()
    } else {
        big_endian(parts[0].len() as int, 8) + parts[0] + framed(parts.drop_first())
    }
}

proof fn framed_push(parts: Seq<Seq<u8>>, part: Seq<u8>)
    ensures
        framed(parts.push(part)) == framed(parts) + (big_endian(part.len() as int, 8) + part),
    decreases parts.len(),
{
    if parts.len() == 0 {
        reveal_with_fuel(framed, 2);
        assert(parts.push(part).drop_first() =~= Seq::empty());
        assert(framed(parts.push(part)) =~= framed(parts) + (big_endian(part.len() as int, 8)
            + part));
    } else {
        assert(parts.push(part).drop_first() =~= parts.drop_first().push(part));
        framed_push(parts.drop_first(), part);
        assert(framed(parts.push(part)) =~= framed(parts) + (big_endian(part.len() as int, 8)
            + part));
    }
}

/// Each byte string is short enough for its length to have 64 bits.
pub open spec fn short_parts(parts: Seq<Seq<u8>>) -> bool {
    forall|i: int| 0 <= i < parts.len() ==> (#[trigger] parts[i]).len() <= u64::MAX
}

/// Different lists never share their bytes: the lengths tell where each byte string ends.
pub proof fn framed_injective(a: Seq<Seq<u8>>, b: Seq<Seq<u8>>)
    requires
        short_parts(a),
        short_parts(b),
        framed(a) == framed(b),
    ensures
        a == b,
    decreases a.len(),
{
    if a.len() > 0 {
        big_endian_length(a[0].len() as int, 8);
        assert(framed(a).len() == 8 + a[0].len() + framed(a.drop_first()).len());
    }
    if b.len() > 0 {
        big_endian_length(b[0].len() as int, 8);
        assert(framed(b).len() == 8 + b[0].len() + framed(b.drop_first()).len());
    }
    if a.len() == 0 || b.len() == 0 {
        assert(framed(a).len() == framed(b).len());
        assert(a =~= b);
    } else {
        let x = framed(a);
        let y = framed(b);
        let n = a[0].len() as int;
        let m = b[0].len() as int;
        assert(x.subrange(0, 8) =~= big_endian(n, 8));
        assert(y.subrange(0, 8) =~= big_endian(m, 8));
        reveal_with_fuel(power_of_256, 9);
        big_endian_injective(n, m, 8);
        assert(x.subrange(8, 8 + n) =~= a[0]);
        assert(y.subrange(8, 8 + n) =~= b[0]);
        assert(x.skip(8 + n) =~= framed(a.drop_first()));
        assert(y.skip(8 + n) =~= framed(b.drop_first()));
        framed_injective(a.drop_first(), b.drop_first());
        assert(a =~= seq![a[0]] + a.drop_first());
        assert(b =~= seq![b[0]] + b.drop_first());
    }
}

/// The byte strings of a list.
pub open spec fn byte_views(parts: Seq<Vec<u8>>) -> Seq<Seq<u8>> {
    Seq::new(parts.len(), |i: int| parts[i]@)
}

/// The digest of a list of byte strings, for a purpose.
pub open spec fn digest_of(purpose: Seq<char>, parts: Seq<Seq<u8>>) -> Seq<u8> {
    sha256(encode_utf8(purpose) + framed(parts))
}

/// The digest of a list of byte strings, for a purpose.
pub fn digest(purpose: &str, parts: &Vec<Vec<u8>>) -> (r: Vec<u8>)
    ensures
        r@ == digest_of(purpose@, byte_views(parts@)),
        r@.len() == 32,
{
    let mut bytes: Vec<u8> = Vec::new();
    bytes.extend_from_slice(purpose.as_bytes());
    let ghost all = byte_views(parts@);
    let mut i: usize = 0;
    proof {
        assert(all.take(0) =~= Seq::empty());
        assert(bytes@ =~= encode_utf8(purpose@) + framed(all.take(0)));
    }
    while i < parts.len()
        invariant
            i <= parts.len(),
            all == byte_views(parts@),
            bytes@ == encode_utf8(purpose@) + framed(all.take(i as int)),
        decreases parts.len() - i,
    {
        proof {
            assert(all.take(i + 1) =~= all.take(i as int).push(all[i as int]));
            framed_push(all.take(i as int), all[i as int]);
        }
        let part = &parts[i];
        push_big_endian(&mut bytes, part.len() as u64, 8);
        bytes.extend_from_slice(part.as_slice());
        proof {
            assert(bytes@ =~= encode_utf8(purpose@) + framed(all.take(i + 1)));
        }
        i = i + 1;
    }
    proof {
        assert(all.take(all.len() as int) =~= all);
    }
    digest_bytes(bytes.as_slice())
}

/// Two byte strings that differ have the same digest.
pub open spec fn digests_collide() -> bool {
    exists|a: Seq<u8>, b: Seq<u8>| a != b && #[trigger] sha256(a) == #[trigger] sha256(b)
}

/// A digest binds its list: two lists with the same digest are the same, unless the digests of two
/// different byte strings agree.
pub proof fn digest_binds(purpose: Seq<char>, a: Seq<Seq<u8>>, b: Seq<Seq<u8>>)
    requires
        short_parts(a),
        short_parts(b),
        digest_of(purpose, a) == digest_of(purpose, b),
    ensures
        a == b || digests_collide(),
{
    let x = encode_utf8(purpose) + framed(a);
    let y = encode_utf8(purpose) + framed(b);
    if x == y {
        let n = encode_utf8(purpose).len() as int;
        assert(x.skip(n) =~= framed(a));
        assert(y.skip(n) =~= framed(b));
        framed_injective(a, b);
    }
}

} // verus!
