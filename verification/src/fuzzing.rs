//! The pseudo-random inputs that the fuzz targets run on, and the hex text
//! by which a failing input is reported.
use vstd::prelude::*;

use crate::text::string_from_chars;

verus! {

/// One xorshift step of the generator's state.
pub open spec fn xorshift(r: u64) -> u64 {
    let a = r ^ (r << 13u64);
    let b = a ^ (a >> 7u64);
    b ^ (b << 17u64)
}

/// One step of the linear congruential sequence that fills an input.
pub open spec fn lcg_step(s: u64) -> u64 {
    s.wrapping_mul(6364136223846793005u64).wrapping_add(1u64)
}

/// The linear congruential state after `k` steps from `seed`.
pub open spec fn lcg_state(seed: u64, k: nat) -> u64
    decreases k,
{
    if k == 0 {
        seed
    } else {
        lcg_step(lcg_state(seed, (k - 1) as nat))
    }
}

/// The input drawn from generator state `state`: `state % 512 + 1` bytes,
/// byte `k` being bits 32 to 39 of the linear congruential state `k + 1`
/// steps from `state`.
pub open spec fn fuzz_bytes(state: u64) -> Seq<u8> {
    Seq::new(
        (state % 512 + 1) as nat,
        |k: int| (lcg_state(state, (k + 1) as nat) >> 32u64) as u8,
    )
}

/// The generator state after `state`.
pub fn next_state(state: u64) -> (r: u64)
    ensures
        r == xorshift(state),
{
    let mut rng = state;
    rng = rng ^ (rng << 13u64);
    rng = rng ^ (rng >> 7u64);
    rng = rng ^ (rng << 17u64);
    rng
}

/// The input drawn from generator state `state`.
pub fn fuzz_buffer(state: u64) -> (buf: Vec<u8>)
    ensures
        buf@ == fuzz_bytes(state),
{
    let len: u64 = state % 512 + 1;
    let mut buf: Vec<u8> = Vec::new();
    let mut s: u64 = state;
    let mut k: u64 = 0;
    while k < len
        invariant
            len == state % 512 + 1,
            k <= len,
            s == lcg_state(state, k as nat),
            buf@.len() == k,
            forall|j: int| 0 <= j < k ==> buf@[j] == (lcg_state(state, (j + 1) as nat) >> 32u64) as u8,
        decreases len - k,
    {
        s = s.wrapping_mul(6364136223846793005u64).wrapping_add(1u64);
        buf.push((s >> 32u64) as u8);
        k = k + 1;
    }
    proof {
        assert(buf@ == fuzz_bytes(state));
    }
    buf
}

/// The lowercase hexadecimal digit of `d`.
pub open spec fn hex_digit(d: u8) -> char {
    if d < 10 {
        ((d + 48) as u8) as char
    } else {
        ((d + 87) as u8) as char
    }
}

/// Two lowercase hexadecimal digits for each byte, in order.
pub open spec fn hex_text(b: Seq<u8>) -> Seq<char>
    decreases b.len(),
{
    if b.len() == 0 {
        Seq::empty()
    } else {
        hex_text(b.drop_last()) + seq![hex_digit(b.last() / 16), hex_digit(b.last() % 16)]
    }
}

fn hex_char(d: u8) -> (c: char)
    requires
        d < 16,
    ensures
        c == hex_digit(d),
{
    if d < 10 {
        (d + 48) as char
    } else {
        (d + 87) as char
    }
}

/// The bytes of `buf` as lowercase hexadecimal text.
pub fn hex(buf: &[u8]) -> (s: String)
    ensures
        s@ == hex_text(buf@),
{
    let mut out: Vec<char> = Vec::new();
    let mut i: usize = 0;
    while i < buf.len()
        invariant
            i <= buf@.len(),
            out@ == hex_text(buf@.take(i as int)),
        decreases buf@.len() - i,
    {
        let b = buf[i];
        proof {
            assert(buf@.take(i + 1).drop_last() == buf@.take(i as int));
        }
        out.push(hex_char(b / 16));
        out.push(hex_char(b % 16));
        i = i + 1;
    }
    proof {
        assert(buf@.take(buf@.len() as int) == buf@);
    }
    string_from_chars(out.as_slice())
}

} // verus!
