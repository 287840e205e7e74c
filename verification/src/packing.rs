//! Nibble packing for the wire format.
//!
//! The panel takes two 4-bit palette indices per byte: the first pixel of a
//! pair lands in the high nibble, the second in the low nibble. An odd
//! trailing pixel occupies the high nibble of a final byte whose low nibble
//! is zero.

use vstd::prelude::*;

use vstd::arithmetic::div_mod::lemma_fundamental_div_mod;
use vstd::arithmetic::div_mod::lemma_fundamental_div_mod_converse;

verus! {

/// The packed form of a pixel stream: byte `j` carries pixels `2j` (high
/// nibble) and `2j + 1` (low nibble, zero when absent).
pub open spec fn pack_spec(pixels: Seq<u8>) -> Seq<u8> {
    Seq::new(
        (pixels.len() + 1) / 2,
        |j: int|
            if 2 * j + 1 < pixels.len() {
                (pixels[2 * j] << 4) | (pixels[2 * j + 1] & 0xF)
            } else {
                pixels[2 * j] << 4
            },
    )
}

/// The nibble stream a packed byte sequence carries: each byte yields its
/// high nibble and then its low nibble.
pub open spec fn unpack_spec(packed: Seq<u8>) -> Seq<u8> {
    Seq::new(
        2 * packed.len(),
        |i: int|
            if i % 2 == 0 {
                packed[i / 2] >> 4
            } else {
                packed[i / 2] & 0xF
            },
    )
}

/// Pack a pixel stream at two pixels per byte, high nibble first.
pub fn pack_pixels(pixels: &[u8]) -> (r: Vec<u8>)
    ensures
        r@ == pack_spec(pixels@),
{
    let len: usize = pixels.len();
    let mut packed: Vec<u8> = Vec::new();
    let mut i: usize = 0;
    let ghost mut out: int = 0;
    while i + 1 < len
        invariant
            len == pixels@.len(),
            i == 2 * out,
            0 <= i <= len,
            packed@.len() == out,
            forall|j: int| 0 <= j < out ==> packed@[j] == pack_spec(pixels@)[j],
        decreases len - i,
    {
        proof {
            assert(2 * out + 1 < pixels@.len());
        }
        let b: u8 = (pixels[i] << 4) | (pixels[i + 1] & 0x0F);
        packed.push(b);
        i = i + 2;
        proof {
            out = out + 1;
        }
    }
    if i < len {
        let b: u8 = pixels[i] << 4;
        packed.push(b);
        proof {
            assert(2 * out + 1 == pixels@.len());
            out = out + 1;
        }
    }
    proof {
        lemma_fundamental_div_mod_converse(
            pixels@.len() as int + 1,
            2,
            out,
            (pixels@.len() as int + 1) - 2 * out,
        );
        assert(packed@ =~= pack_spec(pixels@));
    }
    packed
}

/// Unpack a packed byte sequence back into its nibble stream.
pub fn unpack_pixels(packed: &[u8]) -> (r: Vec<u8>)
    ensures
        r@ == unpack_spec(packed@),
{
    let len: usize = packed.len();
    let mut pixels: Vec<u8> = Vec::new();
    let mut j: usize = 0;
    while j < len
        invariant
            len == packed@.len(),
            0 <= j <= len,
            pixels@.len() == 2 * j,
            forall|i: int| 0 <= i < 2 * j ==> pixels@[i] == unpack_spec(packed@)[i],
        decreases len - j,
    {
        let b: u8 = packed[j];
        pixels.push(b >> 4);
        pixels.push(b & 0x0F);
        proof {
            lemma_fundamental_div_mod_converse(2 * (j as int), 2, j as int, 0);
            lemma_fundamental_div_mod_converse(2 * (j as int) + 1, 2, j as int, 1);
        }
        j = j + 1;
    }
    proof {
        assert(pixels@ =~= unpack_spec(packed@));
    }
    pixels
}

/// Packing then unpacking an even-length stream of nibble-sized values
/// reproduces the original stream exactly.
pub proof fn lemma_pack_unpack_roundtrip(pixels: Seq<u8>)
    requires
        pixels.len() % 2 == 0,
        forall|i: int| 0 <= i < pixels.len() ==> pixels[i] < 16,
    ensures
        unpack_spec(pack_spec(pixels)) == pixels,
{
    let n = pixels.len() as int;
    let p = pack_spec(pixels);
    lemma_fundamental_div_mod_converse(n + 1, 2, n / 2, 1);
    assert(p.len() == n / 2);
    assert forall|i: int| 0 <= i < n implies unpack_spec(p)[i] == pixels[i] by {
        lemma_fundamental_div_mod(i, 2);
        let j = i / 2;
        assert(0 <= j && 2 * j <= i < n);
        assert(j < n / 2) by (nonlinear_arith)
            requires
                2 * j <= i < n,
                n % 2 == 0,
                n == 2 * (n / 2) + n % 2,
        ;
        let a = pixels[2 * j];
        let b = pixels[2 * j + 1];
        assert(2 * j + 1 < n) by (nonlinear_arith)
            requires
                j < n / 2,
                n == 2 * (n / 2) + n % 2,
                n % 2 == 0,
        ;
        assert(p[j] == (a << 4) | (b & 0xF));
        assert(a < 16 && b < 16);
        assert(((a << 4) | (b & 0xF)) >> 4 == a && ((a << 4) | (b & 0xF)) & 0xF == b)
            by (bit_vector)
            requires
                a < 16,
                b < 16,
        ;
        if i % 2 == 0 {
            assert(i == 2 * j);
            assert(unpack_spec(p)[i] == p[j] >> 4);
        } else {
            assert(i == 2 * j + 1);
            assert(unpack_spec(p)[i] == p[j] & 0xF);
        }
    }
    assert(unpack_spec(p) =~= pixels);
}

/// Packing an even-length stream of one repeated nibble-sized value yields
/// the byte that carries that value in both nibbles, repeated.
pub proof fn lemma_pack_uniform(pixels: Seq<u8>, c: u8)
    requires
        c < 16,
        pixels.len() % 2 == 0,
        forall|i: int| 0 <= i < pixels.len() ==> pixels[i] == c,
    ensures
        pack_spec(pixels).len() == pixels.len() / 2,
        forall|j: int|
            0 <= j < pack_spec(pixels).len() ==> pack_spec(pixels)[j] == ((c << 4) | c),
{
    let n = pixels.len() as int;
    lemma_fundamental_div_mod(n, 2);
    lemma_fundamental_div_mod_converse(n + 1, 2, n / 2, 1);
    assert(pack_spec(pixels).len() == n / 2);
    assert(((c << 4) | (c & 0xF)) == ((c << 4) | c)) by (bit_vector)
        requires
            c < 16,
    ;
    assert forall|j: int| 0 <= j < n / 2 implies pack_spec(pixels)[j] == ((c << 4) | c) by {
        assert(2 * j + 1 < n) by (nonlinear_arith)
            requires
                0 <= j < n / 2,
                n == 2 * (n / 2) + n % 2,
                n % 2 == 0,
        ;
    }
}

/// Packing an odd-length stream leaves the final byte with the last pixel in
/// its high nibble and a zero low nibble.
pub proof fn lemma_pack_odd_tail(pixels: Seq<u8>)
    requires
        pixels.len() % 2 == 1,
    ensures
        pack_spec(pixels).len() == (pixels.len() + 1) / 2,
        pack_spec(pixels).last() == pixels.last() << 4,
        pack_spec(pixels).last() & 0xF == 0,
{
    let n = pixels.len() as int;
    lemma_fundamental_div_mod(n, 2);
    let j = (n + 1) / 2 - 1;
    lemma_fundamental_div_mod_converse(n + 1, 2, (n - 1) / 2 + 1, 0);
    lemma_fundamental_div_mod_converse(n - 1, 2, (n - 1) / 2, 0);
    assert(2 * j + 1 == n);
    assert(pack_spec(pixels).last() == pixels[2 * j] << 4);
    let a = pixels.last();
    assert((a << 4) & 0xF == 0) by (bit_vector);
}

} // verus!
