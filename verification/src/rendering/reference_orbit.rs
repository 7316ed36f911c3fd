//! Packing of the reference orbit into a texture for the GPU.
//!
//! The texture has one row; each orbit point takes four RGBA8 pixels:
//! - pixel 1: first four bytes of the real part
//! - pixel 2: last four bytes of the real part
//! - pixel 3: first four bytes of the imaginary part
//! - pixel 4: last four bytes of the imaginary part
//!
//! Each part is an `f64`, given here by its bits, in little-endian order.
use vstd::prelude::*;

verus! {

/// Byte `k` (0 = least significant) of `x`.
pub open spec fn le_byte(x: u64, k: int) -> u8 {
    ((x >> (8 * k) as u64) & 0xff) as u8
}

/// The eight bytes of `x`, least significant first.
pub open spec fn le_bytes(x: u64) -> Seq<u8> {
    Seq::new(8, |k: int| le_byte(x, k))
}

/// The `u64` whose little-endian bytes are `b0` to `b7`.
pub open spec fn from_le(b0: u8, b1: u8, b2: u8, b3: u8, b4: u8, b5: u8, b6: u8, b7: u8) -> u64 {
    (b0 as u64) | (b1 as u64) << 8 | (b2 as u64) << 16 | (b3 as u64) << 24
        | (b4 as u64) << 32 | (b5 as u64) << 40 | (b6 as u64) << 48 | (b7 as u64) << 56
}

/// The texture bytes of an orbit whose points have real parts with bits
/// `reals` and imaginary parts with bits `ims`.
pub open spec fn orbit_bytes(reals: Seq<u64>, ims: Seq<u64>) -> Seq<u8>
    decreases reals.len(),
{
    if reals.len() == 0 || ims.len() == 0 {
        Seq::empty()
    } else {
        orbit_bytes(reals.drop_last(), ims.drop_last()) + le_bytes(reals.last()) + le_bytes(ims.last())
    }
}

/// Appends the bytes of `x`, least significant first.
fn push_le_bytes(out: &mut Vec<u8>, x: u64)
    ensures
        final(out)@ == old(out)@ + le_bytes(x),
{
    let ghost before = out@;
    out.push((x & 0xff) as u8);
    out.push(((x >> 8) & 0xff) as u8);
    out.push(((x >> 16) & 0xff) as u8);
    out.push(((x >> 24) & 0xff) as u8);
    out.push(((x >> 32) & 0xff) as u8);
    out.push(((x >> 40) & 0xff) as u8);
    out.push(((x >> 48) & 0xff) as u8);
    out.push(((x >> 56) & 0xff) as u8);
    assert(x >> 0u64 == x) by (bit_vector);
    assert(out@ =~= before + le_bytes(x));
}

/// The texture of an orbit: its width in pixels (four per point) and its
/// RGBA8 bytes (see the module documentation for the layout).
pub struct OrbitTexture {
    pub width: u16,
    pub bytes: Vec<u8>,
}

/// Encodes the reference orbit whose points have real parts with bits
/// `reals` and imaginary parts with bits `ims` into a texture.
pub fn orbit_texture(reals: &Vec<u64>, ims: &Vec<u64>) -> (texture: OrbitTexture)
    requires
        reals.len() == ims.len(),
        4 * reals.len() <= u16::MAX,
    ensures
        texture.width == 4 * reals.len(),
        texture.bytes@ == orbit_bytes(reals@, ims@),
        texture.bytes.len() == 16 * reals.len(),
{
    let n = reals.len();
    let mut bytes: Vec<u8> = Vec::new();
    let mut i: usize = 0;
    while i < n
        invariant
            n == reals.len(),
            n == ims.len(),
            i <= n,
            bytes@ == orbit_bytes(reals@.take(i as int), ims@.take(i as int)),
            bytes.len() == 16 * i,
        decreases n - i,
    {
        proof {
            assert(reals@.take(i + 1).drop_last() =~= reals@.take(i as int));
            assert(ims@.take(i + 1).drop_last() =~= ims@.take(i as int));
        }
        push_le_bytes(&mut bytes, reals[i]);
        push_le_bytes(&mut bytes, ims[i]);
        i = i + 1;
    }
    proof {
        assert(reals@.take(n as int) =~= reals@);
        assert(ims@.take(n as int) =~= ims@);
    }
    OrbitTexture { width: (4 * n) as u16, bytes }
}

/// Point `i` of an orbit takes sixteen bytes from byte `16 * i`: the real
/// part's eight, then the imaginary part's.
pub proof fn lemma_orbit_bytes_layout(reals: Seq<u64>, ims: Seq<u64>, i: int, k: int)
    requires
        reals.len() == ims.len(),
        0 <= i < reals.len(),
        0 <= k < 8,
    ensures
        orbit_bytes(reals, ims).len() == 16 * reals.len(),
        orbit_bytes(reals, ims)[16 * i + k] == le_byte(reals[i], k),
        orbit_bytes(reals, ims)[16 * i + 8 + k] == le_byte(ims[i], k),
    decreases reals.len(),
{
    let n = reals.len();
    lemma_orbit_bytes_len(reals.drop_last(), ims.drop_last());
    if i < n - 1 {
        lemma_orbit_bytes_layout(reals.drop_last(), ims.drop_last(), i, k);
    }
}

proof fn lemma_orbit_bytes_len(reals: Seq<u64>, ims: Seq<u64>)
    requires
        reals.len() == ims.len(),
    ensures
        orbit_bytes(reals, ims).len() == 16 * reals.len(),
    decreases reals.len(),
{
    if reals.len() > 0 {
        lemma_orbit_bytes_len(reals.drop_last(), ims.drop_last());
    }
}

/// Reading a part's eight bytes back, least significant first, gives back
/// the part's bits: the packing loses nothing.
pub proof fn lemma_le_bytes_round_trip(x: u64)
    ensures
        from_le(le_byte(x, 0), le_byte(x, 1), le_byte(x, 2), le_byte(x, 3),
            le_byte(x, 4), le_byte(x, 5), le_byte(x, 6), le_byte(x, 7)) == x,
{
    assert(x >> 0u64 == x) by (bit_vector);
    let b0 = (x & 0xff) as u8;
    let b1 = ((x >> 8u64) & 0xff) as u8;
    let b2 = ((x >> 16u64) & 0xff) as u8;
    let b3 = ((x >> 24u64) & 0xff) as u8;
    let b4 = ((x >> 32u64) & 0xff) as u8;
    let b5 = ((x >> 40u64) & 0xff) as u8;
    let b6 = ((x >> 48u64) & 0xff) as u8;
    let b7 = ((x >> 56u64) & 0xff) as u8;
    assert((b0 as u64) | (b1 as u64) << 8 | (b2 as u64) << 16 | (b3 as u64) << 24
        | (b4 as u64) << 32 | (b5 as u64) << 40 | (b6 as u64) << 48 | (b7 as u64) << 56 == x) by (bit_vector)
        requires
            b0 == (x & 0xff) as u8,
            b1 == ((x >> 8u64) & 0xff) as u8,
            b2 == ((x >> 16u64) & 0xff) as u8,
            b3 == ((x >> 24u64) & 0xff) as u8,
            b4 == ((x >> 32u64) & 0xff) as u8,
            b5 == ((x >> 40u64) & 0xff) as u8,
            b6 == ((x >> 48u64) & 0xff) as u8,
            b7 == ((x >> 56u64) & 0xff) as u8;
}

} // verus!
