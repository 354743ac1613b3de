//! The trivial hash for `usize` keys.
//!
//! An index is already a well-spread integer, so the best hash of its raw
//! value is that value. [`HashUsize`] keeps the bytes it is fed and gives
//! them back as one integer, read little-endian.
//!
//! The hasher is meant for `usize` keys and nothing else. [`HashUsize::write`]
//! takes exactly [`USIZE_BYTES`] bytes, and [`HashUsize::test_bytes`] is the
//! check of that width: verified callers have to show the width to both.
//! Code that is not verified and feeds another width gets no such
//! protection, and no notice either: of too few bytes, those that are there
//! replace the first ones stored and the rest stays; bytes beyond the width
//! are dropped. What `finish` then gives is no hash of what was fed. That is
//! a known and accepted risk of this hasher, the price of doing no work per
//! key. [`HashUsize::has_width`] tells beforehand whether bytes have the
//! width.

use vstd::prelude::*;
use core::hash::BuildHasher;
use core::hash::Hash;
use core::hash::Hasher;

verus! {

/// Number of bytes in a `usize`: 4 or 8.
pub const USIZE_BYTES: usize = (usize::BITS / 8) as usize;

/// `256` to the power `n`.
pub open spec fn pow256(n: nat) -> nat
    decreases n,
{
    if n == 0 {
        1
    } else {
        256 * pow256((n - 1) as nat)
    }
}

/// The integer that `bytes` spell, least significant byte first.
pub open spec fn le_value(bytes: Seq<u8>) -> nat
    decreases bytes.len(),
{
    if bytes.len() == 0 {
        0
    } else {
        bytes[0] as nat + 256 * le_value(bytes.drop_first())
    }
}

/// The `len` least significant bytes of `n`, least significant byte first.
pub open spec fn le_bytes(n: nat, len: nat) -> Seq<u8>
    decreases len,
{
    if len == 0 {
        Seq::empty()
    } else {
        seq![(n % 256) as u8] + le_bytes(n / 256, (len - 1) as nat)
    }
}

/// Up to eight bytes fit in a `u64`.
proof fn lemma_pow256_fits(n: nat)
    requires
        n <= 8,
    ensures
        0 < pow256(n) <= 0x1_0000_0000_0000_0000,
{
    reveal_with_fuel(pow256, 9);
}

/// The bytes of a `usize` are exactly enough to spell every `usize`.
proof fn lemma_usize_fits(n: usize)
    ensures
        n < pow256(USIZE_BYTES as nat),
{
    reveal_with_fuel(pow256, 9);
    assert(usize::BITS == 32 || usize::BITS == 64);
}

/// `len` bytes spell an integer below `256` to the power `len`.
proof fn lemma_le_value_bound(bytes: Seq<u8>)
    ensures
        le_value(bytes) < pow256(bytes.len()),
    decreases bytes.len(),
{
    if bytes.len() > 0 {
        lemma_le_value_bound(bytes.drop_first());
    }
}

/// `le_bytes` gives as many bytes as it is asked for.
proof fn lemma_le_bytes_len(n: nat, len: nat)
    ensures
        le_bytes(n, len).len() == len,
    decreases len,
{
    if len > 0 {
        lemma_le_bytes_len(n / 256, (len - 1) as nat);
    }
}

/// The bytes of an integer that fits in them spell that integer.
pub proof fn lemma_le_value_of_le_bytes(n: nat, len: nat)
    requires
        n < pow256(len),
    ensures
        le_value(le_bytes(n, len)) == n,
    decreases len,
{
    if len > 0 {
        let rest = le_bytes(n / 256, (len - 1) as nat);
        lemma_le_value_of_le_bytes(n / 256, (len - 1) as nat);
        assert(le_bytes(n, len).drop_first() =~= rest);
        assert(le_bytes(n, len)[0] == (n % 256) as u8);
    }
}

/// The hash is the identity: a hasher that has been fed the bytes of a
/// `usize`, which are as many as it takes, gives that `usize` back.
pub proof fn lemma_hash_is_identity(n: usize)
    ensures
        le_bytes(n as nat, USIZE_BYTES as nat).len() == USIZE_BYTES,
        le_value(le_bytes(n as nat, USIZE_BYTES as nat)) == n,
{
    lemma_le_bytes_len(n as nat, USIZE_BYTES as nat);
    lemma_usize_fits(n);
    lemma_le_value_of_le_bytes(n as nat, USIZE_BYTES as nat);
}

/// Trivial hasher for `usize`. **This hasher is only for hashing `usize`s.**
pub struct HashUsize {
    /// Room for the widest `usize`; the first `USIZE_BYTES` bytes are in use.
    buf: [u8; 8],
}

impl View for HashUsize {
    type V = Seq<u8>;

    /// The bytes of the last write, or zeros before the first one.
    closed spec fn view(&self) -> Seq<u8> {
        self.buf@.subrange(0, USIZE_BYTES as int)
    }
}

impl HashUsize {
    /// A hasher always holds as many bytes as a `usize` has.
    pub proof fn lemma_width(&self)
        ensures
            self@.len() == USIZE_BYTES,
    {
    }

    /// Checks that a slice of bytes has the length of a `usize`. The check
    /// is made where the call is verified and costs nothing where it runs:
    /// no other length gets here from verified code.
    pub fn test_bytes(bytes: &[u8])
        requires
            bytes@.len() == USIZE_BYTES,
    {
    }

    /// Says whether `bytes` has the length of a `usize`, which is what
    /// [`HashUsize::test_bytes`] and [`HashUsize::write`] ask for.
    pub fn has_width(bytes: &[u8]) -> (ok: bool)
        ensures
            ok == (bytes@.len() == USIZE_BYTES),
    {
        bytes.len() == USIZE_BYTES
    }
}

impl Hasher for HashUsize {
    /// The stored bytes as one integer, least significant byte first.
    fn finish(&self) -> (r: u64)
        ensures
            r == le_value(self@),
    {
        let mut acc: u64 = 0;
        let mut n: usize = USIZE_BYTES;
        assert(self.buf@.subrange(n as int, USIZE_BYTES as int) =~= Seq::<u8>::empty());
        while n > 0
            invariant
                n <= USIZE_BYTES <= 8,
                acc == le_value(self.buf@.subrange(n as int, USIZE_BYTES as int)),
            decreases n,
        {
            let ghost tail = self.buf@.subrange(n as int, USIZE_BYTES as int);
            let ghost next = self.buf@.subrange(n - 1, USIZE_BYTES as int);
            proof {
                assert(next.drop_first() =~= tail);
                lemma_le_value_bound(next);
                lemma_pow256_fits(next.len());
            }
            n = n - 1;
            acc = acc * 256 + self.buf[n] as u64;
        }
        acc
    }

    /// Stores `bytes`, which replace what was stored before. Callers that
    /// are verified show the width. For the others the copy stops at the
    /// shorter of the two widths, so that no slice stops the program.
    fn write(&mut self, bytes: &[u8])
        requires
            bytes@.len() == USIZE_BYTES,
        ensures
            final(self)@ == bytes@,
    {
        Self::test_bytes(bytes);
        let mut n: usize = 0;
        while n < USIZE_BYTES && n < bytes.len()
            invariant
                n <= USIZE_BYTES,
                bytes@.len() == USIZE_BYTES <= 8,
                forall|i: int| 0 <= i < n ==> self.buf@[i] == bytes@[i],
            decreases USIZE_BYTES - n,
        {
            self.buf[n] = bytes[n];
            n = n + 1;
        }
        assert(self@ =~= bytes@);
    }
}

/// `Hash::hash`: feeds `value` to `state`. What a value feeds is the business
/// of its type, and what a hasher makes of it is the business of the hasher:
/// nothing is said of either. The hasher of this library takes what is fed
/// to it at any width without stopping.
#[verifier::external_body]
pub(crate) fn hash_into<V: Hash, H: Hasher>(value: &V, state: &mut H) {
    value.hash(state)
}

/// `Hasher::write_usize`: feeds `n` to `state`. Nothing is said of what the
/// hasher makes of it.
#[verifier::external_body]
pub(crate) fn write_usize_into<H: Hasher>(state: &mut H, n: usize) {
    state.write_usize(n)
}

/// Empty struct used to build `HashUsize`.
#[derive(Clone)]
pub struct BuildHashUsize {}

impl BuildHasher for BuildHashUsize {
    type Hasher = HashUsize;

    /// A hasher that holds zeros.
    fn build_hasher(&self) -> (h: HashUsize)
        ensures
            h@ == Seq::new(USIZE_BYTES as nat, |i: int| 0u8),
    {
        let h = HashUsize { buf: [0;8] };
        assert(h@ =~= Seq::new(USIZE_BYTES as nat, |i: int| 0u8));
        h
    }
}

impl Default for BuildHashUsize {
    fn default() -> (b: Self)
        ensures
            b == (BuildHashUsize {}),
    {
        BuildHashUsize {}
    }
}

} // verus!
