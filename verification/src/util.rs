//! Big-endian integers, zero-filled buffers and taking bytes off the front
//! of a vector.

use vstd::prelude::*;

verus! {

/// The number spelled by the first four bytes of `b`, most significant first.
pub open spec fn be_value(b: Seq<u8>) -> nat
    recommends
        b.len() >= 4,
{
    (b[0] as nat) * 0x100_0000 + (b[1] as nat) * 0x1_0000 + (b[2] as nat) * 0x100 + (b[3] as nat)
}

/// The four bytes that spell `n`, most significant first.
pub open spec fn be_bytes(n: u32) -> Seq<u8> {
    seq![
        (n / 0x100_0000) as u8,
        (n / 0x1_0000 % 0x100) as u8,
        (n / 0x100 % 0x100) as u8,
        (n % 0x100) as u8,
    ]
}

/// A sequence of `len` zero bytes.
pub open spec fn zeros(len: nat) -> Seq<u8> {
    Seq::new(len, |i: int| 0u8)
}

proof fn lemma_join_bytes(a: u8, b: u8, c: u8, d: u8)
    ensures
        ((a as u32) << 24 | (b as u32) << 16 | (c as u32) << 8 | (d as u32)) == (a as nat)
            * 0x100_0000 + (b as nat) * 0x1_0000 + (c as nat) * 0x100 + (d as nat),
{
    assert(((a as u32) << 24 | (b as u32) << 16 | (c as u32) << 8 | (d as u32)) == (a as u32)
        * 0x100_0000 + (b as u32) * 0x1_0000 + (c as u32) * 0x100 + (d as u32)) by (bit_vector);
}

proof fn lemma_split_bytes(n: u32)
    ensures
        (n >> 24) == n / 0x100_0000,
        (n >> 24) < 0x100,
        ((n >> 16) & 0xff) == n / 0x1_0000 % 0x100,
        ((n >> 8) & 0xff) == n / 0x100 % 0x100,
        (n & 0xff) == n % 0x100,
{
    assert((n >> 24) == n / 0x100_0000) by (bit_vector);
    assert((n >> 24) < 0x100) by (bit_vector);
    assert(((n >> 16) & 0xff) == n / 0x1_0000 % 0x100) by (bit_vector);
    assert(((n >> 8) & 0xff) == n / 0x100 % 0x100) by (bit_vector);
    assert((n & 0xff) == n % 0x100) by (bit_vector);
}

/// Reading back the bytes that spell `n` gives `n`.
pub proof fn lemma_be_value_of_be_bytes(n: u32)
    ensures
        be_value(be_bytes(n)) == n,
{
    let b = be_bytes(n);
    lemma_split_bytes(n);
    lemma_join_bytes(b[0], b[1], b[2], b[3]);
    assert(((n >> 24) << 24 | ((n >> 16) & 0xff) << 16 | ((n >> 8) & 0xff) << 8 | (n & 0xff)) == n)
        by (bit_vector);
}

proof fn lemma_join_then_split(a: u8, b: u8, c: u8, d: u8)
    ensures
        ({
            let n = (a as u32) << 24 | (b as u32) << 16 | (c as u32) << 8 | (d as u32);
            &&& (n >> 24) == a
            &&& ((n >> 16) & 0xff) == b
            &&& ((n >> 8) & 0xff) == c
            &&& (n & 0xff) == d
        }),
{
    let n = (a as u32) << 24 | (b as u32) << 16 | (c as u32) << 8 | (d as u32);
    assert((n >> 24) == a) by (bit_vector)
        requires
            n == (a as u32) << 24 | (b as u32) << 16 | (c as u32) << 8 | (d as u32),
    ;
    assert(((n >> 16) & 0xff) == b) by (bit_vector)
        requires
            n == (a as u32) << 24 | (b as u32) << 16 | (c as u32) << 8 | (d as u32),
    ;
    assert(((n >> 8) & 0xff) == c) by (bit_vector)
        requires
            n == (a as u32) << 24 | (b as u32) << 16 | (c as u32) << 8 | (d as u32),
    ;
    assert((n & 0xff) == d) by (bit_vector)
        requires
            n == (a as u32) << 24 | (b as u32) << 16 | (c as u32) << 8 | (d as u32),
    ;
}

/// Spelling the number read from four bytes gives those bytes back.
pub proof fn lemma_be_bytes_of_be_value(b: Seq<u8>)
    requires
        b.len() == 4,
    ensures
        be_value(b) <= u32::MAX,
        be_bytes(be_value(b) as u32) == b,
{
    let n = (b[0] as u32) << 24 | (b[1] as u32) << 16 | (b[2] as u32) << 8 | (b[3] as u32);
    lemma_join_bytes(b[0], b[1], b[2], b[3]);
    lemma_join_then_split(b[0], b[1], b[2], b[3]);
    lemma_split_bytes(n);
    assert(be_value(b) == n);
    assert(be_bytes(n) =~= b);
}

/// Reads four bytes as a big-endian number.
pub fn array_as_u32(array: &[u8; 4]) -> (n: u32)
    ensures
        n == be_value(array@),
{
    proof {
        lemma_join_bytes(array[0], array[1], array[2], array[3]);
    }
    (array[0] as u32) << 24 | (array[1] as u32) << 16 | (array[2] as u32) << 8 | (array[3] as u32)
}

/// Reads the first four bytes of a slice as a big-endian number.
pub fn vec_as_u32(array: &[u8]) -> (n: u32)
    requires
        array.len() >= 4,
    ensures
        n == be_value(array@),
{
    proof {
        lemma_join_bytes(array[0], array[1], array[2], array[3]);
    }
    (array[0] as u32) << 24 | (array[1] as u32) << 16 | (array[2] as u32) << 8 | (array[3] as u32)
}

/// Spells `n` as four bytes, most significant first.
pub fn u32_as_vec(n: u32) -> (arr: Vec<u8>)
    ensures
        arr@ == be_bytes(n),
{
    proof {
        lemma_split_bytes(n);
    }
    let mut arr: Vec<u8> = Vec::with_capacity(4);
    arr.push((n >> 24) as u8);
    arr.push(((n >> 16) & 0xff) as u8);
    arr.push(((n >> 8) & 0xff) as u8);
    arr.push((n & 0xff) as u8);
    assert(arr@ =~= be_bytes(n));
    arr
}

/// Overwrites the first four bytes of `dest` with the big-endian spelling
/// of `n` and leaves the rest as it was.
pub fn u32_into_vec(dest: &mut Vec<u8>, n: u32)
    requires
        old(dest).len() >= 4,
    ensures
        final(dest)@ == be_bytes(n) + old(dest)@.skip(4),
{
    proof {
        lemma_split_bytes(n);
    }
    dest[0] = (n >> 24) as u8;
    dest[1] = ((n >> 16) & 0xff) as u8;
    dest[2] = ((n >> 8) & 0xff) as u8;
    dest[3] = (n & 0xff) as u8;
    assert(dest@ =~= be_bytes(n) + old(dest)@.skip(4));
}

/// Returns a vector of `len` zero bytes.
pub fn zeroed(len: usize) -> (v: Vec<u8>)
    ensures
        v@ == zeros(len as nat),
{
    let mut v: Vec<u8> = Vec::new();
    v.resize(len, 0u8);
    assert(v@ =~= zeros(len as nat));
    v
}

/// Pads `v` with zero bytes up to `length`.
pub fn fill_to(v: Vec<u8>, length: usize) -> (vm: Vec<u8>)
    requires
        v.len() <= length,
    ensures
        vm@ == v@ + zeros((length - v.len()) as nat),
{
    let mut vm = v;
    let len: usize = vm.len();
    let mut pad = zeroed(length - len);
    vm.append(&mut pad);
    vm
}

/// Taking items off the front of a sequence container.
pub trait VecExt: Sized {
    /// The type of the items held.
    type Item;

    /// The items held, in their order.
    spec fn items(&self) -> Seq<Self::Item>;

    /// Removes the first `n` items and returns them in a container of
    /// their own; the others stay, in their order.
    fn chew(&mut self, n: usize) -> (head: Self)
        requires
            n <= old(self).items().len(),
        ensures
            head.items() == old(self).items().take(n as int),
            final(self).items() == old(self).items().skip(n as int),
    ;
}

impl<T: Clone> VecExt for Vec<T> {
    type Item = T;

    open spec fn items(&self) -> Seq<T> {
        self@
    }

    fn chew(&mut self, n: usize) -> (head: Self) {
        let mut rest = self.split_off(n);
        std::mem::swap(self, &mut rest);
        rest
    }
}

} // verus!
