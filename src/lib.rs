//! KangarooTwelve, the tree-hashing extendable-output function built on
//! TurboSHAKE128, with its chunking and final-node assembly verified.
pub mod encoding;
pub mod laws;

use digest::{ExtendableOutput, Update};
use vstd::prelude::*;
use vstd::slice::slice_subrange;
use crate::encoding::{right_encode, right_encode_spec};

verus! {

/// Size of every chunk but the last.
pub const CHUNK_LEN: usize = 8192;

/// Size of a chaining value.
pub const CV_LEN: usize = 32;

/// Domain byte of a message that fits in one chunk.
pub const SINGLE_NODE_DOMAIN: u8 = 0x07;

/// Domain byte of a trailing chunk hashed into a chaining value.
pub const LEAF_DOMAIN: u8 = 0x0B;

/// Domain byte of the final node of a tree.
pub const FINAL_NODE_DOMAIN: u8 = 0x06;

/// Byte `index` of the TurboSHAKE128 output stream of `input` under `domain`.
pub uninterp spec fn turbo_shake128_byte(domain: u8, input: Seq<u8>, index: int) -> u8;

/// The first `len` bytes of the TurboSHAKE128 output stream.
pub open spec fn turbo_shake128(domain: u8, input: Seq<u8>, len: nat) -> Seq<u8> {
    Seq::new(len, |i: int| turbo_shake128_byte(domain, input, i))
}

/// Relies on sha3::TurboShake128 (`TurboShake128Core::new`, `update`,
/// `finalize_xof_into`): fills `output` with the first bytes of the output
/// stream of `input` under `domain`, a stream that depends on those two alone.
/// `TurboShake128Core::new` asserts that `domain` lies in `0x01..=0x7F`.
#[verifier::external_body]
fn turbo_shake128_into(domain: u8, input: &[u8], output: &mut [u8])
    requires
        0x01 <= domain <= 0x7f,
    ensures
        final(output)@ == Seq::new(
            old(output)@.len(),
            |i: int| turbo_shake128_byte(domain, input@, i),
        ),
{
    let mut hasher = sha3::TurboShake128::from_core(sha3::TurboShake128Core::new(domain));
    hasher.update(input);
    hasher.finalize_xof_into(output);
}

/// The eight bytes between chunk 0 and the chaining values in a final node.
pub open spec fn final_node_pre() -> Seq<u8> {
    seq![3u8, 0u8, 0u8, 0u8, 0u8, 0u8, 0u8, 0u8]
}

/// The two bytes that close a final node.
pub open spec fn final_node_post() -> Seq<u8> {
    seq![0xffu8, 0xffu8]
}

/// The string that is cut into chunks: message, customization, and the
/// customization's length.
pub open spec fn tree_input(message: Seq<u8>, customization: Seq<u8>) -> Seq<u8> {
    message + customization + right_encode_spec(customization.len())
}

/// Number of chunks of a string of `len` bytes: at least one, even when empty.
pub open spec fn chunk_count(len: nat) -> nat {
    if len == 0 {
        1
    } else {
        ((len - 1) as nat / CHUNK_LEN as nat + 1) as nat
    }
}

/// Chunk `i` of `s`: `CHUNK_LEN` bytes, fewer at the end.
pub open spec fn chunk(s: Seq<u8>, i: nat) -> Seq<u8> {
    let start = i * CHUNK_LEN as nat;
    let end = if s.len() < start + CHUNK_LEN as nat { s.len() } else { start + CHUNK_LEN as nat };
    s.subrange(start as int, end as int)
}

/// The chaining values of chunks `1..=k` of `s`, concatenated in order.
pub open spec fn chaining_values(s: Seq<u8>, k: nat) -> Seq<u8>
    decreases k,
{
    if k == 0 {
        Seq::empty()
    } else {
        chaining_values(s, (k - 1) as nat) + turbo_shake128(
            LEAF_DOMAIN,
            chunk(s, k),
            CV_LEN as nat,
        )
    }
}

/// The final node of a tree over `s`, whose chunks after the first number `k`.
pub open spec fn final_node(s: Seq<u8>, k: nat) -> Seq<u8> {
    chunk(s, 0) + final_node_pre() + chaining_values(s, k) + right_encode_spec(k)
        + final_node_post()
}

/// The first `len` bytes of KangarooTwelve of `message` under `customization`.
pub open spec fn k12_output(message: Seq<u8>, customization: Seq<u8>, len: nat) -> Seq<u8> {
    let s = tree_input(message, customization);
    let n = chunk_count(s.len());
    if n == 1 {
        turbo_shake128(SINGLE_NODE_DOMAIN, s, len)
    } else {
        turbo_shake128(FINAL_NODE_DOMAIN, final_node(s, (n - 1) as nat), len)
    }
}

/// The KangarooTwelve extendable-output function: absorbs a message under a
/// fixed customization string.
pub struct KangarooTwelve {
    buffer: Vec<u8>,
    customization: Vec<u8>,
}

impl KangarooTwelve {
    /// The bytes absorbed so far.
    pub closed spec fn message(&self) -> Seq<u8> {
        self.buffer@
    }

    /// The customization string.
    pub closed spec fn customization(&self) -> Seq<u8> {
        self.customization@
    }

    /// A new instance with an empty customization.
    pub fn new() -> (r: Self)
        ensures
            r.message() == Seq::<u8>::empty(),
            r.customization() == Seq::<u8>::empty(),
    {
        KangarooTwelve { buffer: Vec::new(), customization: Vec::new() }
    }

    /// A new instance with the given customization.
    pub fn new_with_customization(customization: &[u8]) -> (r: Self)
        ensures
            r.message() == Seq::<u8>::empty(),
            r.customization() == customization@,
    {
        let mut c: Vec<u8> = Vec::new();
        append(&mut c, customization);
        KangarooTwelve { buffer: Vec::new(), customization: c }
    }

    /// Absorbs `bytes` after what came before.
    pub fn update(&mut self, bytes: &[u8])
        ensures
            final(self).message() == old(self).message() + bytes@,
            final(self).customization() == old(self).customization(),
    {
        append(&mut self.buffer, bytes);
    }

    /// Forgets the message absorbed so far and keeps the customization.
    pub fn reset(&mut self)
        ensures
            final(self).message() == Seq::<u8>::empty(),
            final(self).customization() == old(self).customization(),
    {
        self.buffer.clear();
    }

    /// Ends absorption: the reader holds the message and the customization.
    pub fn finalize_xof(self) -> (r: Reader)
        ensures
            r.message() == self.message(),
            r.customization() == self.customization(),
            !r.is_finished(),
    {
        Reader { buffer: self.buffer, customization: self.customization, finished: false }
    }

    /// Ends absorption and leaves this instance with an empty message and the
    /// same customization, ready for another message.
    pub fn finalize_xof_reset(&mut self) -> (r: Reader)
        ensures
            r.message() == old(self).message(),
            r.customization() == old(self).customization(),
            !r.is_finished(),
            final(self).message() == Seq::<u8>::empty(),
            final(self).customization() == old(self).customization(),
    {
        let mut buffer: Vec<u8> = Vec::new();
        std::mem::swap(&mut self.buffer, &mut buffer);
        let mut customization: Vec<u8> = Vec::new();
        append(&mut customization, self.customization.as_slice());
        Reader { buffer, customization, finished: false }
    }
}

/// Output side of KangarooTwelve: yields its output once.
pub struct Reader {
    buffer: Vec<u8>,
    customization: Vec<u8>,
    finished: bool,
}

impl Reader {
    /// The message to hash.
    pub closed spec fn message(&self) -> Seq<u8> {
        self.buffer@
    }

    /// The customization string.
    pub closed spec fn customization(&self) -> Seq<u8> {
        self.customization@
    }

    /// Whether the output has been read.
    pub closed spec fn is_finished(&self) -> bool {
        self.finished
    }

    /// Whether `read` may still be called: only before the output was read.
    pub open spec fn can_read(&self) -> bool {
        !self.is_finished()
    }

    /// Whether the output has been read; a second read is not allowed.
    pub fn finished(&self) -> (r: bool)
        ensures
            r == self.is_finished(),
    {
        self.finished
    }

    /// Fills `output` with the first `output.len()` bytes of KangarooTwelve.
    /// It may be called once only: afterwards the reader no longer admits it.
    pub fn read(&mut self, output: &mut [u8])
        requires
            old(self).can_read(),
        ensures
            final(self).is_finished(),
            !final(self).can_read(),
            final(self).message() == old(self).message(),
            final(self).customization() == old(self).customization(),
            final(output)@ == k12_output(
                old(self).message(),
                old(self).customization(),
                old(output)@.len() as nat,
            ),
    {
        self.finished = true;
        let mut s: Vec<u8> = Vec::new();
        append(&mut s, self.buffer.as_slice());
        append(&mut s, self.customization.as_slice());
        let encoded_len = right_encode(self.customization.len());
        append(&mut s, encoded_len.as_slice());
        assert(s@ == tree_input(self.buffer@, self.customization@));
        let n = chunk_total(s.len());
        if n == 1 {
            turbo_shake128_into(SINGLE_NODE_DOMAIN, s.as_slice(), output);
        } else {
            let node = build_final_node(s.as_slice(), n);
            turbo_shake128_into(FINAL_NODE_DOMAIN, node.as_slice(), output);
        }
    }
}

fn chunk_total(len: usize) -> (r: usize)
    ensures
        r as nat == chunk_count(len as nat),
{
    if len == 0 {
        1
    } else {
        (len - 1) / CHUNK_LEN + 1
    }
}

/// Hashes every chunk after the first into its chaining value and assembles
/// the final node.
fn build_final_node(s: &[u8], n: usize) -> (r: Vec<u8>)
    requires
        n == chunk_count(s@.len()),
        n > 1,
    ensures
        r@ == final_node(s@, (n - 1) as nat),
{
    let mut node: Vec<u8> = Vec::new();
    append(&mut node, slice_subrange(s, 0, CHUNK_LEN));
    assert(s@.subrange(0, CHUNK_LEN as int) == chunk(s@, 0));
    node.push(3u8);
    let mut z: usize = 0;
    while z < 7
        invariant
            z <= 7,
            node@ == chunk(s@, 0) + seq![3u8] + Seq::new(z as nat, |j: int| 0u8),
        decreases 7 - z,
    {
        node.push(0u8);
        z += 1;
        assert(node@ == chunk(s@, 0) + seq![3u8] + Seq::new(z as nat, |j: int| 0u8));
    }
    assert(seq![3u8] + Seq::new(7, |j: int| 0u8) =~= final_node_pre());
    assert(node@ == chunk(s@, 0) + final_node_pre() + chaining_values(s@, 0));
    let mut i: usize = 1;
    while i < n
        invariant
            1 <= i <= n,
            n == chunk_count(s@.len()),
            node@ == chunk(s@, 0) + final_node_pre() + chaining_values(s@, (i - 1) as nat),
        decreases n - i,
    {
        let len = s.len();
        assert(i * CHUNK_LEN < len) by (nonlinear_arith)
            requires
                i < n,
                len == s@.len(),
                n == (len - 1) / (CHUNK_LEN as int) + 1,
                len > 0,
                CHUNK_LEN == 8192,
        {};
        let start = i * CHUNK_LEN;
        let end = if s.len() - start > CHUNK_LEN { start + CHUNK_LEN } else { s.len() };
        let piece = slice_subrange(s, start, end);
        assert(piece@ == chunk(s@, i as nat));
        let mut cv: Vec<u8> = vec![0u8; CV_LEN];
        turbo_shake128_into(LEAF_DOMAIN, piece, cv.as_mut_slice());
        append(&mut node, cv.as_slice());
        i += 1;
        assert(node@ == chunk(s@, 0) + final_node_pre() + chaining_values(s@, (i - 1) as nat));
    }
    let count = right_encode(n - 1);
    append(&mut node, count.as_slice());
    node.push(0xffu8);
    node.push(0xffu8);
    assert(node@ =~= final_node(s@, (n - 1) as nat));
    node
}

fn append(dst: &mut Vec<u8>, src: &[u8])
    ensures
        final(dst)@ == old(dst)@ + src@,
{
    let mut i: usize = 0;
    while i < src.len()
        invariant
            i <= src@.len(),
            dst@ == old(dst)@ + src@.subrange(0, i as int),
        decreases src@.len() - i,
    {
        dst.push(src[i]);
        i += 1;
        proof {
            assert(src@.subrange(0, i as int) == src@.subrange(0, i - 1) + seq![src@[i - 1]]);
        }
    }
    proof {
        assert(src@.subrange(0, src@.len() as int) == src@);
    }
}

} // verus!
