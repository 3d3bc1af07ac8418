//! Decoding of the ABI-encoded public values that the light-client program
//! commits to: seven 32-byte words, two of which are unsigned 256-bit
//! integers in big-endian order.

use vstd::prelude::*;

verus! {

/// The number of bytes in one ABI word.
pub const WORD_BYTES: usize = 32;

/// The number of bytes of the encoded public values: seven words.
pub const ABI_OUTPUT_BYTES: usize = 224;

/// `256` raised to the power `n`.
pub open spec fn pow256(n: nat) -> nat
    decreases n,
{
    if n == 0 {
        1
    } else {
        256 * pow256((n - 1) as nat)
    }
}

/// The unsigned number that `bytes` denotes, most significant byte first.
pub open spec fn be_value(bytes: Seq<u8>) -> nat
    decreases bytes.len(),
{
    if bytes.len() == 0 {
        0
    } else {
        be_value(bytes.drop_last()) * 256 + bytes.last() as nat
    }
}

/// A big-endian number of `n` bytes is below `256^n`.
pub proof fn lemma_be_value_bound(bytes: Seq<u8>)
    ensures
        be_value(bytes) < pow256(bytes.len()),
    decreases bytes.len(),
{
    if bytes.len() > 0 {
        let rest = bytes.drop_last();
        lemma_be_value_bound(rest);
        let v = be_value(rest);
        let p = pow256(rest.len());
        let b = bytes.last() as nat;
        assert(v * 256 + b < 256 * p) by (nonlinear_arith)
            requires
                v < p,
                b < 256,
        ;
    }
}

/// The big-endian value of a concatenation.
pub proof fn lemma_be_value_concat(a: Seq<u8>, b: Seq<u8>)
    ensures
        be_value(a + b) == be_value(a) * pow256(b.len()) + be_value(b),
    decreases b.len(),
{
    if b.len() == 0 {
        assert(a + b =~= a);
        assert(be_value(b) == 0);
        assert(pow256(b.len()) == 1);
        assert(be_value(a) * 1 == be_value(a));
    } else {
        let b0 = b.drop_last();
        assert((a + b).drop_last() =~= a + b0);
        assert((a + b).last() == b.last());
        lemma_be_value_concat(a, b0);
        let va = be_value(a);
        let p = pow256(b0.len());
        let vb0 = be_value(b0);
        let last = b.last() as nat;
        assert(be_value(a + b) == be_value(a + b0) * 256 + last);
        assert(be_value(b) == vb0 * 256 + last);
        assert(pow256(b.len()) == 256 * p);
        assert((va * p + vb0) * 256 == va * (256 * p) + vb0 * 256) by (nonlinear_arith);
        assert(be_value(a + b) == va * pow256(b.len()) + be_value(b));
    }
}

/// An unsigned 256-bit integer, held as four 64-bit limbs, least
/// significant limb first.
#[derive(Clone, Copy, Debug, PartialEq, Eq)]
pub struct Uint256 {
    pub limbs: [u64; 4],
}

impl Uint256 {
    /// The number this integer stands for.
    pub open spec fn value(&self) -> nat {
        ((self.limbs[3] as nat * 0x1_0000_0000_0000_0000 + self.limbs[2] as nat)
            * 0x1_0000_0000_0000_0000 + self.limbs[1] as nat) * 0x1_0000_0000_0000_0000
            + self.limbs[0] as nat
    }

    /// The limbs, least significant first.
    pub fn as_limbs(&self) -> (r: [u64; 4])
        ensures
            r == self.limbs,
    {
        self.limbs
    }

    /// Builds the integer that a 32-byte big-endian word denotes.
    pub fn from_be_bytes(bytes: [u8; 32]) -> (r: Self)
        ensures
            r.value() == be_value(bytes@),
    {
        let l3 = read_be_u64(&bytes, 0);
        let l2 = read_be_u64(&bytes, 8);
        let l1 = read_be_u64(&bytes, 16);
        let l0 = read_be_u64(&bytes, 24);
        let r = Uint256 { limbs: [l0, l1, l2, l3] };
        proof {
            let s = bytes@;
            let a = s.subrange(0, 8);
            let b = s.subrange(8, 16);
            let c = s.subrange(16, 24);
            let d = s.subrange(24, 32);
            reveal_with_fuel(pow256, 9);
            assert(pow256(8) == 0x1_0000_0000_0000_0000);
            lemma_be_value_concat(a, b);
            lemma_be_value_concat(a + b, c);
            lemma_be_value_concat(a + b + c, d);
            assert(a + b + c + d =~= s);
        }
        r
    }
}

/// Reads the 8 bytes at `start` as a big-endian `u64`.
fn read_be_u64(bytes: &[u8; 32], start: usize) -> (r: u64)
    requires
        start + 8 <= 32,
    ensures
        r as nat == be_value(bytes@.subrange(start as int, start + 8)),
{
    let mut acc: u64 = 0;
    let mut i: usize = 0;
    while i < 8
        invariant
            start + 8 <= 32,
            i <= 8,
            acc as nat == be_value(bytes@.subrange(start as int, start + i)),
        decreases 8 - i,
    {
        let ghost prefix = bytes@.subrange(start as int, start + i);
        let ghost next = bytes@.subrange(start as int, start + i + 1);
        proof {
            lemma_be_value_bound(prefix);
            reveal_with_fuel(pow256, 8);
            assert(pow256(prefix.len()) <= 0x100_0000_0000_0000);
            assert(next.drop_last() =~= prefix);
        }
        let b = bytes[start + i];
        assert(acc * 256 + b <= 0xffff_ffff_ffff_ffff) by (nonlinear_arith)
            requires
                acc < 0x100_0000_0000_0000,
                b < 256,
        ;
        acc = acc * 256 + b as u64;
        i = i + 1;
    }
    acc
}


/// The `i`-th 32-byte word of `bytes`.
pub open spec fn abi_word(bytes: Seq<u8>, i: int) -> Seq<u8> {
    bytes.subrange(32 * i, 32 * i + 32)
}

/// Why public values could not be decoded.
#[derive(Clone, Copy, Debug, PartialEq, Eq)]
pub enum ProofOutputsError {
    /// The encoding is not exactly seven words long.
    InvalidLength,
}

/// The message with which an error is reported.
pub open spec fn error_message(e: ProofOutputsError) -> Seq<char> {
    match e {
        ProofOutputsError::InvalidLength => "Invalid byte slice length"@,
    }
}

impl ProofOutputsError {
    /// The message with which the error is reported.
    pub fn to_string(&self) -> (r: String)
        ensures
            r@ == error_message(*self),
    {
        match self {
            ProofOutputsError::InvalidLength => "Invalid byte slice length".to_owned(),
        }
    }
}

/// What the light-client program commits to at the end of a proof.
#[derive(Clone, Copy, Debug, PartialEq, Eq)]
pub struct RustProofOutputs {
    pub execution_state_root: [u8; 32],
    pub new_header: [u8; 32],
    pub next_sync_committee_hash: [u8; 32],
    pub new_head: Uint256,
    pub prev_header: [u8; 32],
    pub prev_head: Uint256,
    pub sync_committee_hash: [u8; 32],
}

/// The mathematical content of [`RustProofOutputs`].
pub struct ProofOutputsView {
    pub execution_state_root: Seq<u8>,
    pub new_header: Seq<u8>,
    pub next_sync_committee_hash: Seq<u8>,
    pub new_head: nat,
    pub prev_header: Seq<u8>,
    pub prev_head: nat,
    pub sync_committee_hash: Seq<u8>,
}

impl View for RustProofOutputs {
    type V = ProofOutputsView;

    open spec fn view(&self) -> ProofOutputsView {
        ProofOutputsView {
            execution_state_root: self.execution_state_root@,
            new_header: self.new_header@,
            next_sync_committee_hash: self.next_sync_committee_hash@,
            new_head: self.new_head.value(),
            prev_header: self.prev_header@,
            prev_head: self.prev_head.value(),
            sync_committee_hash: self.sync_committee_hash@,
        }
    }
}

/// The outputs that a seven-word encoding stands for: the words in field
/// order, the fourth and sixth read as big-endian integers.
pub open spec fn decode_abi(bytes: Seq<u8>) -> ProofOutputsView {
    ProofOutputsView {
        execution_state_root: abi_word(bytes, 0),
        new_header: abi_word(bytes, 1),
        next_sync_committee_hash: abi_word(bytes, 2),
        new_head: be_value(abi_word(bytes, 3)),
        prev_header: abi_word(bytes, 4),
        prev_head: be_value(abi_word(bytes, 5)),
        sync_committee_hash: abi_word(bytes, 6),
    }
}

impl RustProofOutputs {
    /// Decodes the ABI encoding of the public values: exactly 224 bytes,
    /// else `InvalidLength`.
    pub fn from_abi(bytes: &[u8]) -> (r: Result<Self, ProofOutputsError>)
        ensures
            r is Ok <==> bytes@.len() == ABI_OUTPUT_BYTES,
            r matches Ok(o) ==> o@ == decode_abi(bytes@),
            r matches Err(e) ==> e == ProofOutputsError::InvalidLength,
    {
        if bytes.len() != ABI_OUTPUT_BYTES {
            return Err(ProofOutputsError::InvalidLength);
        }
        let execution_state_root = read_word(bytes, 0);
        let new_header = read_word(bytes, 32);
        let next_sync_committee_hash = read_word(bytes, 64);
        let new_head = Uint256::from_be_bytes(read_word(bytes, 96));
        let prev_header = read_word(bytes, 128);
        let prev_head = Uint256::from_be_bytes(read_word(bytes, 160));
        let sync_committee_hash = read_word(bytes, 192);
        Ok(RustProofOutputs {
            execution_state_root,
            new_header,
            next_sync_committee_hash,
            new_head,
            prev_header,
            prev_head,
            sync_committee_hash,
        })
    }
}

/// Copies the 32 bytes at `start`.
fn read_word(bytes: &[u8], start: usize) -> (w: [u8; 32])
    requires
        start + 32 <= bytes@.len(),
    ensures
        w@ == bytes@.subrange(start as int, start + 32),
{
    let mut w: [u8; 32] = [0u8; 32];
    let mut j: usize = 0;
    while j < 32
        invariant
            start + 32 <= bytes.len(),
            j <= 32,
            forall|k: int| 0 <= k < j ==> w@[k] == bytes@[start + k],
        decreases 32 - j,
    {
        w[j] = bytes[start + j];
        j = j + 1;
    }
    assert(w@ =~= bytes@.subrange(start as int, start + 32));
    w
}

} // verus!
