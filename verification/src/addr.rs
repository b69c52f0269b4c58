//! Principals, assets, and custody addresses.
//!
//! Every identity in the kernel — an owner, a maker, a taker, an asset
//! kind, or a derived custody address — is a 32-byte key. The kernel never
//! inspects the bytes; it only compares them for exact equality and feeds
//! them to the host's address derivation.

use vstd::prelude::*;

use crate::errors::KernelError;

verus! {

/// The address and bump that the host derives from a seed sequence and a
/// program key, or `None` where the seeds cannot map to a valid address.
pub uninterp spec fn pda_of(seeds: Seq<Seq<u8>>, program: Seq<u8>) -> Option<(Seq<u8>, u8)>;

/// A 32-byte key: a principal, an asset kind, or a derived custody address.
pub struct Address {
    pub bytes: Vec<u8>,
}

impl View for Address {
    type V = Seq<u8>;

    open spec fn view(&self) -> Seq<u8> {
        self.bytes@
    }
}

impl Address {
    /// A well-formed key holds exactly 32 bytes.
    pub open spec fn wf(&self) -> bool {
        self.bytes@.len() == 32
    }

    /// Builds a key from its bytes; callers outside the kernel start here.
    pub fn from_bytes(bytes: Vec<u8>) -> (r: Address)
        requires
            bytes@.len() == 32,
        ensures
            r.wf(),
            r@ == bytes@,
    {
        Address { bytes }
    }

    /// An owned copy with the same bytes.
    pub fn dup(&self) -> (r: Address)
        ensures
            r@ == self@,
            r.wf() == self.wf(),
    {
        let mut out: Vec<u8> = Vec::new();
        let mut i: usize = 0;
        while i < self.bytes.len()
            invariant
                i <= self.bytes@.len(),
                out@ == self.bytes@.subrange(0, i as int),
            decreases self.bytes@.len() - i,
        {
            out.push(self.bytes[i]);
            i = i + 1;
        }
        proof {
            assert(out@ =~= self.bytes@);
        }
        Address { bytes: out }
    }
}

/// Relies on `Pubkey::try_find_program_address`, reached through
/// anchor_lang's prelude: the derivation is a pure function of the seed
/// sequence and the program key alone, and a derived address has 32 bytes.
#[verifier::external_body]
fn find_pda(seeds: &Vec<Vec<u8>>, program: &Address) -> (r: Option<(Address, u8)>)
    requires
        program.wf(),
    ensures
        (match r {
            Some(p) => pda_of(seeds.deep_view(), program@) == Some((p.0@, p.1)) && p.0.wf(),
            None => pda_of(seeds.deep_view(), program@) is None,
        }),
{
    let slices: Vec<&[u8]> = seeds.iter().map(|s| s.as_slice()).collect();
    let mut key = [0u8; 32];
    key.copy_from_slice(program.bytes.as_slice());
    let program_key = anchor_lang::prelude::Pubkey::new_from_array(key);
    anchor_lang::prelude::Pubkey::try_find_program_address(slices.as_slice(), &program_key)
        .map(|(a, bump)| (Address { bytes: a.to_bytes().to_vec() }, bump))
}

/// The custody address deriver: recomputable by anyone who knows the seeds,
/// deterministic, and failing only where the host's addressing rules admit
/// no address for the seed sequence.
pub fn derive(seeds: &Vec<Vec<u8>>, program: &Address) -> (r: Result<(Address, u8), KernelError>)
    requires
        program.wf(),
    ensures
        (match r {
            Ok(p) => pda_of(seeds.deep_view(), program@) == Some((p.0@, p.1)) && p.0.wf(),
            Err(e) => e == KernelError::InvalidSeeds
                && pda_of(seeds.deep_view(), program@) is None,
        }),
{
    match find_pda(seeds, program) {
        Some(p) => Ok(p),
        None => Err(KernelError::InvalidSeeds),
    }
}

/// The little-endian bytes of `x`, `n` bytes wide.
pub open spec fn le_bytes(x: nat, n: nat) -> Seq<u8>
    decreases n,
{
    if n == 0 {
        Seq::empty()
    } else {
        seq![(x % 256) as u8] + le_bytes(x / 256, (n - 1) as nat)
    }
}

/// The eight little-endian bytes of a seed value.
pub open spec fn spec_u64_le(x: u64) -> Seq<u8> {
    le_bytes(x as nat, 8)
}

/// Encodes a seed value as its eight little-endian bytes.
pub fn u64_le(x: u64) -> (r: Vec<u8>)
    ensures
        r@ == spec_u64_le(x),
{
    let mut out: Vec<u8> = Vec::new();
    let mut cur: u64 = x;
    let mut i: usize = 0;
    while i < 8
        invariant
            i <= 8,
            out@.len() == i,
            le_bytes(x as nat, 8) == out@ + le_bytes(cur as nat, (8 - i) as nat),
        decreases 8 - i,
    {
        let b: u8 = (cur % 256) as u8;
        proof {
            assert(le_bytes(cur as nat, (8 - i) as nat)
                == seq![b] + le_bytes(cur as nat / 256, (8 - (i + 1)) as nat));
            assert((out@ + seq![b]) + le_bytes(cur as nat / 256, (8 - (i + 1)) as nat)
                =~= out@ + (seq![b] + le_bytes(cur as nat / 256, (8 - (i + 1)) as nat)));
        }
        out.push(b);
        cur = cur / 256;
        i = i + 1;
    }
    proof {
        assert(out@ + le_bytes(cur as nat, 0) =~= out@);
    }
    out
}

/// The fixed purpose tag of a vault's derivation seeds.
pub open spec fn spec_state_tag() -> Seq<u8> {
    seq![115u8, 116u8, 97u8, 116u8, 101u8]
}

/// The fixed purpose tag of an escrow's derivation seeds.
pub open spec fn spec_escrow_tag() -> Seq<u8> {
    seq![101u8, 115u8, 99u8, 114u8, 111u8, 119u8]
}

/// The seed components a vault custody address is derived from.
pub open spec fn spec_vault_seeds(owner: Seq<u8>, seed: u64) -> Seq<Seq<u8>> {
    seq![spec_state_tag(), owner, spec_u64_le(seed)]
}

/// The seed components an escrow custody address is derived from.
pub open spec fn spec_escrow_seeds(maker: Seq<u8>, seed: u64) -> Seq<Seq<u8>> {
    seq![spec_escrow_tag(), maker, spec_u64_le(seed)]
}

fn state_tag() -> (r: Vec<u8>)
    ensures
        r@ == spec_state_tag(),
{
    let mut t: Vec<u8> = Vec::new();
    t.push(115);
    t.push(116);
    t.push(97);
    t.push(116);
    t.push(101);
    proof {
        assert(t@ =~= spec_state_tag());
    }
    t
}

fn escrow_tag() -> (r: Vec<u8>)
    ensures
        r@ == spec_escrow_tag(),
{
    let mut t: Vec<u8> = Vec::new();
    t.push(101);
    t.push(115);
    t.push(99);
    t.push(114);
    t.push(111);
    t.push(119);
    proof {
        assert(t@ =~= spec_escrow_tag());
    }
    t
}

/// Builds the vault seed components for `owner` and `seed`.
pub fn vault_seeds(owner: &Address, seed: u64) -> (r: Vec<Vec<u8>>)
    ensures
        r.deep_view() == spec_vault_seeds(owner@, seed),
{
    let mut r: Vec<Vec<u8>> = Vec::new();
    r.push(state_tag());
    r.push(owner.dup().bytes);
    r.push(u64_le(seed));
    proof {
        assert(r.deep_view() =~~= spec_vault_seeds(owner@, seed));
    }
    r
}

/// Builds the escrow seed components for `maker` and `seed`.
pub fn escrow_seeds(maker: &Address, seed: u64) -> (r: Vec<Vec<u8>>)
    ensures
        r.deep_view() == spec_escrow_seeds(maker@, seed),
{
    let mut r: Vec<Vec<u8>> = Vec::new();
    r.push(escrow_tag());
    r.push(maker.dup().bytes);
    r.push(u64_le(seed));
    proof {
        assert(r.deep_view() =~~= spec_escrow_seeds(maker@, seed));
    }
    r
}

/// Exact byte-for-byte equality of two keys.
pub fn addr_eq(a: &Address, b: &Address) -> (r: bool)
    ensures
        r == (a@ == b@),
{
    bytes_eq(&a.bytes, &b.bytes)
}

/// Exact equality of two byte strings.
pub fn bytes_eq(a: &Vec<u8>, b: &Vec<u8>) -> (r: bool)
    ensures
        r == (a@ == b@),
{
    if a.len() != b.len() {
        return false;
    }
    let mut i: usize = 0;
    while i < a.len()
        invariant
            a@.len() == b@.len(),
            i <= a@.len(),
            forall|j: int| 0 <= j < i ==> a@[j] == b@[j],
        decreases a@.len() - i,
    {
        if a[i] != b[i] {
            return false;
        }
        i = i + 1;
    }
    proof {
        assert(a@ =~= b@);
    }
    true
}

} // verus!
