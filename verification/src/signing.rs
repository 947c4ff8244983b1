//! Hash tree roots of the signed objects, signing domains, and signature
//! checks.
use vstd::prelude::*;

verus! {

/// The SHA-256 digest of `data`.
pub uninterp spec fn sha256(data: Seq<u8>) -> Seq<u8>;

/// The SSZ merkle root of `bytes` packed into 32-byte chunks, over at least
/// `minimum_leaf_count` leaves.
pub uninterp spec fn merkle_root(bytes: Seq<u8>, minimum_leaf_count: usize) -> Seq<u8>;

/// BLS verification of `signature` by `pubkey` over `message`, both given in
/// compressed form; false where either does not decode.
pub uninterp spec fn bls_signature_valid(pubkey: Seq<u8>, message: Seq<u8>, signature: Seq<u8>) -> bool;

/// `ethereum_hashing::hash`: the SHA-256 digest of `data`, 32 bytes long.
#[verifier::external_body]
pub(crate) fn hash(data: &Vec<u8>) -> (r: Vec<u8>)
    ensures
        r@ == sha256(data@),
        r@.len() == 32,
{
    ethereum_hashing::hash(data.as_slice())
}

/// `tree_hash::merkle_root`: the merkle root of `bytes` in 32-byte chunks,
/// padded with zero chunks to at least `minimum_leaf_count` leaves and to a
/// power of two; it returns a 32-byte root. The leaf count is bounded: the
/// hasher's depth would overflow on a count near `usize::MAX`.
#[verifier::external_body]
pub(crate) fn tree_hash_merkle_root(bytes: &Vec<u8>, minimum_leaf_count: usize) -> (r: Vec<u8>)
    requires
        minimum_leaf_count <= 0x2000_0000,
    ensures
        r@ == merkle_root(bytes@, minimum_leaf_count),
        r@.len() == 32,
{
    tree_hash::merkle_root(bytes.as_slice(), minimum_leaf_count).as_slice().to_vec()
}

/// `blst::min_pk::Signature::verify` with the proof-of-possession ciphersuite
/// of the consensus layer, after decoding the key (`PublicKey::key_validate`)
/// and the signature (`Signature::from_bytes`); false where either does not
/// decode. The contract claims only that the answer is a function of the
/// three byte strings.
#[verifier::external_body]
pub(crate) fn bls_verify(pubkey: &Vec<u8>, message: &Vec<u8>, signature: &Vec<u8>) -> (r: bool)
    ensures
        r == bls_signature_valid(pubkey@, message@, signature@),
{
    match (blst::min_pk::PublicKey::key_validate(pubkey), blst::min_pk::Signature::from_bytes(signature)) {
        (Ok(pk), Ok(sig)) => sig.verify(true, message, b"BLS_SIG_BLS12381G2_XMD:SHA-256_SSWU_RO_POP_", &[], &pk, false)
            == blst::BLST_ERROR::BLST_SUCCESS,
        _ => false,
    }
}

/// BLS verification of `signature` as the aggregate signature of all of
/// `pubkeys` over one `message`; false where a key or the signature does not
/// decode, or where no key is given.
pub uninterp spec fn bls_aggregate_signature_valid(
    pubkeys: Seq<Seq<u8>>,
    message: Seq<u8>,
    signature: Seq<u8>,
) -> bool;

/// `blst::min_pk::Signature::fast_aggregate_verify` (with the ciphersuite of
/// `bls_verify`) over the keys decoded by `PublicKey::key_validate`; false
/// where a key or the signature does not decode. The contract claims only
/// that the answer is a function of the keys, the message and the signature.
#[verifier::external_body]
pub(crate) fn bls_fast_aggregate_verify(pubkeys: &Vec<Vec<u8>>, message: &Vec<u8>, signature: &Vec<u8>) -> (r: bool)
    ensures
        r == bls_aggregate_signature_valid(pubkeys@.map_values(|k: Vec<u8>| k@), message@, signature@),
{
    let mut pks = Vec::new();
    for k in pubkeys.iter() {
        match blst::min_pk::PublicKey::key_validate(k) {
            Ok(pk) => pks.push(pk),
            Err(_) => return false,
        }
    }
    let refs: Vec<&blst::min_pk::PublicKey> = pks.iter().collect();
    match blst::min_pk::Signature::from_bytes(signature) {
        Ok(sig) => sig.fast_aggregate_verify(true, message, b"BLS_SIG_BLS12381G2_XMD:SHA-256_SSWU_RO_POP_", &refs)
            == blst::BLST_ERROR::BLST_SUCCESS,
        Err(_) => false,
    }
}

/// The `n` little-endian bytes of `x`.
pub open spec fn le_bytes(x: nat, n: nat) -> Seq<u8>
    decreases n,
{
    if n == 0 {
        Seq::empty()
    } else {
        seq![(x % 256) as u8] + le_bytes(x / 256, (n - 1) as nat)
    }
}

/// The hash tree root of a `u64`: its little-endian bytes padded to a chunk.
pub open spec fn u64_root(x: u64) -> Seq<u8> {
    le_bytes(x as nat, 8) + Seq::new(24, |k: int| 0u8)
}

/// Little-endian bytes of a number, taken `n` at a time, are `n` bytes.
pub proof fn lemma_le_bytes_len(x: nat, n: nat)
    ensures
        le_bytes(x, n).len() == n,
    decreases n,
{
    if n > 0 {
        lemma_le_bytes_len(x / 256, (n - 1) as nat);
    }
}

pub fn u64_root_bytes(x: u64) -> (r: Vec<u8>)
    ensures
        r@ == u64_root(x),
{
    let mut r: Vec<u8> = Vec::new();
    let mut v: u64 = x;
    let mut k: u64 = 0;
    while k < 8
        invariant
            k <= 8,
            r@ + le_bytes(v as nat, (8 - k) as nat) == le_bytes(x as nat, 8),
        decreases 8 - k,
    {
        assert(le_bytes(v as nat, (8 - k) as nat) == seq![(v % 256) as u8] + le_bytes(
            (v / 256) as nat,
            (8 - k - 1) as nat,
        ));
        r.push((v % 256) as u8);
        assert(r@ + le_bytes((v / 256) as nat, (8 - k - 1) as nat) =~= le_bytes(x as nat, 8));
        v = v / 256;
        k = k + 1;
    }
    assert(r@ =~= le_bytes(x as nat, 8));
    proof {
        lemma_le_bytes_len(x as nat, 8);
    }
    while r.len() < 32
        invariant
            8 <= r.len() <= 32,
            r@.subrange(0, 8) == le_bytes(x as nat, 8),
            forall|j: int| 8 <= j < r.len() ==> r@[j] == 0u8,
        decreases 32 - r.len(),
    {
        let ghost before = r@;
        r.push(0u8);
        assert(r@.subrange(0, 8) =~= before.subrange(0, 8));
    }
    assert(r@ =~= u64_root(x));
    r
}

/// The concatenation of two byte strings.
pub fn concat(a: &Vec<u8>, b: &Vec<u8>) -> (r: Vec<u8>)
    ensures
        r@ == a@ + b@,
{
    let mut r: Vec<u8> = Vec::new();
    let mut i: usize = 0;
    while i < a.len()
        invariant
            i <= a.len(),
            r@ == a@.subrange(0, i as int),
        decreases a.len() - i,
    {
        r.push(a[i]);
        assert(r@ =~= a@.subrange(0, i + 1));
        i = i + 1;
    }
    let mut j: usize = 0;
    while j < b.len()
        invariant
            i == a.len(),
            j <= b.len(),
            r@ == a@ + b@.subrange(0, j as int),
        decreases b.len() - j,
    {
        r.push(b[j]);
        assert(r@ =~= a@ + b@.subrange(0, j + 1));
        j = j + 1;
    }
    assert(b@.subrange(0, j as int) =~= b@);
    r
}

/// The four bytes that name a signing domain.
pub open spec fn domain_type_bytes(domain: u8) -> Seq<u8> {
    seq![domain, 0u8, 0u8, 0u8]
}

pub const DOMAIN_BEACON_PROPOSER: u8 = 0;

pub const DOMAIN_DEPOSIT: u8 = 3;

pub const DOMAIN_VOLUNTARY_EXIT: u8 = 4;

pub const DOMAIN_BLS_TO_EXECUTION_CHANGE: u8 = 10;

/// The domain of sync committee signatures.
pub const DOMAIN_SYNC_COMMITTEE: u8 = 7;

/// The root of a fork version with the genesis validators root.
pub open spec fn fork_data_root(version: Seq<u8>, genesis_validators_root: Seq<u8>) -> Seq<u8> {
    merkle_root(version + Seq::new(28, |k: int| 0u8) + genesis_validators_root, 0)
}

/// The signing domain: the domain type followed by 28 bytes of the fork data
/// root.
pub open spec fn compute_domain(domain: u8, version: Seq<u8>, genesis_validators_root: Seq<u8>) -> Seq<u8> {
    domain_type_bytes(domain) + fork_data_root(version, genesis_validators_root).subrange(0, 28)
}

/// The message that a signature over an object with root `object_root` signs.
pub open spec fn signing_root(object_root: Seq<u8>, domain: Seq<u8>) -> Seq<u8> {
    merkle_root(object_root + domain, 0)
}

pub fn zero_bytes(n: usize) -> (r: Vec<u8>)
    ensures
        r@ == Seq::new(n as nat, |k: int| 0u8),
{
    let mut r: Vec<u8> = Vec::new();
    while r.len() < n
        invariant
            r.len() <= n,
            forall|j: int| 0 <= j < r.len() ==> r@[j] == 0u8,
        decreases n - r.len(),
    {
        r.push(0u8);
    }
    assert(r@ =~= Seq::new(n as nat, |k: int| 0u8));
    r
}

pub fn array4_bytes(a: &[u8; 4]) -> (r: Vec<u8>)
    ensures
        r@ == a@,
{
    let mut r: Vec<u8> = Vec::new();
    r.push(a[0]);
    r.push(a[1]);
    r.push(a[2]);
    r.push(a[3]);
    assert(r@ =~= a@);
    r
}

pub fn compute_domain_bytes(domain: u8, version: &[u8; 4], genesis_validators_root: &Vec<u8>) -> (r: Vec<u8>)
    ensures
        r@ == compute_domain(domain, version@, genesis_validators_root@),
{
    let v = array4_bytes(version);
    let padded = concat(&v, &zero_bytes(28));
    let data = concat(&padded, genesis_validators_root);
    let root = tree_hash_merkle_root(&data, 0);
    let mut r: Vec<u8> = Vec::new();
    r.push(domain);
    r.push(0u8);
    r.push(0u8);
    r.push(0u8);
    let mut k: usize = 0;
    while k < 28
        invariant
            k <= 28,
            root@.len() == 32,
            r@ == domain_type_bytes(domain) + root@.subrange(0, k as int),
        decreases 28 - k,
    {
        r.push(root[k]);
        assert(r@ =~= domain_type_bytes(domain) + root@.subrange(0, k + 1));
        k = k + 1;
    }
    r
}

pub fn compute_signing_root(object_root: &Vec<u8>, domain: &Vec<u8>) -> (r: Vec<u8>)
    ensures
        r@ == signing_root(object_root@, domain@),
{
    tree_hash_merkle_root(&concat(object_root, domain), 0)
}

} // verus!
