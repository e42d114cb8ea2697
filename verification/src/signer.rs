//! Signer: the camera side of the protocol.
//!
//! Two signing modes are supported:
//! - Mode 1: a lattice hash `h = A * v (mod q)` of each channel, compressed by Poseidon
//!   (for computationally limited signers such as cameras);
//! - Mode 2: a commitment to the polynomial that interpolates the pixel values
//!   (for powerful signers).
//!
//! This module holds the arithmetic of both modes; the Poseidon permutation and
//! the field FFT are supplied by the caller as their results.

use vstd::prelude::*;
use sha2::Digest;
use rand::Rng;
use vstd::string::*;
use vstd::arithmetic::power2::pow2;

verus! {

/// Number of rows of the lattice matrix `A` (the length of a lattice hash).
pub const LATTICE_N: usize = 128;

/// Seed from which signers derive the lattice matrix.
pub const LATTICE_SEED: u64 = 0x12345678;

/// The Goldilocks prime `2^64 - 2^32 + 1`, modulus of the lattice hash.
pub const GOLDILOCKS_PRIME: u64 = 0xFFFF_FFFF_0000_0001;

/// Multiplier of the linear congruential generator that fills the lattice matrix.
pub const LCG_MUL: u64 = 6364136223846793005;

/// Increment of the linear congruential generator that fills the lattice matrix.
pub const LCG_INC: u64 = 1442695040888963407;

/// Length of a digest of the signing hashes: four field elements.
pub const DIGEST_ELEMS: usize = 4;

/// One step of the generator: `x' = (LCG_MUL * x + LCG_INC) mod 2^64`.
pub open spec fn lcg_step(x: u64) -> u64 {
    ((LCG_MUL * x + LCG_INC) % 0x1_0000_0000_0000_0000) as u64
}

/// Generator state after `k` steps from `start`.
pub open spec fn lcg_state(start: u64, k: nat) -> u64
    decreases k,
{
    if k == 0 {
        start
    } else {
        lcg_step(lcg_state(start, (k - 1) as nat))
    }
}

/// Starting state of row `row`: `seed + row (mod 2^64)`.
pub open spec fn row_seed(seed: u64, row: int) -> u64 {
    ((seed + row) % 0x1_0000_0000_0000_0000) as u64
}

/// Entry `A[row][col]` of the lattice matrix: the upper 32 bits of the
/// generator state after `col + 1` steps from the row's seed.
pub open spec fn lattice_entry(seed: u64, row: int, col: int) -> int {
    (lcg_state(row_seed(seed, row), (col + 1) as nat) / 0x1_0000_0000) as int
}

/// `sum_{j < m} A[row][j] * v[j]` over the integers.
pub open spec fn lattice_dot(seed: u64, row: int, v: Seq<u8>, m: int) -> int
    decreases m,
{
    if m <= 0 {
        0
    } else {
        lattice_dot(seed, row, v, m - 1) + lattice_entry(seed, row, m - 1) * v[m - 1]
    }
}

/// The lattice hash `h = A * v (mod q)`: `LATTICE_N` field elements.
pub open spec fn lattice_hash(v: Seq<u8>, seed: u64) -> Seq<u64> {
    Seq::new(
        LATTICE_N as nat,
        |i: int| (lattice_dot(seed, i, v, v.len() as int) % (GOLDILOCKS_PRIME as int)) as u64,
    )
}

/// One generator step computed with wrapping machine arithmetic.
fn lcg_next(x: u64) -> (y: u64)
    ensures
        y == lcg_step(x),
{
    let y = x.wrapping_mul(LCG_MUL).wrapping_add(LCG_INC);
    proof {
        let m: int = 0x1_0000_0000_0000_0000;
        let p = (x as int * LCG_MUL as int) % m;
        vstd::arithmetic::div_mod::lemma_add_mod_noop(x as int * LCG_MUL as int, LCG_INC as int, m);
        vstd::arithmetic::div_mod::lemma_small_mod(LCG_INC as nat, m as nat);
        vstd::arithmetic::div_mod::lemma_mod_bound(x as int * LCG_MUL as int, m);
        if p + LCG_INC >= m {
            vstd::arithmetic::div_mod::lemma_fundamental_div_mod_converse(p + LCG_INC, m, 1, p + LCG_INC - m);
        } else {
            vstd::arithmetic::div_mod::lemma_small_mod((p + LCG_INC) as nat, m as nat);
        }
        assert(LCG_MUL * x == x * LCG_MUL) by (nonlinear_arith);
    }
    y
}

/// Lattice hash matrix generator (deterministic from seed)
/// In production, this would be a truly random matrix stored publicly
fn generate_lattice_matrix_row(row_idx: usize, num_cols: usize, seed: u64) -> (row: Vec<u64>)
    ensures
        row@.len() == num_cols,
        forall|j: int| 0 <= j < num_cols ==> #[trigger] row@[j] as int == lattice_entry(seed, row_idx as int, j),
        forall|j: int| 0 <= j < num_cols ==> #[trigger] row@[j] < 0x1_0000_0000,
        forall|j: int| 0 <= j < num_cols ==> #[trigger] row@[j] as int
            == lattice_entry(row_seed(seed, row_idx as int), 0, j),
{
    let mut lcg_state_now = seed.wrapping_add(row_idx as u64);
    let ghost start = lcg_state_now;
    proof {
        let s = seed as int + row_idx as int;
        if s > u64::MAX {
            vstd::arithmetic::div_mod::lemma_fundamental_div_mod_converse(s, 0x1_0000_0000_0000_0000, 1, s - 0x1_0000_0000_0000_0000);
        } else {
            vstd::arithmetic::div_mod::lemma_small_mod(s as nat, 0x1_0000_0000_0000_0000);
        }
    }
    let mut row: Vec<u64> = Vec::with_capacity(num_cols);
    let mut j: usize = 0;
    while j < num_cols
        invariant
            start == row_seed(seed, row_idx as int),
            j <= num_cols,
            lcg_state_now == lcg_state(start, j as nat),
            row@.len() == j,
            forall|k: int| 0 <= k < j ==> #[trigger] row@[k] as int == lattice_entry(seed, row_idx as int, k),
            forall|k: int| 0 <= k < j ==> #[trigger] row@[k] < 0x1_0000_0000,
        decreases num_cols - j,
    {
        lcg_state_now = lcg_next(lcg_state_now);
        let entry = (lcg_state_now >> 32) & 0xFFFFFFFF;
        proof {
            let s = lcg_state_now;
            assert((s >> 32) & 0xFFFFFFFF == s / 0x1_0000_0000 && s / 0x1_0000_0000 < 0x1_0000_0000) by (bit_vector);
        }
        row.push(entry);
        j = j + 1;
    }
    proof {
        assert forall|k: int| 0 <= k < num_cols implies #[trigger] row@[k] as int
            == lattice_entry(row_seed(seed, row_idx as int), 0, k) by {
            lemma_lattice_row_shift(seed, row_idx as int, seed, row_idx as int, k);
        }
    }
    row
}

/// A row of the lattice matrix depends only on `seed + row (mod 2^64)`: rows of
/// two (seed, row) pairs with the same sum agree entry by entry; in particular
/// row `row` under `seed` is row 0 under `seed + row`. Entries lie below `2^32`.
pub proof fn lemma_lattice_row_shift(s1: u64, r1: int, s2: u64, r2: int, col: int)
    requires
        row_seed(s1, r1) == row_seed(s2, r2),
    ensures
        lattice_entry(s1, r1, col) == lattice_entry(s2, r2, col),
        lattice_entry(s1, r1, col) == lattice_entry(row_seed(s1, r1), 0, col),
        0 <= lattice_entry(s1, r1, col) < 0x1_0000_0000,
{
    let st = lcg_state(row_seed(s1, r1), (col + 1) as nat);
    assert(0 <= st / 0x1_0000_0000 < 0x1_0000_0000) by (bit_vector);
    assert(row_seed(row_seed(s1, r1), 0) == row_seed(s1, r1));
}

/// `sum_{j < m} A[row][j] * v[j]` grows by at most `2^40` per term.
proof fn lemma_lattice_dot_bound(seed: u64, row: int, v: Seq<u8>, m: int)
    requires
        0 <= m <= v.len(),
    ensures
        0 <= lattice_dot(seed, row, v, m) <= m * 0x100_0000_0000,
    decreases m,
{
    if m > 0 {
        lemma_lattice_dot_bound(seed, row, v, m - 1);
        let e = lattice_entry(seed, row, m - 1);
        let s = lcg_state(row_seed(seed, row), m as nat);
        assert(0 <= s / 0x1_0000_0000 < 0x1_0000_0000) by (bit_vector);
        assert(0 <= e * v[m - 1] <= 0x100_0000_0000) by (nonlinear_arith)
            requires
                0 <= e < 0x1_0000_0000,
                0 <= v[m - 1] < 256,
        ;
    }
}

/// Compute lattice hash: h = A * v (mod q)
/// where A ∈ F^{n×m}, v is the pixel vector (low-norm: 0-255)
/// Returns n field elements (1KB when n=128 and q is 64-bit)
pub fn compute_lattice_hash(pixels: &[u8], seed: u64) -> (hash: Vec<u64>)
    ensures
        hash@ == lattice_hash(pixels@, seed),
{
    let m = pixels.len();
    let mut hash: Vec<u64> = Vec::with_capacity(LATTICE_N);
    let mut i: usize = 0;
    while i < LATTICE_N
        invariant
            m == pixels@.len(),
            i <= LATTICE_N,
            hash@ =~= lattice_hash(pixels@, seed).subrange(0, i as int),
        decreases LATTICE_N - i,
    {
        let row = generate_lattice_matrix_row(i, m, seed);
        let mut sum: u128 = 0;
        let mut j: usize = 0;
        while j < m
            invariant
                m == pixels@.len(),
                row@.len() == m,
                forall|k: int| 0 <= k < m ==> #[trigger] row@[k] as int == lattice_entry(seed, i as int, k),
                forall|k: int| 0 <= k < m ==> #[trigger] row@[k] < 0x1_0000_0000,
                j <= m,
                sum == lattice_dot(seed, i as int, pixels@, j as int),
            decreases m - j,
        {
            proof {
                lemma_lattice_dot_bound(seed, i as int, pixels@, j as int);
                assert(j * 0x100_0000_0000 + 0x100_0000_0000 <= 0x1_0000_0000_0000_0000_0000_0000_0000) by (nonlinear_arith)
                    requires
                        j < 0x1_0000_0000_0000_0000,
                ;
                assert(row@[j as int] as u128 * pixels@[j as int] as u128 <= 0x100_0000_0000) by (nonlinear_arith)
                    requires
                        row@[j as int] < 0x1_0000_0000,
                        pixels@[j as int] < 256,
                ;
            }
            sum = sum + (row[j] as u128) * (pixels[j] as u128);
            j = j + 1;
        }
        let goldilocks_prime: u128 = GOLDILOCKS_PRIME as u128;
        hash.push((sum % goldilocks_prime) as u64);
        i = i + 1;
    }
    hash
}

/// `A * (a + b) == A * a + A * b` for each row, over the integers.
proof fn lemma_lattice_dot_additive(seed: u64, row: int, a: Seq<u8>, b: Seq<u8>, c: Seq<u8>, m: int)
    requires
        0 <= m <= a.len(),
        a.len() == b.len(),
        b.len() == c.len(),
        forall|j: int| 0 <= j < c.len() ==> c[j] == a[j] + b[j],
    ensures
        lattice_dot(seed, row, c, m) == lattice_dot(seed, row, a, m) + lattice_dot(seed, row, b, m),
    decreases m,
{
    if m > 0 {
        lemma_lattice_dot_additive(seed, row, a, b, c, m - 1);
        let e = lattice_entry(seed, row, m - 1);
        vstd::arithmetic::mul::lemma_mul_is_distributive_add(e, a[m - 1] as int, b[m - 1] as int);
    }
}

/// The lattice hash is additively homomorphic: where each pixel of `c` is the
/// sum of the pixels of `a` and `b` at the same place, the hash of `c` is the
/// sum of the hashes of `a` and `b`, element by element, modulo q.
pub proof fn lemma_lattice_hash_linear(a: Seq<u8>, b: Seq<u8>, c: Seq<u8>, seed: u64)
    requires
        a.len() == b.len(),
        b.len() == c.len(),
        forall|j: int| 0 <= j < c.len() ==> c[j] == a[j] + b[j],
    ensures
        forall|i: int|
            0 <= i < LATTICE_N ==> #[trigger] lattice_hash(c, seed)[i] as int == (lattice_hash(a, seed)[i]
                + lattice_hash(b, seed)[i]) % (GOLDILOCKS_PRIME as int),
{
    assert forall|i: int|
        0 <= i < LATTICE_N implies #[trigger] lattice_hash(c, seed)[i] as int == (lattice_hash(a, seed)[i]
            + lattice_hash(b, seed)[i]) % (GOLDILOCKS_PRIME as int) by {
        let m = c.len() as int;
        let q = GOLDILOCKS_PRIME as int;
        lemma_lattice_dot_additive(seed, i, a, b, c, m);
        lemma_lattice_dot_bound(seed, i, a, m);
        lemma_lattice_dot_bound(seed, i, b, m);
        lemma_lattice_dot_bound(seed, i, c, m);
        let da = lattice_dot(seed, i, a, m);
        let db = lattice_dot(seed, i, b, m);
        vstd::arithmetic::div_mod::lemma_add_mod_noop(da, db, q);
        vstd::arithmetic::div_mod::lemma_mod_bound(da, q);
        vstd::arithmetic::div_mod::lemma_mod_bound(db, q);
        vstd::arithmetic::div_mod::lemma_mod_bound(da + db, q);
    }
}

/// Byte `k` (0 = least significant) of the little-endian encoding of `v`.
pub open spec fn le_byte(v: u64, k: u64) -> u8 {
    ((v >> (8 * k)) & 0xff) as u8
}

/// Little-endian encoding of each element, the encodings placed one after another.
pub open spec fn le_bytes_of(elems: Seq<u64>) -> Seq<u8> {
    Seq::new(8 * elems.len(), |i: int| le_byte(elems[i / 8], (i % 8) as u64))
}

/// Convert a hash output (field elements in canonical form) to bytes: each
/// element as eight little-endian bytes.
pub fn hash_out_to_bytes(elems: &[u64]) -> (bytes: Vec<u8>)
    requires
        elems@.len() <= 0x1000_0000,
    ensures
        bytes@ == le_bytes_of(elems@),
{
    let n = elems.len();
    let mut bytes: Vec<u8> = Vec::with_capacity(8 * n);
    let mut i: usize = 0;
    while i < n
        invariant
            n == elems@.len(),
            n <= 0x1000_0000,
            i <= n,
            bytes@ =~= le_bytes_of(elems@).subrange(0, 8 * i),
        decreases n - i,
    {
        let v = elems[i];
        let mut k: u64 = 0;
        while k < 8
            invariant
                n == elems@.len(),
                n <= 0x1000_0000,
                i < n,
                v == elems@[i as int],
                k <= 8,
                bytes@ =~= le_bytes_of(elems@).subrange(0, 8 * i + k),
            decreases 8 - k,
        {
            proof {
                vstd::arithmetic::div_mod::lemma_fundamental_div_mod_converse(8 * i + k, 8, i as int, k as int);
            }
            bytes.push(((v >> (8 * k)) & 0xff) as u8);
            k = k + 1;
        }
        i = i + 1;
    }
    bytes
}

/// The digest of SHA-256 over `data`.
pub uninterp spec fn sha256_digest(data: Seq<u8>) -> Seq<u8>;

/// Trusted: calls `sha2::Sha256::digest`. Claimed: the 32-byte output is
/// `sha256_digest(data)`.
#[verifier::external_body]
fn sha256(data: &[u8]) -> (d: Vec<u8>)
    ensures
        d@ == sha256_digest(data@),
        d@.len() == 32,
{
    sha2::Sha256::digest(data).to_vec()
}

/// Trusted: calls `rand::Rng::fill` on `rand::thread_rng()`. Claimed: `n` bytes come
/// back; their values are left open (they are random).
#[verifier::external_body]
fn random_bytes(n: usize) -> (bytes: Vec<u8>)
    ensures
        bytes@.len() == n,
{
    let mut bytes = vec![0u8; n];
    rand::thread_rng().fill(bytes.as_mut_slice());
    bytes
}

/// Simulated ECDSA signature: SHA-256 over the private key followed by the hash.
fn sign_hash(hash: &[u8], private_key: &[u8]) -> (sig: Vec<u8>)
    ensures
        sig@ == sha256_digest(private_key@ + hash@),
        sig@.len() == 32,
{
    let mut data: Vec<u8> = Vec::new();
    data.extend_from_slice(private_key);
    data.extend_from_slice(hash);
    proof {
        assert(data@ =~= private_key@ + hash@);
    }
    sha256(data.as_slice())
}

/// Generate a simulated key pair: 32 random private-key bytes, and as public key
/// the SHA-256 digest of the private key.
pub fn generate_keypair() -> (keys: (Vec<u8>, Vec<u8>))
    ensures
        keys.0@.len() == 32,
        keys.1@ == sha256_digest(keys.0@),
        keys.1@.len() == 32,
{
    let private_key = random_bytes(32);
    let public_key = sha256(private_key.as_slice());
    (private_key, public_key)
}


/// Signing mode as per the VerITAS paper
#[derive(Debug, Clone, Copy, PartialEq, Eq, Structural)]
pub enum SigningMode {
    /// Mode 1: Lattice hash + Poseidon - for computationally limited signers (cameras)
    LatticePostion,
    /// Mode 2: Polynomial commitment - for powerful signers
    PolynomialCommitment,
}

/// C2PA-style image metadata
pub struct ImageMetadata {
    pub timestamp: u64,
    pub device_id: String,
    pub image_width: u32,
    pub image_height: u32,
    pub color_depth: u8,
}

/// Signed image data structure
pub struct SignedImage {
    /// The signing mode used
    pub mode: SigningMode,
    /// Image metadata (C2PA style)
    pub metadata: ImageMetadata,
    /// Hash of the image (lattice+poseidon for Mode 1, commitment digest for Mode 2)
    pub image_hash: Vec<u8>,
    /// Signature on the hash (simulated with a SHA-256-based signature)
    pub signature: Vec<u8>,
    /// Signer's public key (simulated)
    pub public_key: Vec<u8>,
    /// For Mode 1: The lattice hash output (before Poseidon)
    pub lattice_hash: Option<Vec<u64>>,
    /// For Mode 2: The polynomial commitment
    pub polynomial_commitment: Option<Vec<u8>>,
    /// Signing time in milliseconds
    pub signing_time_ms: u64,
}

/// The field elements that a signer hashes into the image digest.
pub enum HashPreimage {
    /// Mode 1: the lattice hashes of the R, G and B channels, one after another;
    /// the digest is their Poseidon hash.
    Lattice(Vec<u64>),
    /// Mode 2: the pixel values of R, G and B, one after another, padded with
    /// zeros to a power of two; the digest is the Poseidon hash of the
    /// coefficients of the polynomial that interpolates them.
    Polynomial(Vec<u64>),
}

/// The smallest power of two that is at least `n`, found by doubling from `p`.
pub open spec fn pow2_at_least(p: nat, n: nat) -> nat
    decreases (if p < n { n - p } else { 0 }),
{
    if p >= n || p == 0 {
        p
    } else {
        pow2_at_least(2 * p, n)
    }
}

/// Pixel values as field elements, padded with zeros to the next power of two.
pub open spec fn commitment_values(pixels: Seq<u8>) -> Seq<u64> {
    Seq::new(
        pow2_at_least(1, pixels.len()),
        |j: int|
            if j < pixels.len() {
                pixels[j] as u64
            } else {
                0
            },
    )
}

/// Doubling from a power of two keeps a power of two.
proof fn lemma_pow2_at_least(p: nat, k: nat, n: nat)
    requires
        p == pow2(k),
    ensures
        exists|e: nat| pow2(e) == pow2_at_least(p, n),
        pow2_at_least(p, n) >= n,
        pow2_at_least(p, n) >= p,
    decreases (if p < n { n - p } else { 0 }),
{
    vstd::arithmetic::power2::lemma_pow2_pos(k);
    if p < n {
        vstd::arithmetic::power2::lemma_pow2_unfold(k + 1);
        lemma_pow2_at_least(2 * p, k + 1, n);
    }
}

/// Padding is idempotent: a length that is already a power of two is not padded,
/// so the padded length pads to itself, and the values of a power-of-two-long
/// image are its pixels unchanged.
pub proof fn lemma_commitment_padding_idempotent(pixels: Seq<u8>, e: nat)
    ensures
        pow2_at_least(1, pow2_at_least(1, pixels.len())) == pow2_at_least(1, pixels.len()),
        pixels.len() == pow2(e) ==> commitment_values(pixels) == pixels.map_values(|v: u8| v as u64),
{
    vstd::arithmetic::power2::lemma2_to64();
    lemma_pow2_at_least(1, 0, pixels.len());
    let n = pow2_at_least(1, pixels.len());
    let k = choose|k: nat| pow2(k) == n;
    lemma_pow2_at_least_fixed(0, k);
    if pixels.len() == pow2(e) {
        lemma_pow2_at_least_fixed(0, e);
        assert(commitment_values(pixels) =~= pixels.map_values(|v: u8| v as u64));
    }
}

/// Doubling from `2^j` up to a power of two `2^k` (with `j <= k`) stops exactly there.
proof fn lemma_pow2_at_least_fixed(j: nat, k: nat)
    requires
        j <= k,
    ensures
        pow2_at_least(pow2(j), pow2(k)) == pow2(k),
    decreases k - j,
{
    vstd::arithmetic::power2::lemma_pow2_pos(j);
    if j < k {
        vstd::arithmetic::power2::lemma_pow2_strictly_increases(j, k);
        vstd::arithmetic::power2::lemma_pow2_unfold(j + 1);
        lemma_pow2_at_least_fixed(j + 1, k);
    }
}

/// The values whose polynomial a Mode 2 signer commits to.
pub fn commitment_input(pixels: &[u8]) -> (values: Vec<u64>)
    requires
        pixels@.len() <= usize::MAX / 2 + 1,
    ensures
        values@ == commitment_values(pixels@),
        exists|e: nat| pow2(e) == values@.len(),
        values@.len() >= pixels@.len(),
{
    proof {
        vstd::arithmetic::power2::lemma2_to64();
        lemma_pow2_at_least(1, 0, pixels@.len());
    }
    let n = pixels.len();
    let mut padded: usize = 1;
    while padded < n
        invariant
            n == pixels@.len(),
            n <= usize::MAX / 2 + 1,
            1 <= padded,
            pow2_at_least(padded as nat, n as nat) == pow2_at_least(1, n as nat),
        decreases (if padded < n { n - padded } else { 0 }),
    {
        padded = padded * 2;
    }
    let mut values: Vec<u64> = Vec::with_capacity(padded);
    let mut j: usize = 0;
    while j < padded
        invariant
            n == pixels@.len(),
            padded == pow2_at_least(1, n as nat),
            padded >= n,
            j <= padded,
            values@ =~= commitment_values(pixels@).subrange(0, j as int),
        decreases padded - j,
    {
        if j < n {
            values.push(pixels[j] as u64);
        } else {
            values.push(0);
        }
        j = j + 1;
    }
    values
}

/// What a signer in `mode` hashes: the three channel lattice hashes (Mode 1), or
/// the padded pixel values of all three channels (Mode 2).
pub fn signing_preimage(mode: SigningMode, r_pixels: &[u8], g_pixels: &[u8], b_pixels: &[u8]) -> (pre: HashPreimage)
    requires
        3 * r_pixels@.len() <= usize::MAX,
        r_pixels@.len() + g_pixels@.len() + b_pixels@.len() <= usize::MAX / 2,
    ensures
        match mode {
            SigningMode::LatticePostion => pre matches HashPreimage::Lattice(v) && v@ == lattice_hash(r_pixels@, LATTICE_SEED)
                + lattice_hash(g_pixels@, LATTICE_SEED) + lattice_hash(b_pixels@, LATTICE_SEED),
            SigningMode::PolynomialCommitment => pre matches HashPreimage::Polynomial(v) && v@ == commitment_values(
                r_pixels@ + g_pixels@ + b_pixels@,
            ),
        },
{
    match mode {
        SigningMode::LatticePostion => {
            let lattice_r = compute_lattice_hash(r_pixels, LATTICE_SEED);
            let lattice_g = compute_lattice_hash(g_pixels, LATTICE_SEED);
            let lattice_b = compute_lattice_hash(b_pixels, LATTICE_SEED);
            let mut combined: Vec<u64> = Vec::with_capacity(3 * LATTICE_N);
            combined.extend_from_slice(lattice_r.as_slice());
            combined.extend_from_slice(lattice_g.as_slice());
            combined.extend_from_slice(lattice_b.as_slice());
            HashPreimage::Lattice(combined)
        },
        SigningMode::PolynomialCommitment => {
            let mut all_pixels: Vec<u8> = Vec::with_capacity(3 * r_pixels.len());
            all_pixels.extend_from_slice(r_pixels);
            all_pixels.extend_from_slice(g_pixels);
            all_pixels.extend_from_slice(b_pixels);
            HashPreimage::Polynomial(commitment_input(all_pixels.as_slice()))
        },
    }
}

/// `signed` is the signed image that a signer assembles from the preimage, the
/// digest of the preimage, the image size, the time and the key pair.
pub open spec fn is_assembled_from(
    signed: SignedImage,
    preimage: HashPreimage,
    digest: Seq<u64>,
    width: u32,
    height: u32,
    timestamp: u64,
    private_key: Seq<u8>,
    public_key: Seq<u8>,
    signing_time_ms: u64,
) -> bool {
    &&& signed.metadata.timestamp == timestamp
    &&& signed.metadata.device_id@ == "VerITAS-Demo-Camera-v1"@
    &&& signed.metadata.image_width == width
    &&& signed.metadata.image_height == height
    &&& signed.metadata.color_depth == 8
    &&& signed.public_key@ == public_key
    &&& signed.signing_time_ms == signing_time_ms
    &&& signed.signature@ == sha256_digest(private_key + signed.image_hash@)
    &&& signed.signature@.len() == 32
    &&& signed.image_hash@.len() == 32
    &&& match preimage {
        HashPreimage::Lattice(v) => {
            &&& signed.mode == SigningMode::LatticePostion
            &&& signed.image_hash@ == le_bytes_of(digest)
            &&& signed.lattice_hash == Some(v)
            &&& signed.polynomial_commitment is None
        },
        HashPreimage::Polynomial(_) => {
            &&& signed.mode == SigningMode::PolynomialCommitment
            &&& signed.lattice_hash is None
            &&& signed.polynomial_commitment matches Some(c) && c@ == le_bytes_of(digest)
                && signed.image_hash@ == sha256_digest(c@)
        },
    }
}

/// In both modes the signature is the SHA-256 digest of the private key followed
/// by the signed image hash: in Mode 2 it covers the hash of the commitment, not
/// the commitment itself.
pub proof fn lemma_signature_covers_image_hash(
    signed: SignedImage,
    preimage: HashPreimage,
    digest: Seq<u64>,
    width: u32,
    height: u32,
    timestamp: u64,
    private_key: Seq<u8>,
    public_key: Seq<u8>,
    signing_time_ms: u64,
)
    requires
        is_assembled_from(signed, preimage, digest, width, height, timestamp, private_key, public_key, signing_time_ms),
    ensures
        signed.signature@ == sha256_digest(private_key + signed.image_hash@),
        signed.mode == SigningMode::PolynomialCommitment ==> (signed.polynomial_commitment matches Some(c)
            && signed.signature@ == sha256_digest(private_key + sha256_digest(c@))),
{
}

/// Assemble the signed image once the digest of the preimage is known.
///
/// Mode 1: the image hash is the digest itself, as bytes, and the lattice hash is kept.
/// Mode 2: the digest, as bytes, is the polynomial commitment, and the image hash
/// is the SHA-256 digest of the commitment.
/// In both modes the signature covers the image hash.
pub fn assemble_signed_image(
    preimage: HashPreimage,
    digest: &[u64],
    width: u32,
    height: u32,
    timestamp: u64,
    private_key: &[u8],
    public_key: Vec<u8>,
    signing_time_ms: u64,
) -> (signed: SignedImage)
    requires
        digest@.len() == DIGEST_ELEMS,
    ensures
        is_assembled_from(signed, preimage, digest@, width, height, timestamp, private_key@, public_key@, signing_time_ms),
        signed.signature@ == sha256_digest(private_key@ + signed.image_hash@),
{
    let metadata = ImageMetadata {
        timestamp,
        device_id: String::from_str("VerITAS-Demo-Camera-v1"),
        image_width: width,
        image_height: height,
        color_depth: 8,
    };
    let digest_bytes = hash_out_to_bytes(digest);
    let (mode, image_hash, lattice_hash, polynomial_commitment) = match preimage {
        HashPreimage::Lattice(v) => (SigningMode::LatticePostion, digest_bytes, Some(v), None),
        HashPreimage::Polynomial(_) => {
            let hash = sha256(digest_bytes.as_slice());
            (SigningMode::PolynomialCommitment, hash, None, Some(digest_bytes))
        },
    };
    let signature = sign_hash(image_hash.as_slice(), private_key);
    SignedImage {
        mode,
        metadata,
        image_hash,
        signature,
        public_key,
        lattice_hash,
        polynomial_commitment,
        signing_time_ms,
    }
}

/// Verify a C2PA signature
/// Returns true if the signature is valid: the signed hash is `image_hash`, the
/// signature has the length of a SHA-256 digest, and a public key is present.
pub fn verify_signature(signed_image: &SignedImage, image_hash: &[u8]) -> (valid: bool)
    ensures
        valid == (signed_image.image_hash@ == image_hash@ && signed_image.signature@.len() == 32
            && signed_image.public_key@.len() > 0),
{
    if !crate::support::bytes_equal(signed_image.image_hash.as_slice(), image_hash) {
        return false;
    }
    if signed_image.signature.len() != 32 {
        return false;
    }
    if signed_image.public_key.len() == 0 {
        return false;
    }
    true
}

} // verus!
