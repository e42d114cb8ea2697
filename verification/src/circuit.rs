//! Edit circuits as data.
//!
//! A circuit is a list of gates, each producing one wire (wires are numbered in
//! the order of their gates), a list of constraints over wires, the wires that are
//! registered as public inputs (in order), and the witness values of input wires.
//! A Plonky2 circuit builder realises a plan gate by gate: `Input` is
//! `add_virtual_target`, `MulConst` is `mul_const`, `AddMany` is `add_many`,
//! `AddConst` is `add_const`, `Sub` is `sub`; `Connect` is `connect`,
//! `RangeCheck` is `range_check`.

use vstd::prelude::*;
use vstd::arithmetic::power2::pow2;
use crate::image_io::{pixel_index, lemma_pixel_index_split};

verus! {

/// A gate of an edit circuit; it produces one wire.
pub enum Gate {
    /// A virtual target set by the witness.
    Input,
    /// `c * t`.
    MulConst { c: u64, t: usize },
    /// The sum of the wires in `terms`.
    AddMany { terms: Vec<usize> },
    /// `t + c`.
    AddConst { t: usize, c: u64 },
    /// `a - b`.
    Sub { a: usize, b: usize },
}

/// A gate as a mathematical value.
pub enum GateSpec {
    Input,
    MulConst(u64, usize),
    AddMany(Seq<usize>),
    AddConst(usize, u64),
    Sub(usize, usize),
}

impl View for Gate {
    type V = GateSpec;

    open spec fn view(&self) -> GateSpec {
        match self {
            Gate::Input => GateSpec::Input,
            Gate::MulConst { c, t } => GateSpec::MulConst(*c, *t),
            Gate::AddMany { terms } => GateSpec::AddMany(terms@),
            Gate::AddConst { t, c } => GateSpec::AddConst(*t, *c),
            Gate::Sub { a, b } => GateSpec::Sub(*a, *b),
        }
    }
}

/// A constraint between wires.
#[derive(Debug, Clone, Copy, PartialEq, Eq, Structural)]
pub enum Constraint {
    /// The two wires carry the same value.
    Connect { a: usize, b: usize },
    /// The wire's value is below `2^bits`.
    RangeCheck { t: usize, bits: usize },
}

/// An edit circuit together with its witness.
pub struct CircuitPlan {
    /// Whether the proof is to be zero-knowledge.
    pub zero_knowledge: bool,
    /// Gate `i` produces wire `i`.
    pub gates: Vec<Gate>,
    pub constraints: Vec<Constraint>,
    /// Wires registered as public inputs, in registration order.
    pub public_inputs: Vec<usize>,
    /// Witness value of each wire that the prover sets (by wire number).
    pub witness: Vec<Option<u64>>,
}

/// What proving an edit circuit yields: the proof, its public inputs, and the
/// serialized verifier-only and common circuit data.
pub struct ProofArtifacts {
    pub proof_bytes: Vec<u8>,
    pub public_inputs: Vec<u64>,
    pub verifier_data: Vec<u8>,
    pub common_data: Vec<u8>,
}

/// The gates of a vector, as values.
pub open spec fn gates_view(gates: Seq<Gate>) -> Seq<GateSpec> {
    gates.map_values(|g: Gate| g@)
}

impl CircuitPlan {
    /// The plan's gates, as values.
    pub open spec fn gate_specs(&self) -> Seq<GateSpec> {
        gates_view(self.gates@)
    }
}

/// The blocks `f(0), f(1), ..., f(n - 1)`, one after another.
pub open spec fn concat_blocks<T>(n: nat, f: spec_fn(int) -> Seq<T>) -> Seq<T>
    decreases n,
{
    if n == 0 {
        Seq::empty()
    } else {
        concat_blocks((n - 1) as nat, f) + f(n - 1)
    }
}

/// Appends one gate.
pub fn push_gate(gates: &mut Vec<Gate>, g: Gate)
    ensures
        gates_view(final(gates)@) == gates_view(old(gates)@).push(g@),
{
    let ghost g_view = g@;
    gates.push(g);
    proof {
        assert(gates_view(gates@) =~= gates_view(old(gates)@).push(g_view));
    }
}

/// Appends `n` input gates.
pub fn push_inputs(gates: &mut Vec<Gate>, n: usize)
    ensures
        gates_view(final(gates)@) == gates_view(old(gates)@) + Seq::new(n as nat, |i: int| GateSpec::Input),
{
    let mut i: usize = 0;
    while i < n
        invariant
            i <= n,
            gates_view(gates@) =~= gates_view(old(gates)@) + Seq::new(i as nat, |k: int| GateSpec::Input),
        decreases n - i,
    {
        push_gate(gates, Gate::Input);
        i = i + 1;
    }
}


/// Index of the `k`-th pixel (row-major) of the `rw`-wide region whose top-left
/// pixel is (`x0`, `y0`), in a channel of width `w`.
pub open spec fn region_index(w: int, x0: int, y0: int, rw: int, k: int) -> int {
    pixel_index(w, x0 + k % rw, y0 + k / rw)
}

/// `ch[i]` where `i` is in range, 0 elsewhere.
pub open spec fn get_or_zero(ch: Seq<u8>, i: int) -> u8 {
    if 0 <= i < ch.len() { ch[i] } else { 0 }
}

/// The `k`-th region pixel sits at (`x0 + col`, `y0 + row`) when `k = row * rw + col`.
pub proof fn lemma_region_index(w: int, x0: int, y0: int, rw: int, row: int, col: int)
    requires
        0 <= col < rw,
    ensures
        region_index(w, x0, y0, rw, row * rw + col) == pixel_index(w, x0 + col, y0 + row),
{
    lemma_pixel_index_split(rw, col, row);
}

/// Unfolds one block of `concat_blocks`.
pub proof fn lemma_concat_blocks_step<T>(n: nat, f: spec_fn(int) -> Seq<T>)
    ensures
        concat_blocks(n + 1, f) == concat_blocks(n, f) + f(n as int),
{
}

/// `ch[i]` where `i` is in range, 0 elsewhere.
pub fn get_or_zero_exec(ch: &[u8], i: usize) -> (v: u8)
    ensures
        v == get_or_zero(ch@, i as int),
{
    if i < ch.len() { ch[i] } else { 0 }
}



/// Order of the Goldilocks field, in which the circuits compute.
pub open spec fn field_order() -> int {
    0xFFFF_FFFF_0000_0001
}

/// Value of wire `i` under the witness: an input wire carries its witness value
/// (0 where unset); every other wire is computed from earlier wires modulo the
/// field order.
pub open spec fn wire_value(gates: Seq<GateSpec>, witness: Seq<Option<u64>>, i: int) -> int
    decreases i, 1int, 0int,
{
    if 0 <= i < gates.len() {
        match gates[i] {
            GateSpec::Input => if i < witness.len() && witness[i] is Some {
                (witness[i]->0 as int) % field_order()
            } else {
                0
            },
            GateSpec::MulConst(c, t) => if t < i {
                (c * wire_value(gates, witness, t as int)) % field_order()
            } else {
                0
            },
            GateSpec::AddMany(ts) => terms_sum(gates, witness, ts, i, ts.len() as int) % field_order(),
            GateSpec::AddConst(t, c) => if t < i {
                (wire_value(gates, witness, t as int) + c) % field_order()
            } else {
                0
            },
            GateSpec::Sub(a, b) => if a < i && b < i {
                (wire_value(gates, witness, a as int) - wire_value(gates, witness, b as int)) % field_order()
            } else {
                0
            },
        }
    } else {
        0
    }
}

/// Sum of the values of the first `n` wires of `ts`, each earlier than wire `i`.
pub open spec fn terms_sum(gates: Seq<GateSpec>, witness: Seq<Option<u64>>, ts: Seq<usize>, i: int, n: int) -> int
    decreases i, 0int, n,
{
    if n <= 0 || i < 0 {
        0
    } else {
        terms_sum(gates, witness, ts, i, n - 1) + if ts[n - 1] < i {
            wire_value(gates, witness, ts[n - 1] as int)
        } else {
            0
        }
    }
}

/// Every input wire has a witness value.
pub open spec fn witness_complete(gates: Seq<GateSpec>, witness: Seq<Option<u64>>) -> bool {
    &&& witness.len() == gates.len()
    &&& forall|i: int| 0 <= i < gates.len() && gates[i] is Input ==> #[trigger] witness[i] is Some
}

/// The constraint holds under the witness.
pub open spec fn constraint_holds(gates: Seq<GateSpec>, witness: Seq<Option<u64>>, c: Constraint) -> bool {
    match c {
        Constraint::Connect { a, b } => wire_value(gates, witness, a as int) == wire_value(gates, witness, b as int),
        Constraint::RangeCheck { t, bits } => wire_value(gates, witness, t as int) < pow2(bits as nat),
    }
}

/// The witness sets every input and satisfies every constraint: a proof can be made.
pub open spec fn satisfied(gates: Seq<GateSpec>, witness: Seq<Option<u64>>, constraints: Seq<Constraint>) -> bool {
    &&& witness_complete(gates, witness)
    &&& forall|j: int| 0 <= j < constraints.len() ==> #[trigger] constraint_holds(gates, witness, constraints[j])
}

/// The values of the public wires under the witness, in order.
pub open spec fn public_values(gates: Seq<GateSpec>, witness: Seq<Option<u64>>, publics: Seq<usize>) -> Seq<int> {
    publics.map_values(|p: usize| wire_value(gates, witness, p as int))
}

/// Blocks of equal length `k`: element `j` of block `i` sits at `k * i + j`.
pub proof fn lemma_concat_uniform<T>(n: nat, f: spec_fn(int) -> Seq<T>, k: int)
    requires
        k > 0,
        forall|i: int| 0 <= i < n ==> #[trigger] f(i).len() == k,
    ensures
        concat_blocks(n, f).len() == k * n,
        forall|i: int, j: int| 0 <= i < n && 0 <= j < k ==> concat_blocks(n, f)[k * i + j] == #[trigger] f(i)[j],
    decreases n,
{
    if n == 0 {
        assert(k * n == 0) by (nonlinear_arith)
            requires
                n == 0,
        ;
    } else {
        lemma_concat_uniform((n - 1) as nat, f, k);
        assert(k * (n - 1) + k == k * n) by (nonlinear_arith);
        assert(f(n - 1).len() == k);
        assert(concat_blocks(n, f).len() == k * n);
        assert forall|i: int, j: int| 0 <= i < n && 0 <= j < k implies concat_blocks(n, f)[k * i + j] == #[trigger] f(i)[j] by {
            if i < n - 1 {
                assert(k * i + j < k * (n - 1)) by (nonlinear_arith)
                    requires
                        0 <= i < n - 1,
                        0 <= j < k,
                ;
            } else {
                assert(k * i == k * (n - 1));
            }
            assert(0 <= k * i) by (nonlinear_arith)
                requires
                    0 <= i,
                    k > 0,
            ;
        }
    }
}


/// Sum of `ch` at the first `m` indices of `ts` (0 for an index past its end).
pub open spec fn indexed_sum(ch: Seq<u8>, ts: Seq<usize>, m: int) -> int
    decreases m,
{
    if m <= 0 {
        0
    } else {
        indexed_sum(ch, ts, m - 1) + get_or_zero(ch, ts[m - 1] as int)
    }
}

/// Summing wires that carry channel values sums the channel values.
pub proof fn lemma_terms_sum_of_inputs(
    gates: Seq<GateSpec>,
    witness: Seq<Option<u64>>,
    ts: Seq<usize>,
    i: int,
    m: int,
    ch: Seq<u8>,
)
    requires
        0 <= m <= ts.len(),
        forall|j: int| 0 <= j < ts.len() ==> #[trigger] ts[j] < i,
        forall|j: int| 0 <= j < ts.len() ==> #[trigger] wire_value(gates, witness, ts[j] as int)
            == get_or_zero(ch, ts[j] as int),
    ensures
        terms_sum(gates, witness, ts, i, m) == indexed_sum(ch, ts, m),
    decreases m,
{
    if m > 0 {
        lemma_terms_sum_of_inputs(gates, witness, ts, i, m - 1, ch);
        assert(ts[m - 1] < i);
        assert(wire_value(gates, witness, ts[m - 1] as int) == get_or_zero(ch, ts[m - 1] as int));
    }
}


/// The public values of a concatenation of blocks are the concatenation of the
/// blocks' public values.
pub proof fn lemma_public_values_concat(
    gates: Seq<GateSpec>,
    witness: Seq<Option<u64>>,
    m: nat,
    fp: spec_fn(int) -> Seq<usize>,
    fv: spec_fn(int) -> Seq<int>,
)
    requires
        forall|k: int| 0 <= k < m ==> public_values(gates, witness, #[trigger] fp(k)) == fv(k),
    ensures
        public_values(gates, witness, concat_blocks(m, fp)) == concat_blocks(m, fv),
    decreases m,
{
    if m > 0 {
        lemma_public_values_concat(gates, witness, (m - 1) as nat, fp, fv);
        let a = concat_blocks((m - 1) as nat, fp);
        let b = fp(m - 1);
        assert(public_values(gates, witness, a + b) =~= public_values(gates, witness, a) + public_values(gates, witness, b));
    }
}


/// Blocks that agree give the same concatenation.
pub proof fn lemma_concat_blocks_congruent<T>(m: nat, f: spec_fn(int) -> Seq<T>, g: spec_fn(int) -> Seq<T>)
    requires
        forall|k: int| 0 <= k < m ==> #[trigger] f(k) == g(k),
    ensures
        concat_blocks(m, f) == concat_blocks(m, g),
    decreases m,
{
    if m > 0 {
        lemma_concat_blocks_congruent((m - 1) as nat, f, g);
        assert(f(m - 1) == g(m - 1));
    }
}

} // verus!
