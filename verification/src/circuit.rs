//! A boolean-circuit description of Keccak-256: 64-bit words of wire
//! handles, the round function as XOR/AND-NOT wiring, and the sponge loop
//! over padded input bits.  The circuit is a plain gate arena with copy
//! constraints; a proving backend lowers it, and [`eval_wires`] gives its
//! reference semantics for tests.
use vstd::prelude::*;

verus! {

/// How one wire's value is defined.
#[derive(Clone, Copy, Debug, PartialEq, Eq, Structural)]
pub enum Gate {
    /// A witness input wire, set externally.
    Virtual,
    /// A constant wire.
    Const(bool),
    /// XOR of two earlier wires.
    Xor(usize, usize),
    /// First operand AND NOT second operand, both earlier wires.
    AndNot(usize, usize),
}

/// A gate's operands come strictly before it.
pub open spec fn gate_deps_ok(g: Gate, i: int) -> bool {
    match g {
        Gate::Xor(a, b) => a < i && b < i,
        Gate::AndNot(a, b) => a < i && b < i,
        _ => true,
    }
}

/// The circuit under construction: its gates and copy constraints.
pub struct GateCircuit {
    /// The gates; a wire is an index into this list.
    pub gates: Vec<Gate>,
    /// Pairs of wires constrained to carry equal values.
    pub connects: Vec<(usize, usize)>,
}

/// The value wire `i` carries under an assignment `w` of the virtual wires
/// (indexed like the gates; only entries at virtual wires are read).
pub open spec fn gate_value(gates: Seq<Gate>, w: Seq<bool>, i: int) -> bool
    decreases i,
{
    if 0 <= i < gates.len() {
        match gates[i] {
            Gate::Virtual => {
                if i < w.len() {
                    w[i]
                } else {
                    false
                }
            },
            Gate::Const(b) => b,
            Gate::Xor(a, b) => {
                if a < i && b < i {
                    gate_value(gates, w, a as int) != gate_value(gates, w, b as int)
                } else {
                    false
                }
            },
            Gate::AndNot(a, b) => {
                if a < i && b < i {
                    gate_value(gates, w, a as int) && !gate_value(gates, w, b as int)
                } else {
                    false
                }
            },
        }
    } else {
        false
    }
}

/// The new circuit keeps the old one as a prefix.
pub open spec fn extends(new: GateCircuit, prev: GateCircuit) -> bool {
    prev.gates@.is_prefix_of(new.gates@) && prev.connects@.is_prefix_of(new.connects@)
}

/// A wire's value does not change when the circuit grows: `gate_value`
/// reads only the wire's own gate and earlier ones, which a prefix keeps.
pub proof fn lemma_gate_value_prefix(g1: Seq<Gate>, g2: Seq<Gate>, w: Seq<bool>, i: int)
    requires
        g1.is_prefix_of(g2),
        0 <= i < g1.len(),
    ensures
        gate_value(g2, w, i) == gate_value(g1, w, i),
    decreases i,
{
    assert(g2[i] == g2.subrange(0, g1.len() as int)[i]);
    assert(g1[i] == g2[i]);
    match g1[i] {
        Gate::Xor(a, b) => {
            if a < i && b < i {
                lemma_gate_value_prefix(g1, g2, w, a as int);
                lemma_gate_value_prefix(g1, g2, w, b as int);
            }
        },
        Gate::AndNot(a, b) => {
            if a < i && b < i {
                lemma_gate_value_prefix(g1, g2, w, a as int);
                lemma_gate_value_prefix(g1, g2, w, b as int);
            }
        },
        _ => {},
    }
}

impl GateCircuit {
    /// Every gate depends only on earlier wires and every copy constraint
    /// names existing wires.
    pub open spec fn wf(self) -> bool {
        &&& forall|i: int| 0 <= i < self.gates@.len() ==> gate_deps_ok(#[trigger] self.gates@[i], i)
        &&& forall|k: int|
            0 <= k < self.connects@.len() ==> (#[trigger] self.connects@[k]).0 < self.gates@.len()
                && self.connects@[k].1 < self.gates@.len()
    }

    /// An empty circuit.
    pub fn new() -> (r: GateCircuit)
        ensures
            r.wf(),
            r.gates@.len() == 0,
            r.connects@.len() == 0,
    {
        GateCircuit { gates: Vec::new(), connects: Vec::new() }
    }

    /// Number of gates so far.
    pub fn num_gates(&self) -> (n: usize)
        ensures
            n == self.gates@.len(),
    {
        self.gates.len()
    }

    /// Add a fresh witness input wire.
    pub fn add_virtual_bool(&mut self) -> (w: usize)
        requires
            old(self).wf(),
        ensures
            final(self).wf(),
            extends(*final(self), *old(self)),
            final(self).gates@ == old(self).gates@.push(Gate::Virtual),
            final(self).connects@ == old(self).connects@,
            w == old(self).gates@.len(),
    {
        let w = self.gates.len();
        self.gates.push(Gate::Virtual);
        w
    }

    /// Add a constant wire.
    pub fn constant_bool(&mut self, b: bool) -> (w: usize)
        requires
            old(self).wf(),
        ensures
            final(self).wf(),
            extends(*final(self), *old(self)),
            final(self).gates@ == old(self).gates@.push(Gate::Const(b)),
            final(self).connects@ == old(self).connects@,
            w == old(self).gates@.len(),
    {
        let w = self.gates.len();
        self.gates.push(Gate::Const(b));
        w
    }

    /// Add an XOR gate over two existing wires.
    pub fn xor_gate(&mut self, a: usize, b: usize) -> (w: usize)
        requires
            old(self).wf(),
            a < old(self).gates@.len(),
            b < old(self).gates@.len(),
        ensures
            final(self).wf(),
            extends(*final(self), *old(self)),
            final(self).gates@ == old(self).gates@.push(Gate::Xor(a, b)),
            final(self).connects@ == old(self).connects@,
            w == old(self).gates@.len(),
    {
        let w = self.gates.len();
        self.gates.push(Gate::Xor(a, b));
        w
    }

    /// Add an AND-NOT gate over two existing wires.
    pub fn and_not_gate(&mut self, a: usize, b: usize) -> (w: usize)
        requires
            old(self).wf(),
            a < old(self).gates@.len(),
            b < old(self).gates@.len(),
        ensures
            final(self).wf(),
            extends(*final(self), *old(self)),
            final(self).gates@ == old(self).gates@.push(Gate::AndNot(a, b)),
            final(self).connects@ == old(self).connects@,
            w == old(self).gates@.len(),
    {
        let w = self.gates.len();
        self.gates.push(Gate::AndNot(a, b));
        w
    }

    /// Constrain two existing wires to carry equal values.
    pub fn connect_wires(&mut self, x: usize, y: usize)
        requires
            old(self).wf(),
            x < old(self).gates@.len(),
            y < old(self).gates@.len(),
        ensures
            final(self).wf(),
            extends(*final(self), *old(self)),
            final(self).gates@ == old(self).gates@,
            final(self).connects@ == old(self).connects@.push((x, y)),
    {
        self.connects.push((x, y));
    }
}

/// A partial witness: explicit boolean assignments to chosen wires.
pub struct Witness {
    /// The recorded `(wire, value)` pairs.
    pub assignments: Vec<(usize, bool)>,
}

impl Witness {
    /// An empty witness.
    pub fn new() -> (r: Witness)
        ensures
            r.assignments@.len() == 0,
    {
        Witness { assignments: Vec::new() }
    }

    /// Record one wire's value.
    pub fn set_bool(&mut self, wire: usize, value: bool)
        ensures
            final(self).assignments@ == old(self).assignments@.push((wire, value)),
    {
        self.assignments.push((wire, value));
    }
}

/// A 64-bit word of wires, least significant bit first.
#[derive(Clone, Debug)]
pub struct U64Target {
    /// The 64 wires.
    pub bits: Vec<usize>,
}

/// All 64 wires of the word exist in a circuit of `n` gates.
pub open spec fn word_wires_ok(w: U64Target, n: int) -> bool {
    w.bits@.len() == 64 && forall|i: int| 0 <= i < 64 ==> (#[trigger] w.bits@[i]) < n
}

impl U64Target {
    /// A fresh word of 64 witness input wires, allocated consecutively at
    /// the end of the circuit.
    pub fn new(builder: &mut GateCircuit) -> (r: U64Target)
        requires
            old(builder).wf(),
        ensures
            final(builder).wf(),
            extends(*final(builder), *old(builder)),
            word_wires_ok(r, final(builder).gates@.len() as int),
            final(builder).gates@.len() == old(builder).gates@.len() + 64,
            final(builder).connects@ == old(builder).connects@,
            forall|i: int|
                0 <= i < 64 ==> (#[trigger] r.bits@[i]) == old(builder).gates@.len() + i,
            forall|i: int|
                0 <= i < 64 ==> (#[trigger] final(builder).gates@[old(builder).gates@.len() + i])
                    == Gate::Virtual,
    {
        let mut bits: Vec<usize> = Vec::new();
        let mut i: usize = 0;
        while i < 64
            invariant
                builder.wf(),
                extends(*builder, *old(builder)),
                i <= 64,
                bits@.len() == i,
                builder.gates@.len() == old(builder).gates@.len() + i,
                builder.connects@ == old(builder).connects@,
                forall|k: int|
                    0 <= k < i ==> (#[trigger] bits@[k]) == old(builder).gates@.len() + k,
                forall|k: int|
                    0 <= k < i ==> (#[trigger] builder.gates@[old(builder).gates@.len() + k])
                        == Gate::Virtual,
                forall|k: int| 0 <= k < i ==> (#[trigger] bits@[k]) < builder.gates@.len(),
            decreases 64 - i,
        {
            let w = builder.add_virtual_bool();
            bits.push(w);
            i += 1;
        }
        U64Target { bits }
    }

    /// Build a word from the first 64 of a list of wires.
    pub fn from(bits: Vec<usize>, n: usize) -> (r: U64Target)
        requires
            bits@.len() >= 64,
            forall|i: int| 0 <= i < bits@.len() ==> (#[trigger] bits@[i]) < n,
        ensures
            word_wires_ok(r, n as int),
            forall|i: int| 0 <= i < 64 ==> r.bits@[i] == bits@[i],
    {
        let mut out: Vec<usize> = Vec::new();
        let mut i: usize = 0;
        while i < 64
            invariant
                bits@.len() >= 64,
                forall|k: int| 0 <= k < bits@.len() ==> (#[trigger] bits@[k]) < n,
                i <= 64,
                out@.len() == i,
                forall|k: int| 0 <= k < i ==> out@[k] == bits@[k],
                forall|k: int| 0 <= k < i ==> (#[trigger] out@[k]) < n,
            decreases 64 - i,
        {
            out.push(bits[i]);
            i += 1;
        }
        U64Target { bits: out }
    }

    /// Record the 64 bit values of this word.
    pub fn set_witness(&self, bits: &Vec<bool>, pw: &mut Witness)
        requires
            bits@.len() == 64,
            self.bits@.len() == 64,
        ensures
            final(pw).assignments@.len() == old(pw).assignments@.len() + 64,
            forall|k: int|
                0 <= k < old(pw).assignments@.len() ==> final(pw).assignments@[k] == old(
                    pw,
                ).assignments@[k],
            forall|k: int|
                0 <= k < 64 ==> final(pw).assignments@[old(pw).assignments@.len() + k] == (
                self.bits@[k],
                bits@[k],
                ),
    {
        let mut i: usize = 0;
        while i < 64
            invariant
                bits@.len() == 64,
                self.bits@.len() == 64,
                i <= 64,
                pw.assignments@.len() == old(pw).assignments@.len() + i,
                forall|k: int|
                    0 <= k < old(pw).assignments@.len() ==> pw.assignments@[k] == old(
                        pw,
                    ).assignments@[k],
                forall|k: int|
                    0 <= k < i ==> pw.assignments@[old(pw).assignments@.len() + k] == (
                    self.bits@[k],
                    bits@[k],
                    ),
            decreases 64 - i,
        {
            pw.set_bool(self.bits[i], bits[i]);
            i += 1;
        }
    }

    /// Constrain this word's wires equal to another word's, bit by bit: the
    /// appended copy-constraint pairs are exactly the two words' wires.
    pub fn connect(&self, other: &U64Target, builder: &mut GateCircuit)
        requires
            old(builder).wf(),
            word_wires_ok(*self, old(builder).gates@.len() as int),
            word_wires_ok(*other, old(builder).gates@.len() as int),
        ensures
            final(builder).wf(),
            extends(*final(builder), *old(builder)),
            final(builder).gates@ == old(builder).gates@,
            final(builder).connects@ == old(builder).connects@ + Seq::new(
                64,
                |i: int| (self.bits@[i], other.bits@[i]),
            ),
    {
        let mut i: usize = 0;
        while i < 64
            invariant
                builder.wf(),
                extends(*builder, *old(builder)),
                builder.gates@ == old(builder).gates@,
                word_wires_ok(*self, builder.gates@.len() as int),
                word_wires_ok(*other, builder.gates@.len() as int),
                i <= 64,
                builder.connects@.len() == old(builder).connects@.len() + i,
                forall|k: int|
                    0 <= k < old(builder).connects@.len() ==> (#[trigger] builder.connects@[k])
                        == old(builder).connects@[k],
                forall|k: int|
                    0 <= k < i ==> (#[trigger] builder.connects@[old(builder).connects@.len()
                        + k]) == (self.bits@[k], other.bits@[k]),
            decreases 64 - i,
        {
            builder.connect_wires(self.bits[i], other.bits[i]);
            i += 1;
        }
        proof {
            let appended = Seq::new(64, |i: int| (self.bits@[i], other.bits@[i]));
            assert forall|j: int|
                0 <= j < builder.connects@.len() implies builder.connects@[j] == (old(
                builder,
            ).connects@ + appended)[j] by {
                if j >= old(builder).connects@.len() {
                    let k = j - old(builder).connects@.len();
                    assert(builder.connects@[old(builder).connects@.len() + k] == (
                        self.bits@[k],
                        other.bits@[k],
                    ));
                }
            }
            assert(builder.connects@ =~= old(builder).connects@ + appended);
        }
    }

    /// Bitwise XOR with another word, as 64 fresh gates: under every
    /// assignment, each result wire carries the XOR of the operand wires.
    pub fn xor(&self, other: &U64Target, builder: &mut GateCircuit) -> (r: U64Target)
        requires
            old(builder).wf(),
            word_wires_ok(*self, old(builder).gates@.len() as int),
            word_wires_ok(*other, old(builder).gates@.len() as int),
        ensures
            final(builder).wf(),
            extends(*final(builder), *old(builder)),
            final(builder).connects@ == old(builder).connects@,
            word_wires_ok(r, final(builder).gates@.len() as int),
            word_wires_ok(*self, final(builder).gates@.len() as int),
            word_wires_ok(*other, final(builder).gates@.len() as int),
            forall|w: Seq<bool>, i: int|
                0 <= i < 64 ==> #[trigger] gate_value(final(builder).gates@, w, r.bits@[i] as int)
                    == (gate_value(final(builder).gates@, w, self.bits@[i] as int) != gate_value(
                    final(builder).gates@,
                    w,
                    other.bits@[i] as int,
                )),
    {
        let mut bits: Vec<usize> = Vec::new();
        let mut i: usize = 0;
        while i < 64
            invariant
                builder.wf(),
                extends(*builder, *old(builder)),
                builder.connects@ == old(builder).connects@,
                old(builder).gates@.len() <= builder.gates@.len(),
                word_wires_ok(*self, old(builder).gates@.len() as int),
                word_wires_ok(*other, old(builder).gates@.len() as int),
                i <= 64,
                bits@.len() == i,
                forall|k: int| 0 <= k < i ==> (#[trigger] bits@[k]) < builder.gates@.len(),
                forall|w: Seq<bool>, k: int|
                    0 <= k < i ==> #[trigger] gate_value(builder.gates@, w, bits@[k] as int) == (
                    gate_value(builder.gates@, w, self.bits@[k] as int) != gate_value(
                        builder.gates@,
                        w,
                        other.bits@[k] as int,
                    )),
            decreases 64 - i,
        {
            let ghost pre = builder.gates@;
            let wnew = builder.xor_gate(self.bits[i], other.bits[i]);
            proof {
                assert forall|w: Seq<bool>, k: int|
                    0 <= k < i implies #[trigger] gate_value(builder.gates@, w, bits@[k] as int)
                    == (gate_value(builder.gates@, w, self.bits@[k] as int) != gate_value(
                    builder.gates@,
                    w,
                    other.bits@[k] as int,
                )) by {
                    lemma_gate_value_prefix(pre, builder.gates@, w, bits@[k] as int);
                    lemma_gate_value_prefix(pre, builder.gates@, w, self.bits@[k] as int);
                    lemma_gate_value_prefix(pre, builder.gates@, w, other.bits@[k] as int);
                }
                assert forall|w: Seq<bool>|
                    #[trigger] gate_value(builder.gates@, w, wnew as int) == (gate_value(
                    builder.gates@,
                    w,
                    self.bits@[i as int] as int,
                ) != gate_value(builder.gates@, w, other.bits@[i as int] as int)) by {
                    assert(builder.gates@[wnew as int] == Gate::Xor(
                        self.bits@[i as int],
                        other.bits@[i as int],
                    ));
                }
            }
            bits.push(wnew);
            i += 1;
        }
        U64Target { bits }
    }

    /// This word AND NOT the other word, as 64 fresh gates: under every
    /// assignment, each result wire carries `self AND NOT other`.
    pub fn and_not(&self, other: &U64Target, builder: &mut GateCircuit) -> (r: U64Target)
        requires
            old(builder).wf(),
            word_wires_ok(*self, old(builder).gates@.len() as int),
            word_wires_ok(*other, old(builder).gates@.len() as int),
        ensures
            final(builder).wf(),
            extends(*final(builder), *old(builder)),
            final(builder).connects@ == old(builder).connects@,
            word_wires_ok(r, final(builder).gates@.len() as int),
            word_wires_ok(*self, final(builder).gates@.len() as int),
            word_wires_ok(*other, final(builder).gates@.len() as int),
            forall|w: Seq<bool>, i: int|
                0 <= i < 64 ==> #[trigger] gate_value(final(builder).gates@, w, r.bits@[i] as int)
                    == (gate_value(final(builder).gates@, w, self.bits@[i] as int) && !gate_value(
                    final(builder).gates@,
                    w,
                    other.bits@[i] as int,
                )),
    {
        let mut bits: Vec<usize> = Vec::new();
        let mut i: usize = 0;
        while i < 64
            invariant
                builder.wf(),
                extends(*builder, *old(builder)),
                builder.connects@ == old(builder).connects@,
                old(builder).gates@.len() <= builder.gates@.len(),
                word_wires_ok(*self, old(builder).gates@.len() as int),
                word_wires_ok(*other, old(builder).gates@.len() as int),
                i <= 64,
                bits@.len() == i,
                forall|k: int| 0 <= k < i ==> (#[trigger] bits@[k]) < builder.gates@.len(),
                forall|w: Seq<bool>, k: int|
                    0 <= k < i ==> #[trigger] gate_value(builder.gates@, w, bits@[k] as int) == (
                    gate_value(builder.gates@, w, self.bits@[k] as int) && !gate_value(
                        builder.gates@,
                        w,
                        other.bits@[k] as int,
                    )),
            decreases 64 - i,
        {
            let ghost pre = builder.gates@;
            let wnew = builder.and_not_gate(self.bits[i], other.bits[i]);
            proof {
                assert forall|w: Seq<bool>, k: int|
                    0 <= k < i implies #[trigger] gate_value(builder.gates@, w, bits@[k] as int)
                    == (gate_value(builder.gates@, w, self.bits@[k] as int) && !gate_value(
                    builder.gates@,
                    w,
                    other.bits@[k] as int,
                )) by {
                    lemma_gate_value_prefix(pre, builder.gates@, w, bits@[k] as int);
                    lemma_gate_value_prefix(pre, builder.gates@, w, self.bits@[k] as int);
                    lemma_gate_value_prefix(pre, builder.gates@, w, other.bits@[k] as int);
                }
                assert forall|w: Seq<bool>|
                    #[trigger] gate_value(builder.gates@, w, wnew as int) == (gate_value(
                    builder.gates@,
                    w,
                    self.bits@[i as int] as int,
                ) && !gate_value(builder.gates@, w, other.bits@[i as int] as int)) by {
                    assert(builder.gates@[wnew as int] == Gate::AndNot(
                        self.bits@[i as int],
                        other.bits@[i as int],
                    ));
                }
            }
            bits.push(wnew);
            i += 1;
        }
        U64Target { bits }
    }

    /// Rotate left by `n` bits: pure re-wiring, no new gates.
    pub fn rotl(&self, n: usize) -> (r: U64Target)
        requires
            self.bits@.len() == 64,
            n < 64,
        ensures
            r.bits@.len() == 64,
            forall|i: int| 0 <= i < 64 ==> r.bits@[i] == self.bits@[(i + 64 - n) % 64],
    {
        let mut bits: Vec<usize> = Vec::new();
        let mut i: usize = 0;
        while i < 64
            invariant
                self.bits@.len() == 64,
                n < 64,
                i <= 64,
                bits@.len() == i,
                forall|k: int| 0 <= k < i ==> bits@[k] == self.bits@[(k + 64 - n) % 64],
            decreases 64 - i,
        {
            bits.push(self.bits[(i + 64 - n) % 64]);
            i += 1;
        }
        U64Target { bits }
    }

    /// XOR a 64-bit constant into the word: bits under a set constant bit
    /// are inverted through a shared constant-true wire, so under every
    /// assignment each result wire carries the operand bit XOR the
    /// constant's bit.
    pub fn xor_const(&self, rc: u64, builder: &mut GateCircuit) -> (r: U64Target)
        requires
            old(builder).wf(),
            word_wires_ok(*self, old(builder).gates@.len() as int),
        ensures
            final(builder).wf(),
            extends(*final(builder), *old(builder)),
            final(builder).connects@ == old(builder).connects@,
            word_wires_ok(r, final(builder).gates@.len() as int),
            forall|w: Seq<bool>, i: int|
                0 <= i < 64 ==> #[trigger] gate_value(final(builder).gates@, w, r.bits@[i] as int)
                    == (gate_value(final(builder).gates@, w, self.bits@[i] as int) != ((rc >> (i
                    as u64)) & 1 == 1)),
    {
        let one = builder.constant_bool(true);
        let mut bits: Vec<usize> = Vec::new();
        let mut i: usize = 0;
        while i < 64
            invariant
                builder.wf(),
                extends(*builder, *old(builder)),
                builder.connects@ == old(builder).connects@,
                old(builder).gates@.len() < builder.gates@.len(),
                word_wires_ok(*self, old(builder).gates@.len() as int),
                one < builder.gates@.len(),
                builder.gates@[one as int] == Gate::Const(true),
                i <= 64,
                bits@.len() == i,
                forall|k: int| 0 <= k < i ==> (#[trigger] bits@[k]) < builder.gates@.len(),
                forall|w: Seq<bool>, k: int|
                    0 <= k < i ==> #[trigger] gate_value(builder.gates@, w, bits@[k] as int) == (
                    gate_value(builder.gates@, w, self.bits@[k] as int) != ((rc >> (k as u64)) & 1
                        == 1)),
            decreases 64 - i,
        {
            let ghost pre = builder.gates@;
            if (rc >> (i as u64)) & 1 == 1 {
                let w = builder.xor_gate(self.bits[i], one);
                proof {
                    assert forall|w2: Seq<bool>, k: int|
                        0 <= k < i implies #[trigger] gate_value(
                        builder.gates@,
                        w2,
                        bits@[k] as int,
                    ) == (gate_value(builder.gates@, w2, self.bits@[k] as int) != ((rc >> (k
                        as u64)) & 1 == 1)) by {
                        lemma_gate_value_prefix(pre, builder.gates@, w2, bits@[k] as int);
                        lemma_gate_value_prefix(pre, builder.gates@, w2, self.bits@[k] as int);
                    }
                    assert forall|w2: Seq<bool>|
                        #[trigger] gate_value(builder.gates@, w2, w as int) == (gate_value(
                        builder.gates@,
                        w2,
                        self.bits@[i as int] as int,
                    ) != ((rc >> (i as u64)) & 1 == 1)) by {
                        assert(builder.gates@[w as int] == Gate::Xor(
                            self.bits@[i as int],
                            one,
                        ));
                        assert(builder.gates@[one as int] == Gate::Const(true));
                        assert(gate_value(builder.gates@, w2, one as int) == true);
                    }
                }
                bits.push(w);
            } else {
                bits.push(self.bits[i]);
            }
            i += 1;
        }
        U64Target { bits }
    }
}

/// The rotation offset of lane `i` in the rho step.
pub open spec fn spec_rotr(i: int) -> usize {
    if i == 0 {
        0
    } else if i == 1 {
        1
    } else if i == 2 {
        62
    } else if i == 3 {
        28
    } else if i == 4 {
        27
    } else if i == 5 {
        36
    } else if i == 6 {
        44
    } else if i == 7 {
        6
    } else if i == 8 {
        55
    } else if i == 9 {
        20
    } else if i == 10 {
        3
    } else if i == 11 {
        10
    } else if i == 12 {
        43
    } else if i == 13 {
        25
    } else if i == 14 {
        39
    } else if i == 15 {
        41
    } else if i == 16 {
        45
    } else if i == 17 {
        15
    } else if i == 18 {
        21
    } else if i == 19 {
        8
    } else if i == 20 {
        18
    } else if i == 21 {
        2
    } else if i == 22 {
        61
    } else if i == 23 {
        56
    } else {
        14
    }
}

/// The rotation offsets of the 25 lanes.
pub fn rotr_offset(i: usize) -> (r: usize)
    requires
        i < 25,
    ensures
        r == spec_rotr(i as int),
        r < 64,
{
    if i == 0 {
        0
    } else if i == 1 {
        1
    } else if i == 2 {
        62
    } else if i == 3 {
        28
    } else if i == 4 {
        27
    } else if i == 5 {
        36
    } else if i == 6 {
        44
    } else if i == 7 {
        6
    } else if i == 8 {
        55
    } else if i == 9 {
        20
    } else if i == 10 {
        3
    } else if i == 11 {
        10
    } else if i == 12 {
        43
    } else if i == 13 {
        25
    } else if i == 14 {
        39
    } else if i == 15 {
        41
    } else if i == 16 {
        45
    } else if i == 17 {
        15
    } else if i == 18 {
        21
    } else if i == 19 {
        8
    } else if i == 20 {
        18
    } else if i == 21 {
        2
    } else if i == 22 {
        61
    } else if i == 23 {
        56
    } else {
        14
    }
}

/// The round constant of round `i` of Keccak-f[1600].
pub open spec fn spec_round_constant(i: int) -> u64 {
    if i == 0 {
        1u64
    } else if i == 1 {
        0x8082u64
    } else if i == 2 {
        0x800000000000808au64
    } else if i == 3 {
        0x8000000080008000u64
    } else if i == 4 {
        0x808bu64
    } else if i == 5 {
        0x80000001u64
    } else if i == 6 {
        0x8000000080008081u64
    } else if i == 7 {
        0x8000000000008009u64
    } else if i == 8 {
        0x8au64
    } else if i == 9 {
        0x88u64
    } else if i == 10 {
        0x80008009u64
    } else if i == 11 {
        0x8000000au64
    } else if i == 12 {
        0x8000808bu64
    } else if i == 13 {
        0x800000000000008bu64
    } else if i == 14 {
        0x8000000000008089u64
    } else if i == 15 {
        0x8000000000008003u64
    } else if i == 16 {
        0x8000000000008002u64
    } else if i == 17 {
        0x8000000000000080u64
    } else if i == 18 {
        0x800au64
    } else if i == 19 {
        0x800000008000000au64
    } else if i == 20 {
        0x8000000080008081u64
    } else if i == 21 {
        0x8000000000008080u64
    } else if i == 22 {
        0x80000001u64
    } else {
        0x8000000080008008u64
    }
}

/// The 24 round constants of Keccak-f[1600].
pub fn round_constant(i: usize) -> (r: u64)
    requires
        i < 24,
    ensures
        r == spec_round_constant(i as int),
{
    if i == 0 {
        1u64
    } else if i == 1 {
        0x8082u64
    } else if i == 2 {
        0x800000000000808au64
    } else if i == 3 {
        0x8000000080008000u64
    } else if i == 4 {
        0x808bu64
    } else if i == 5 {
        0x80000001u64
    } else if i == 6 {
        0x8000000080008081u64
    } else if i == 7 {
        0x8000000000008009u64
    } else if i == 8 {
        0x8au64
    } else if i == 9 {
        0x88u64
    } else if i == 10 {
        0x80008009u64
    } else if i == 11 {
        0x8000000au64
    } else if i == 12 {
        0x8000808bu64
    } else if i == 13 {
        0x800000000000008bu64
    } else if i == 14 {
        0x8000000000008089u64
    } else if i == 15 {
        0x8000000000008003u64
    } else if i == 16 {
        0x8000000000008002u64
    } else if i == 17 {
        0x8000000000000080u64
    } else if i == 18 {
        0x800au64
    } else if i == 19 {
        0x800000008000000au64
    } else if i == 20 {
        0x8000000080008081u64
    } else if i == 21 {
        0x8000000000008080u64
    } else if i == 22 {
        0x80000001u64
    } else {
        0x8000000080008008u64
    }
}

/// All 25 words of the state exist in a circuit of `n` gates.
pub open spec fn kt_wires_ok(t: KeccakTarget, n: int) -> bool {
    t.words@.len() == 25 && forall|i: int| 0 <= i < 25 ==> word_wires_ok(#[trigger] t.words@[i], n)
}

pub proof fn lemma_word_wires_mono(w: U64Target, n: int, m: int)
    requires
        word_wires_ok(w, n),
        n <= m,
    ensures
        word_wires_ok(w, m),
{
}

pub proof fn lemma_kt_wires_mono(t: KeccakTarget, n: int, m: int)
    requires
        kt_wires_ok(t, n),
        n <= m,
    ensures
        kt_wires_ok(t, m),
{
    assert forall|i: int| 0 <= i < 25 implies word_wires_ok(#[trigger] t.words@[i], m) by {
        lemma_word_wires_mono(t.words@[i], n, m);
    }
}

/// A full 1600-bit Keccak state as 25 words of wires.
#[derive(Clone, Debug)]
pub struct KeccakTarget {
    /// The 25 lanes, in `x + 5 y` order.
    pub words: Vec<U64Target>,
}

impl KeccakTarget {
    /// A fresh state of 1600 witness input wires, allocated consecutively
    /// at the end of the circuit, lane-major.
    pub fn new(builder: &mut GateCircuit) -> (r: KeccakTarget)
        requires
            old(builder).wf(),
        ensures
            final(builder).wf(),
            extends(*final(builder), *old(builder)),
            kt_wires_ok(r, final(builder).gates@.len() as int),
            final(builder).gates@.len() == old(builder).gates@.len() + 1600,
            final(builder).connects@ == old(builder).connects@,
            forall|k: int, j: int|
                0 <= k < 25 && 0 <= j < 64 ==> r.words@[k].bits@[j] == old(builder).gates@.len()
                    + 64 * k + j,
            forall|k: int|
                0 <= k < 1600 ==> (#[trigger] final(builder).gates@[old(builder).gates@.len()
                    + k]) == Gate::Virtual,
    {
        let mut words: Vec<U64Target> = Vec::new();
        let mut i: usize = 0;
        while i < 25
            invariant
                builder.wf(),
                extends(*builder, *old(builder)),
                builder.connects@ == old(builder).connects@,
                builder.gates@.len() == old(builder).gates@.len() + 64 * i,
                i <= 25,
                words@.len() == i,
                forall|k: int|
                    0 <= k < i ==> word_wires_ok(
                        #[trigger] words@[k],
                        builder.gates@.len() as int,
                    ),
                forall|k: int, j: int|
                    0 <= k < i && 0 <= j < 64 ==> words@[k].bits@[j] == old(
                        builder,
                    ).gates@.len() + 64 * k + j,
                forall|k: int|
                    0 <= k < 64 * i ==> (#[trigger] builder.gates@[old(builder).gates@.len()
                        + k]) == Gate::Virtual,
            decreases 25 - i,
        {
            let ghost n0 = builder.gates@.len() as int;
            let ghost pre = builder.gates@;
            let w = U64Target::new(builder);
            proof {
                assert forall|k: int|
                    0 <= k < i implies word_wires_ok(
                    #[trigger] words@[k],
                    builder.gates@.len() as int,
                ) by {
                    lemma_word_wires_mono(words@[k], n0, builder.gates@.len() as int);
                }
                assert forall|k: int|
                    0 <= k < 64 * (i + 1) implies (#[trigger] builder.gates@[old(
                    builder,
                ).gates@.len() + k]) == Gate::Virtual by {
                    if k < 64 * i {
                        assert(builder.gates@[old(builder).gates@.len() + k] == pre[old(
                            builder,
                        ).gates@.len() + k]);
                    } else {
                        let j = k - 64 * (i as int);
                        assert(builder.gates@[pre.len() + j] == Gate::Virtual);
                        assert(old(builder).gates@.len() + k == pre.len() + j);
                    }
                }
            }
            words.push(w);
            i += 1;
        }
        KeccakTarget { words }
    }

    /// Build a state from the first 1600 of a list of wires.
    pub fn from(bits: Vec<usize>, n: usize) -> (r: KeccakTarget)
        requires
            bits@.len() >= 1600,
            forall|i: int| 0 <= i < bits@.len() ==> (#[trigger] bits@[i]) < n,
        ensures
            kt_wires_ok(r, n as int),
            forall|i: int, j: int|
                0 <= i < 25 && 0 <= j < 64 ==> r.words@[i].bits@[j] == bits@[i * 64 + j],
    {
        let mut words: Vec<U64Target> = Vec::new();
        let mut i: usize = 0;
        while i < 25
            invariant
                bits@.len() >= 1600,
                forall|k: int| 0 <= k < bits@.len() ==> (#[trigger] bits@[k]) < n,
                i <= 25,
                words@.len() == i,
                forall|k: int| 0 <= k < i ==> word_wires_ok(#[trigger] words@[k], n as int),
                forall|k: int, j: int|
                    0 <= k < i && 0 <= j < 64 ==> words@[k].bits@[j] == bits@[k * 64 + j],
            decreases 25 - i,
        {
            let mut sub: Vec<usize> = Vec::new();
            let mut j: usize = 0;
            while j < 64
                invariant
                    bits@.len() >= 1600,
                    forall|k: int| 0 <= k < bits@.len() ==> (#[trigger] bits@[k]) < n,
                    i < 25,
                    j <= 64,
                    sub@.len() == j,
                    forall|k: int| 0 <= k < j ==> sub@[k] == bits@[i * 64 + k],
                    forall|k: int| 0 <= k < j ==> (#[trigger] sub@[k]) < n,
                decreases 64 - j,
            {
                sub.push(bits[i * 64 + j]);
                j += 1;
            }
            words.push(U64Target { bits: sub });
            i += 1;
        }
        KeccakTarget { words }
    }

    /// Record the 1600 bit values of this state.
    pub fn set_witness(&self, bits: &Vec<bool>, pw: &mut Witness)
        requires
            bits@.len() == 1600,
            kt_wires_ok(*self, usize::MAX as int),
        ensures
            final(pw).assignments@.len() == old(pw).assignments@.len() + 1600,
            forall|k: int|
                0 <= k < old(pw).assignments@.len() ==> final(pw).assignments@[k] == old(
                    pw,
                ).assignments@[k],
            forall|k: int|
                0 <= k < 1600 ==> final(pw).assignments@[old(pw).assignments@.len() + k] == (
                self.words@[k / 64].bits@[k % 64],
                bits@[k],
                ),
    {
        let mut i: usize = 0;
        while i < 25
            invariant
                bits@.len() == 1600,
                kt_wires_ok(*self, usize::MAX as int),
                i <= 25,
                pw.assignments@.len() == old(pw).assignments@.len() + 64 * i,
                forall|k: int|
                    0 <= k < old(pw).assignments@.len() ==> pw.assignments@[k] == old(
                        pw,
                    ).assignments@[k],
                forall|k: int|
                    0 <= k < 64 * i ==> pw.assignments@[old(pw).assignments@.len() + k] == (
                    self.words@[k / 64].bits@[k % 64],
                    bits@[k],
                    ),
            decreases 25 - i,
        {
            let mut sub: Vec<bool> = Vec::new();
            let mut j: usize = 0;
            while j < 64
                invariant
                    bits@.len() == 1600,
                    i < 25,
                    j <= 64,
                    sub@.len() == j,
                    forall|k: int| 0 <= k < j ==> sub@[k] == bits@[i * 64 + k],
                decreases 64 - j,
            {
                sub.push(bits[i * 64 + j]);
                j += 1;
            }
            let ghost before = pw.assignments@;
            self.words[i].set_witness(&sub, pw);
            proof {
                assert forall|k: int|
                    0 <= k < 64 * (i + 1) implies (#[trigger] pw.assignments@[old(
                    pw,
                ).assignments@.len() + k]) == (self.words@[k / 64].bits@[k % 64], bits@[k]) by {
                    if k < 64 * i {
                        assert(pw.assignments@[old(pw).assignments@.len() + k] == before[old(
                            pw,
                        ).assignments@.len() + k]);
                    } else {
                        let j2 = k - 64 * (i as int);
                        assert(pw.assignments@[before.len() + j2] == (
                            self.words@[i as int].bits@[j2],
                            sub@[j2],
                        ));
                        assert(k / 64 == i as int && k % 64 == j2);
                        assert(before.len() + j2 == old(pw).assignments@.len() + k);
                    }
                }
            }
            i += 1;
        }
    }

    /// Constrain this state's wires equal to another state's, bit by bit:
    /// the appended copy-constraint pairs are exactly the two states'
    /// wires, lane-major.
    pub fn connect(&self, other: &KeccakTarget, builder: &mut GateCircuit)
        requires
            old(builder).wf(),
            kt_wires_ok(*self, old(builder).gates@.len() as int),
            kt_wires_ok(*other, old(builder).gates@.len() as int),
        ensures
            final(builder).wf(),
            extends(*final(builder), *old(builder)),
            final(builder).gates@ == old(builder).gates@,
            final(builder).connects@ == old(builder).connects@ + Seq::new(
                1600,
                |k: int| (self.words@[k / 64].bits@[k % 64], other.words@[k / 64].bits@[k % 64]),
            ),
    {
        let mut i: usize = 0;
        while i < 25
            invariant
                builder.wf(),
                extends(*builder, *old(builder)),
                builder.gates@ == old(builder).gates@,
                kt_wires_ok(*self, builder.gates@.len() as int),
                kt_wires_ok(*other, builder.gates@.len() as int),
                i <= 25,
                builder.connects@.len() == old(builder).connects@.len() + 64 * i,
                forall|k: int|
                    0 <= k < old(builder).connects@.len() ==> (#[trigger] builder.connects@[k])
                        == old(builder).connects@[k],
                forall|k: int|
                    0 <= k < 64 * i ==> (#[trigger] builder.connects@[old(
                        builder,
                    ).connects@.len() + k]) == (
                    self.words@[k / 64].bits@[k % 64],
                    other.words@[k / 64].bits@[k % 64],
                    ),
            decreases 25 - i,
        {
            let ghost before = builder.connects@;
            self.words[i].connect(&other.words[i], builder);
            proof {
                assert forall|k: int|
                    0 <= k < 64 * (i + 1) implies (#[trigger] builder.connects@[old(
                    builder,
                ).connects@.len() + k]) == (
                    self.words@[k / 64].bits@[k % 64],
                    other.words@[k / 64].bits@[k % 64],
                ) by {
                    if k < 64 * i {
                        assert(builder.connects@[old(builder).connects@.len() + k] == before[old(
                            builder,
                        ).connects@.len() + k]);
                    } else {
                        let j = k - 64 * (i as int);
                        assert(builder.connects@[before.len() + j] == (
                            self.words@[i as int].bits@[j],
                            other.words@[i as int].bits@[j],
                        ));
                        assert(k / 64 == i as int && k % 64 == j);
                        assert(old(builder).connects@.len() + k == before.len() + j);
                    }
                }
            }
            i += 1;
        }
        proof {
            let appended = Seq::new(
                1600,
                |k: int| (self.words@[k / 64].bits@[k % 64], other.words@[k / 64].bits@[k % 64]),
            );
            assert forall|j: int|
                0 <= j < builder.connects@.len() implies builder.connects@[j] == (old(
                builder,
            ).connects@ + appended)[j] by {
                if j >= old(builder).connects@.len() {
                    let k = j - old(builder).connects@.len();
                    assert(builder.connects@[old(builder).connects@.len() + k] == (
                        self.words@[k / 64].bits@[k % 64],
                        other.words@[k / 64].bits@[k % 64],
                    ));
                }
            }
            assert(builder.connects@ =~= old(builder).connects@ + appended);
        }
    }

    /// One Keccak-f round over the state: the theta, rho, pi, chi and iota
    /// steps as XOR/AND-NOT wiring, with `rc` the round constant.
    pub fn keccak_round(&mut self, rc: u64, builder: &mut GateCircuit)
        requires
            old(builder).wf(),
            kt_wires_ok(*old(self), old(builder).gates@.len() as int),
        ensures
            final(builder).wf(),
            extends(*final(builder), *old(builder)),
            final(builder).connects@ == old(builder).connects@,
            kt_wires_ok(*final(self), final(builder).gates@.len() as int),
    {
        // theta: column parities
        let mut c: Vec<U64Target> = Vec::new();
        let mut x: usize = 0;
        while x < 5
            invariant
                builder.wf(),
                extends(*builder, *old(builder)),
                builder.connects@ == old(builder).connects@,
                kt_wires_ok(*self, builder.gates@.len() as int),
                x <= 5,
                c@.len() == x,
                forall|k: int|
                    0 <= k < x ==> word_wires_ok(#[trigger] c@[k], builder.gates@.len() as int),
            decreases 5 - x,
        {
            let ghost n0 = builder.gates@.len() as int;
            let xor01 = self.words[x].xor(&self.words[x + 5], builder);
            proof {
                lemma_kt_wires_mono(*self, n0, builder.gates@.len() as int);
            }
            let ghost n1 = builder.gates@.len() as int;
            let xor012 = xor01.xor(&self.words[x + 2 * 5], builder);
            proof {
                lemma_kt_wires_mono(*self, n1, builder.gates@.len() as int);
            }
            let ghost n2 = builder.gates@.len() as int;
            let xor0123 = xor012.xor(&self.words[x + 3 * 5], builder);
            proof {
                lemma_kt_wires_mono(*self, n2, builder.gates@.len() as int);
            }
            let ghost n3 = builder.gates@.len() as int;
            let xor01234 = xor0123.xor(&self.words[x + 4 * 5], builder);
            proof {
                lemma_kt_wires_mono(*self, n3, builder.gates@.len() as int);
                assert forall|k: int|
                    0 <= k < x implies word_wires_ok(
                    #[trigger] c@[k],
                    builder.gates@.len() as int,
                ) by {
                    lemma_word_wires_mono(c@[k], n0, builder.gates@.len() as int);
                }
            }
            c.push(xor01234);
            x += 1;
        }
        // theta: d values folded into every lane
        let mut d: Vec<U64Target> = Vec::new();
        let mut x1: usize = 0;
        while x1 < 5
            invariant
                builder.wf(),
                extends(*builder, *old(builder)),
                builder.connects@ == old(builder).connects@,
                kt_wires_ok(*self, builder.gates@.len() as int),
                c@.len() == 5,
                forall|k: int|
                    0 <= k < 5 ==> word_wires_ok(#[trigger] c@[k], builder.gates@.len() as int),
                x1 <= 5,
                d@.len() == x1,
                forall|k: int|
                    0 <= k < x1 ==> word_wires_ok(#[trigger] d@[k], builder.gates@.len() as int),
            decreases 5 - x1,
        {
            let ghost n0 = builder.gates@.len() as int;
            let rot_c = c[(x1 + 1) % 5].rotl(1);
            let dx = c[(x1 + 4) % 5].xor(&rot_c, builder);
            proof {
                lemma_kt_wires_mono(*self, n0, builder.gates@.len() as int);
                assert forall|k: int|
                    0 <= k < 5 implies word_wires_ok(
                    #[trigger] c@[k],
                    builder.gates@.len() as int,
                ) by {
                    lemma_word_wires_mono(c@[k], n0, builder.gates@.len() as int);
                }
                assert forall|k: int|
                    0 <= k < x1 implies word_wires_ok(
                    #[trigger] d@[k],
                    builder.gates@.len() as int,
                ) by {
                    lemma_word_wires_mono(d@[k], n0, builder.gates@.len() as int);
                }
            }
            d.push(dx);
            x1 += 1;
        }
        let mut i: usize = 0;
        while i < 25
            invariant
                builder.wf(),
                extends(*builder, *old(builder)),
                builder.connects@ == old(builder).connects@,
                kt_wires_ok(*self, builder.gates@.len() as int),
                d@.len() == 5,
                forall|k: int|
                    0 <= k < 5 ==> word_wires_ok(#[trigger] d@[k], builder.gates@.len() as int),
                i <= 25,
            decreases 25 - i,
        {
            let ghost n0 = builder.gates@.len() as int;
            let nw = self.words[i].xor(&d[i % 5], builder);
            proof {
                lemma_kt_wires_mono(*self, n0, builder.gates@.len() as int);
                assert forall|k: int|
                    0 <= k < 5 implies word_wires_ok(
                    #[trigger] d@[k],
                    builder.gates@.len() as int,
                ) by {
                    lemma_word_wires_mono(d@[k], n0, builder.gates@.len() as int);
                }
            }
            self.words[i] = nw;
            i += 1;
        }
        // rho and pi: each destination lane takes a rotated source lane;
        // destination d = y + ((2x + 3y) mod 5) * 5 inverts to
        // x = (3 (d / 5) + d mod 5) mod 5, y = d mod 5
        let mut bw: Vec<U64Target> = Vec::new();
        let mut dd: usize = 0;
        while dd < 25
            invariant
                builder.wf(),
                extends(*builder, *old(builder)),
                builder.connects@ == old(builder).connects@,
                kt_wires_ok(*self, builder.gates@.len() as int),
                dd <= 25,
                bw@.len() == dd,
                forall|k: int|
                    0 <= k < dd ==> word_wires_ok(#[trigger] bw@[k], builder.gates@.len() as int),
            decreases 25 - dd,
        {
            let y = dd % 5;
            let x2 = (3 * (dd / 5) + y) % 5;
            let src = x2 + y * 5;
            let rot = self.words[src].rotl(rotr_offset(src));
            bw.push(rot);
            dd += 1;
        }
        // chi
        let mut i2: usize = 0;
        while i2 < 25
            invariant
                builder.wf(),
                extends(*builder, *old(builder)),
                builder.connects@ == old(builder).connects@,
                kt_wires_ok(*self, builder.gates@.len() as int),
                bw@.len() == 25,
                forall|k: int|
                    0 <= k < 25 ==> word_wires_ok(#[trigger] bw@[k], builder.gates@.len() as int),
                i2 <= 25,
            decreases 25 - i2,
        {
            let x3 = i2 % 5;
            let y3 = i2 / 5;
            let ghost n0 = builder.gates@.len() as int;
            let and_not_b = bw[(x3 + 2) % 5 + y3 * 5].and_not(&bw[(x3 + 1) % 5 + y3 * 5], builder);
            proof {
                lemma_kt_wires_mono(*self, n0, builder.gates@.len() as int);
                assert forall|k: int|
                    0 <= k < 25 implies word_wires_ok(
                    #[trigger] bw@[k],
                    builder.gates@.len() as int,
                ) by {
                    lemma_word_wires_mono(bw@[k], n0, builder.gates@.len() as int);
                }
            }
            let ghost n1 = builder.gates@.len() as int;
            let nw = bw[i2].xor(&and_not_b, builder);
            proof {
                lemma_kt_wires_mono(*self, n1, builder.gates@.len() as int);
                assert forall|k: int|
                    0 <= k < 25 implies word_wires_ok(
                    #[trigger] bw@[k],
                    builder.gates@.len() as int,
                ) by {
                    lemma_word_wires_mono(bw@[k], n1, builder.gates@.len() as int);
                }
            }
            self.words[i2] = nw;
            i2 += 1;
        }
        // iota
        let ghost n0 = builder.gates@.len() as int;
        let nw0 = self.words[0].xor_const(rc, builder);
        proof {
            lemma_kt_wires_mono(*self, n0, builder.gates@.len() as int);
        }
        self.words[0] = nw0;
    }

    /// A wire-for-wire copy of the state.
    pub fn duplicate(&self) -> (r: KeccakTarget)
        requires
            self.words@.len() == 25,
        ensures
            r.words@.len() == 25,
            forall|i: int| 0 <= i < 25 ==> (#[trigger] r.words@[i]).bits@ == self.words@[i].bits@,
    {
        let mut words: Vec<U64Target> = Vec::new();
        let mut i: usize = 0;
        while i < 25
            invariant
                self.words@.len() == 25,
                i <= 25,
                words@.len() == i,
                forall|k: int|
                    0 <= k < i ==> (#[trigger] words@[k]).bits@ == self.words@[k].bits@,
            decreases 25 - i,
        {
            words.push(U64Target { bits: self.words[i].bits.clone() });
            i += 1;
        }
        KeccakTarget { words }
    }

    /// The full Keccak-f[1600] permutation: 24 rounds.
    pub fn keccakf(&self, builder: &mut GateCircuit) -> (r: KeccakTarget)
        requires
            old(builder).wf(),
            kt_wires_ok(*self, old(builder).gates@.len() as int),
        ensures
            final(builder).wf(),
            extends(*final(builder), *old(builder)),
            final(builder).connects@ == old(builder).connects@,
            kt_wires_ok(r, final(builder).gates@.len() as int),
    {
        let mut result = self.duplicate();
        proof {
            assert forall|i: int|
                0 <= i < 25 implies word_wires_ok(
                #[trigger] result.words@[i],
                builder.gates@.len() as int,
            ) by {
                assert(word_wires_ok(self.words@[i], builder.gates@.len() as int));
            }
        }
        let mut round: usize = 0;
        while round < 24
            invariant
                builder.wf(),
                extends(*builder, *old(builder)),
                builder.connects@ == old(builder).connects@,
                kt_wires_ok(result, builder.gates@.len() as int),
                round <= 24,
            decreases 24 - round,
        {
            let rc = round_constant(round);
            result.keccak_round(rc, builder);
            round += 1;
        }
        result
    }
}

/// Flatten the 25 words back into 1600 wires, least significant bit of
/// lane 0 first.
fn kt_flatten(t: &KeccakTarget, ghost_n: Ghost<int>) -> (r: Vec<usize>)
    requires
        kt_wires_ok(*t, ghost_n@),
    ensures
        r@.len() == 1600,
        forall|i: int| 0 <= i < 1600 ==> (#[trigger] r@[i]) < ghost_n@,
        forall|i: int| 0 <= i < 1600 ==> r@[i] == t.words@[i / 64].bits@[i % 64],
{
    let mut out: Vec<usize> = Vec::new();
    let mut i: usize = 0;
    while i < 1600
        invariant
            kt_wires_ok(*t, ghost_n@),
            i <= 1600,
            out@.len() == i,
            forall|k: int| 0 <= k < i ==> (#[trigger] out@[k]) < ghost_n@,
            forall|k: int| 0 <= k < i ==> out@[k] == t.words@[k / 64].bits@[k % 64],
        decreases 1600 - i,
    {
        out.push(t.words[i / 64].bits[i % 64]);
        i += 1;
    }
    out
}

/// Build the Keccak-256 circuit over a bit-level message: pad with the 0x01
/// suffix and closing 0x80 bit, absorb 1088-bit blocks into an all-zero
/// state through XOR wiring and the full permutation, and expose the first
/// 256 state bits as the digest wires.
pub fn keccak256_circuit(input: Vec<usize>, builder: &mut GateCircuit) -> (r: Vec<usize>)
    requires
        old(builder).wf(),
        input@.len() % 8 == 0,
        input@.len() <= 0x1000000,
        forall|i: int| 0 <= i < input@.len() ==> (#[trigger] input@[i]) < old(builder).gates@.len(),
    ensures
        final(builder).wf(),
        extends(*final(builder), *old(builder)),
        final(builder).connects@ == old(builder).connects@,
        r@.len() == 256,
        forall|i: int| 0 <= i < 256 ==> (#[trigger] r@[i]) < final(builder).gates@.len(),
{
    let input_len_bits = input.len();
    let input_len_in_bytes = input_len_bits / 8;
    let num_blocks = input_len_in_bytes / 136 + 1;
    let total_bits = 1088 * num_blocks;

    // the padded message: input bits, the 0x01 suffix bit, zeros, and the
    // closing 0x80 bit in the last position
    let mut padded: Vec<usize> = Vec::new();
    let mut i: usize = 0;
    while i < total_bits
        invariant
            builder.wf(),
            extends(*builder, *old(builder)),
            builder.connects@ == old(builder).connects@,
            input@.len() == input_len_bits,
            input_len_bits <= 0x1000000,
            total_bits <= 0x1000000 + 1088,
            input_len_bits < total_bits,
            forall|k: int| 0 <= k < input@.len() ==> (#[trigger] input@[k]) < builder.gates@.len(),
            i <= total_bits,
            padded@.len() == i,
            forall|k: int| 0 <= k < i ==> (#[trigger] padded@[k]) < builder.gates@.len(),
        decreases total_bits - i,
    {
        let ghost n0 = builder.gates@.len() as int;
        let w: usize = if i < input_len_bits {
            input[i]
        } else if i == input_len_bits || i == total_bits - 1 {
            builder.constant_bool(true)
        } else {
            builder.constant_bool(false)
        };
        proof {
            assert forall|k: int|
                0 <= k < i implies (#[trigger] padded@[k]) < builder.gates@.len() by {}
        }
        padded.push(w);
        i += 1;
    }

    // the all-zero initial state, as one shared constant-false wire
    let zero = builder.constant_bool(false);
    let mut state_wires: Vec<usize> = Vec::new();
    let mut j: usize = 0;
    while j < 1600
        invariant
            builder.wf(),
            builder.connects@ == old(builder).connects@,
            zero < builder.gates@.len(),
            j <= 1600,
            state_wires@.len() == j,
            forall|k: int| 0 <= k < j ==> (#[trigger] state_wires@[k]) < builder.gates@.len(),
        decreases 1600 - j,
    {
        state_wires.push(zero);
        j += 1;
    }

    // absorb each block, then permute
    let mut b: usize = 0;
    while b < num_blocks
        invariant
            builder.wf(),
            extends(*builder, *old(builder)),
            builder.connects@ == old(builder).connects@,
            padded@.len() == total_bits,
            total_bits == 1088 * num_blocks,
            total_bits <= 0x1000000 + 1088,
            forall|k: int| 0 <= k < padded@.len() ==> (#[trigger] padded@[k]) < builder.gates@.len(),
            b <= num_blocks,
            state_wires@.len() == 1600,
            forall|k: int|
                0 <= k < 1600 ==> (#[trigger] state_wires@[k]) < builder.gates@.len(),
        decreases num_blocks - b,
    {
        proof {
            vstd::arithmetic::mul::lemma_mul_inequality(b + 1, num_blocks as int, 1088);
        }
        let mut j2: usize = 0;
        while j2 < 1088
            invariant
                builder.wf(),
                extends(*builder, *old(builder)),
                builder.connects@ == old(builder).connects@,
                padded@.len() == total_bits,
                total_bits == 1088 * num_blocks,
                total_bits <= 0x1000000 + 1088,
                b < num_blocks,
                (b + 1) * 1088 <= total_bits,
                forall|k: int|
                    0 <= k < padded@.len() ==> (#[trigger] padded@[k]) < builder.gates@.len(),
                j2 <= 1088,
                state_wires@.len() == 1600,
                forall|k: int|
                    0 <= k < 1600 ==> (#[trigger] state_wires@[k]) < builder.gates@.len(),
            decreases 1088 - j2,
        {
            let xor_t = builder.xor_gate(state_wires[j2], padded[b * 1088 + j2]);
            state_wires[j2] = xor_t;
            proof {
                assert forall|k: int|
                    0 <= k < 1600 implies (#[trigger] state_wires@[k]) < builder.gates@.len() by {}
            }
            j2 += 1;
        }
        let m = KeccakTarget::from(state_wires, builder.num_gates());
        let m2 = m.keccakf(builder);
        state_wires = kt_flatten(&m2, Ghost(builder.gates@.len() as int));
        b += 1;
    }

    // the first 256 state bits are the digest
    let mut z: Vec<usize> = Vec::new();
    let mut o: usize = 0;
    while o < 256
        invariant
            state_wires@.len() == 1600,
            forall|k: int|
                0 <= k < 1600 ==> (#[trigger] state_wires@[k]) < builder.gates@.len(),
            o <= 256,
            z@.len() == o,
            forall|k: int| 0 <= k < o ==> (#[trigger] z@[k]) < builder.gates@.len(),
        decreases 256 - o,
    {
        z.push(state_wires[o]);
        o += 1;
    }
    z
}

/// The bits of a byte string, least significant bit of each byte first.
pub fn array_to_bits_lsb(bytes: &[u8]) -> (r: Vec<bool>)
    requires
        bytes@.len() <= 0x10000000,
    ensures
        r@.len() == 8 * bytes@.len(),
        forall|i: int|
            0 <= i < r@.len() ==> r@[i] == ((bytes@[i / 8] >> ((i % 8) as u8)) & 1 == 1),
{
    let n = bytes.len();
    let mut out: Vec<bool> = Vec::new();
    let mut i: usize = 0;
    while i < 8 * n
        invariant
            bytes@.len() == n,
            n <= 0x10000000,
            i <= 8 * n,
            out@.len() == i,
            forall|k: int|
                0 <= k < i ==> out@[k] == ((bytes@[k / 8] >> ((k % 8) as u8)) & 1 == 1),
        decreases 8 * n - i,
    {
        let byte = *vstd::slice::slice_index_get(bytes, i / 8);
        out.push((byte >> ((i % 8) as u8)) & 1 == 1);
        i += 1;
    }
    out
}

/// The value of every wire under an assignment of the virtual wires.
pub fn eval_wires(c: &GateCircuit, assign: &Vec<bool>) -> (vals: Vec<bool>)
    requires
        c.wf(),
        assign@.len() == c.gates@.len(),
    ensures
        vals@.len() == c.gates@.len(),
        forall|i: int| 0 <= i < vals@.len() ==> vals@[i] == gate_value(c.gates@, assign@, i),
{
    let n = c.gates.len();
    let mut vals: Vec<bool> = Vec::new();
    let mut i: usize = 0;
    while i < n
        invariant
            c.wf(),
            assign@.len() == c.gates@.len(),
            n == c.gates@.len(),
            i <= n,
            vals@.len() == i,
            forall|k: int| 0 <= k < i ==> vals@[k] == gate_value(c.gates@, assign@, k),
        decreases n - i,
    {
        let g = c.gates[i];
        proof {
            assert(gate_deps_ok(c.gates@[i as int], i as int));
        }
        let v: bool = match g {
            Gate::Virtual => assign[i],
            Gate::Const(bv) => bv,
            Gate::Xor(a, bb) => vals[a] != vals[bb],
            Gate::AndNot(a, bb) => vals[a] && !vals[bb],
        };
        vals.push(v);
        i += 1;
    }
    vals
}

/// Every copy constraint holds under the given wire values.
pub open spec fn spec_connects_hold(c: GateCircuit, vals: Seq<bool>) -> bool {
    forall|k: int|
        0 <= k < c.connects@.len() ==> vals[(#[trigger] c.connects@[k]).0 as int]
            == vals[c.connects@[k].1 as int]
}

/// Check every copy constraint against computed wire values.
pub fn connects_hold(c: &GateCircuit, vals: &Vec<bool>) -> (r: bool)
    requires
        c.wf(),
        vals@.len() == c.gates@.len(),
    ensures
        r == spec_connects_hold(*c, vals@),
{
    let mut k: usize = 0;
    while k < c.connects.len()
        invariant
            c.wf(),
            vals@.len() == c.gates@.len(),
            k <= c.connects@.len(),
            forall|j: int|
                0 <= j < k ==> vals@[(#[trigger] c.connects@[j]).0 as int]
                    == vals@[c.connects@[j].1 as int],
        decreases c.connects@.len() - k,
    {
        let (a, b) = c.connects[k];
        if vals[a] != vals[b] {
            return false;
        }
        k += 1;
    }
    true
}

/// Build the full Keccak-256 circuit for a pseudo-random message of
/// `input_size` bytes: witness input wires for the message bits, the sponge
/// circuit over them, the message bits recorded as the witness, and the
/// expected digest bits pinned to the digest wires through constants.
///
/// Returns the circuit, the witness and the number of gates.  The witness
/// records wire `k` carrying bit `k` of the drawn message, and the 256 copy
/// constraints pin the circuit's digest wires against constant gates
/// holding the bits of the message's reference digest.
pub fn keccak256_prepare(input_size: usize) -> (r: (GateCircuit, Witness, usize))
    requires
        input_size <= 0x10000,
    ensures
        r.0.wf(),
        r.2 == r.0.gates@.len(),
        r.1.assignments@.len() == 8 * input_size,
        forall|k: int|
            0 <= k < 8 * input_size ==> (#[trigger] r.1.assignments@[k]) == (
                k as usize,
                (crate::inputs::std_rng_bytes(input_size as u64, input_size as int)[k / 8] >> ((k
                    % 8) as u8)) & 1 == 1,
            ),
        8 * input_size <= r.0.gates@.len(),
        r.0.connects@.len() == 256,
        forall|j: int|
            0 <= j < 256 ==> (#[trigger] r.0.connects@[j]).0 < r.0.gates@.len() && (
            r.0.connects@[j].1 as int) < r.0.gates@.len() && r.0.gates@[r.0.connects@[j].1
                as int] == Gate::Const(
                (crate::sponge::keccak256_spec(
                    crate::inputs::std_rng_bytes(input_size as u64, input_size as int),
                )[j / 8] >> ((j % 8) as u8)) & 1 == 1,
            ),
{
    let (msg, _hash) = crate::inputs::generate_keccak_input(input_size);
    let msg_bits = array_to_bits_lsb(msg.as_slice());
    let len = input_size * 8;
    let mut builder = GateCircuit::new();
    let mut input_targets: Vec<usize> = Vec::new();
    let mut i: usize = 0;
    while i < len
        invariant
            builder.wf(),
            i <= len,
            builder.gates@.len() == i,
            builder.connects@.len() == 0,
            input_targets@.len() == i,
            forall|k: int| 0 <= k < i ==> (#[trigger] input_targets@[k]) == k,
        decreases len - i,
    {
        let w = builder.add_virtual_bool();
        input_targets.push(w);
        i += 1;
    }
    proof {
        assert forall|k: int|
            0 <= k < input_targets@.len() implies (#[trigger] input_targets@[k])
            < builder.gates@.len() by {}
    }
    let targets = keccak256_circuit(input_targets.clone(), &mut builder);

    let mut pw = Witness::new();
    let mut i2: usize = 0;
    while i2 < len
        invariant
            i2 <= len,
            len == 8 * input_size,
            msg_bits@.len() == len,
            input_targets@.len() == len,
            forall|k: int| 0 <= k < len ==> (#[trigger] input_targets@[k]) == k,
            pw.assignments@.len() == i2,
            forall|k: int|
                0 <= k < i2 ==> (#[trigger] pw.assignments@[k]) == (k as usize, msg_bits@[k]),
        decreases len - i2,
    {
        pw.set_bool(input_targets[i2], msg_bits[i2]);
        i2 += 1;
    }

    let expected_res = array_to_bits_lsb(_hash.as_slice());
    proof {
        assert(len <= builder.gates@.len());
    }
    let mut i3: usize = 0;
    while i3 < 256
        invariant
            builder.wf(),
            expected_res@.len() == 256,
            targets@.len() == 256,
            forall|k: int| 0 <= k < 256 ==> (#[trigger] targets@[k]) < builder.gates@.len(),
            i3 <= 256,
            8 * input_size <= builder.gates@.len(),
            builder.connects@.len() == i3,
            forall|j: int|
                0 <= j < i3 ==> (#[trigger] builder.connects@[j]).0 < builder.gates@.len() && (
                builder.connects@[j].1 as int) < builder.gates@.len()
                    && builder.gates@[builder.connects@[j].1 as int] == Gate::Const(
                    expected_res@[j],
                ),
        decreases 256 - i3,
    {
        let ghost n0 = builder.gates@.len() as int;
        let ghost pre = builder.gates@;
        let cw = builder.constant_bool(expected_res[i3]);
        proof {
            assert forall|k: int|
                0 <= k < 256 implies (#[trigger] targets@[k]) < builder.gates@.len() by {}
            assert forall|j: int|
                0 <= j < i3 implies builder.gates@[(#[trigger] builder.connects@[j]).1 as int]
                == Gate::Const(expected_res@[j]) by {
                let ci = builder.connects@[j].1 as int;
                assert(builder.gates@[ci] == pre[ci]);
            }
        }
        builder.connect_wires(targets[i3], cw);
        i3 += 1;
    }
    let n_gates = builder.num_gates();
    proof {
        assert(8 * input_size <= builder.gates@.len());
    }
    (builder, pw, n_gates)
}

} // verus!
