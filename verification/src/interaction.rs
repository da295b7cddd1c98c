//! The shared interaction-argument primitives: the terms a chip emits on
//! the memory channel, the builder that collects them, and the backend's
//! balance check — the signed multiplicities of identical keys must sum
//! to zero in the field.

use crate::field::{felt_neg, field_add, field_neg, is_felt, FIELD_MODULUS};
use crate::program::{
    entry_of, instr_wf, kind_entries, matched, mem_entries, Address, Block, Instruction,
    MemAccessKind, MemEntry,
};
use crate::sums::{
    lemma_sum_by_mod_zero, lemma_sum_by_permutation, lemma_sum_by_push, lemma_sum_by_split,
    sum_by,
};
use crate::trace::Trace;
use vstd::arithmetic::div_mod::{
    lemma_add_mod_noop, lemma_mod_multiples_vanish, lemma_mod_self_0, lemma_small_mod,
};
use vstd::prelude::*;

verus! {

/// One term of the consistency argument: a keyed, signed multiplicity on
/// the memory channel. The key is the address together with the value
/// block; `is_send` fixes the sign the backend gives `mult`.
#[derive(Clone, Copy, Debug)]
pub struct Interaction {
    pub addr: u32,
    pub val: Block,
    pub mult: u32,
    pub is_send: bool,
}

/// What one interaction adds to the sum at the key `(addr, val)`.
pub open spec fn contribution(i: Interaction, addr: u32, val: Seq<u32>) -> int {
    if i.addr == addr && i.val@ == val {
        if i.is_send {
            i.mult as int
        } else {
            -(i.mult as int)
        }
    } else {
        0
    }
}

/// The signed sum at one key over a sequence of interactions.
pub open spec fn key_sum(s: Seq<Interaction>, addr: u32, val: Seq<u32>) -> int {
    sum_by(s, |i: Interaction| contribution(i, addr, val))
}

/// What one constant-memory table entry adds at a key; entries carry the
/// field-signed multiplicity and are emitted as sends.
pub open spec fn entry_contribution(e: MemEntry, addr: u32, val: Seq<u32>) -> int {
    if e.addr == addr && e.val == val {
        e.mult as int
    } else {
        0
    }
}

/// The signed sum at one key over a sequence of table entries.
pub open spec fn entry_key_sum(es: Seq<MemEntry>, addr: u32, val: Seq<u32>) -> int {
    sum_by(es, |e: MemEntry| entry_contribution(e, addr, val))
}

/// The backend's check at one key: the sum vanishes in the field.
pub open spec fn balanced_at(s: Seq<Interaction>, addr: u32, val: Seq<u32>) -> bool {
    key_sum(s, addr, val) % (FIELD_MODULUS as int) == 0
}

/// The backend's global check: every key that occurs is balanced.
pub open spec fn balanced(s: Seq<Interaction>) -> bool {
    forall|j: int| 0 <= j < s.len() ==> balanced_at(s, (#[trigger] s[j]).addr, s[j].val@)
}

/// Every multiplicity in the log is a canonical field representative.
pub open spec fn interactions_wf(s: Seq<Interaction>) -> bool {
    forall|j: int| 0 <= j < s.len() ==> is_felt((#[trigger] s[j]).mult)
}

/// The helper every chip uses to emit consistency-argument terms.
pub trait RecursionAirBuilder: Sized {
    /// The interactions emitted so far, in order.
    spec fn interaction_log(&self) -> Seq<Interaction>;

    /// The preprocessed trace the builder exposes to constraints.
    spec fn preprocessed_view(&self) -> Trace;

    /// The preprocessed trace, as constraint evaluation reads it.
    fn preprocessed(&self) -> (r: &Trace)
        ensures
            *r == self.preprocessed_view(),
    ;

    /// Emit one outgoing interaction whose value is `val` padded to a
    /// whole block with zeroes.
    fn send_single(&mut self, addr: Address, val: u32, mult: u32)
        ensures
            final(self).preprocessed_view() == old(self).preprocessed_view(),
            final(self).interaction_log().len() == old(self).interaction_log().len() + 1,
            final(self).interaction_log().drop_last() == old(self).interaction_log(),
            ({
                let i = final(self).interaction_log().last();
                i.addr == addr.0 && i.val@ == seq![val, 0u32, 0u32, 0u32] && i.mult == mult
                    && i.is_send
            }),
    ;

    /// Emit one outgoing interaction carrying a whole value block.
    fn send_block(&mut self, addr: Address, val: Block, mult: u32)
        ensures
            final(self).preprocessed_view() == old(self).preprocessed_view(),
            final(self).interaction_log().len() == old(self).interaction_log().len() + 1,
            final(self).interaction_log().drop_last() == old(self).interaction_log(),
            ({
                let i = final(self).interaction_log().last();
                i.addr == addr.0 && i.val@ == val@ && i.mult == mult && i.is_send
            }),
    ;

    /// Emit one incoming interaction whose value is `val` padded to a
    /// whole block with zeroes.
    fn receive_single(&mut self, addr: Address, val: u32, mult: u32)
        ensures
            final(self).preprocessed_view() == old(self).preprocessed_view(),
            final(self).interaction_log().len() == old(self).interaction_log().len() + 1,
            final(self).interaction_log().drop_last() == old(self).interaction_log(),
            ({
                let i = final(self).interaction_log().last();
                i.addr == addr.0 && i.val@ == seq![val, 0u32, 0u32, 0u32] && i.mult == mult
                    && !i.is_send
            }),
    ;

    /// Emit one incoming interaction carrying a whole value block.
    fn receive_block(&mut self, addr: Address, val: Block, mult: u32)
        ensures
            final(self).preprocessed_view() == old(self).preprocessed_view(),
            final(self).interaction_log().len() == old(self).interaction_log().len() + 1,
            final(self).interaction_log().drop_last() == old(self).interaction_log(),
            ({
                let i = final(self).interaction_log().last();
                i.addr == addr.0 && i.val@ == val@ && i.mult == mult && !i.is_send
            }),
    ;
}

/// The full capability set a recursion-machine constraint builder offers;
/// the chips in this crate only use the interaction half.
pub trait SP1RecursionAirBuilder: RecursionAirBuilder {

}

/// A concrete builder: the preprocessed trace a chip's constraints read,
/// and the interactions it has emitted.
pub struct InteractionBuilder {
    pub preprocessed: Trace,
    pub interactions: Vec<Interaction>,
}

impl InteractionBuilder {
    /// A builder over a preprocessed trace, with nothing emitted yet.
    pub fn new(preprocessed: Trace) -> (r: InteractionBuilder)
        ensures
            r.preprocessed == preprocessed,
            r.interactions@ == Seq::<Interaction>::empty(),
    {
        InteractionBuilder { preprocessed, interactions: Vec::new() }
    }
}

impl RecursionAirBuilder for InteractionBuilder {
    open spec fn interaction_log(&self) -> Seq<Interaction> {
        self.interactions@
    }

    open spec fn preprocessed_view(&self) -> Trace {
        self.preprocessed
    }

    fn preprocessed(&self) -> (r: &Trace) {
        &self.preprocessed
    }

    fn send_single(&mut self, addr: Address, val: u32, mult: u32) {
        let block = Block([val, 0, 0, 0]);
        assert(block@ =~= seq![val, 0u32, 0u32, 0u32]);
        self.send_block(addr, block, mult);
    }

    fn send_block(&mut self, addr: Address, val: Block, mult: u32) {
        self.interactions.push(Interaction { addr: addr.0, val, mult, is_send: true });
        proof {
            assert(self.interactions@.drop_last() =~= old(self).interactions@);
        }
    }

    fn receive_single(&mut self, addr: Address, val: u32, mult: u32) {
        let block = Block([val, 0, 0, 0]);
        assert(block@ =~= seq![val, 0u32, 0u32, 0u32]);
        self.receive_block(addr, block, mult);
    }

    fn receive_block(&mut self, addr: Address, val: Block, mult: u32) {
        self.interactions.push(Interaction { addr: addr.0, val, mult, is_send: false });
        proof {
            assert(self.interactions@.drop_last() =~= old(self).interactions@);
        }
    }
}

impl SP1RecursionAirBuilder for InteractionBuilder {

}

/// Whether two blocks hold the same values.
pub fn block_eq(a: &Block, b: &Block) -> (r: bool)
    ensures
        r == (a@ == b@),
{
    let r = a.0[0] == b.0[0] && a.0[1] == b.0[1] && a.0[2] == b.0[2] && a.0[3] == b.0[3];
    proof {
        if r {
            assert(a@ =~= b@);
        } else {
            if a@ == b@ {
                assert(a@[0] == b@[0]);
                assert(a@[1] == b@[1]);
                assert(a@[2] == b@[2]);
                assert(a@[3] == b@[3]);
            }
        }
    }
    r
}

/// Runs the backend's balance check over an interaction log: for every
/// key that occurs, the signed multiplicities must sum to zero in the
/// field. A mismatched address, value or multiplicity anywhere makes
/// this fail globally; a zero multiplicity contributes nothing.
pub fn memory_interactions_balanced(ints: &Vec<Interaction>) -> (r: bool)
    requires
        interactions_wf(ints@),
    ensures
        r == balanced(ints@),
{
    let n = ints.len();
    let mut j: usize = 0;
    while j < n
        invariant
            0 <= j <= n,
            n == ints@.len(),
            interactions_wf(ints@),
            forall|jj: int|
                0 <= jj < j ==> balanced_at(ints@, (#[trigger] ints@[jj]).addr, ints@[jj].val@),
        decreases n - j,
    {
        let key_addr = ints[j].addr;
        let key_val = ints[j].val;
        let ghost f = |i: Interaction| contribution(i, key_addr, key_val@);
        let mut s: u32 = 0;
        let mut i: usize = 0;
        proof {
            assert(ints@.take(0) =~= Seq::<Interaction>::empty());
            lemma_small_mod(0nat, FIELD_MODULUS as nat);
        }
        while i < n
            invariant
                0 <= i <= n,
                n == ints@.len(),
                interactions_wf(ints@),
                is_felt(s),
                f == (|i: Interaction| contribution(i, key_addr, key_val@)),
                s as int == sum_by(ints@.take(i as int), f) % (FIELD_MODULUS as int),
            decreases n - i,
        {
            let it = ints[i];
            let ghost pre = sum_by(ints@.take(i as int), f);
            let hit = it.addr == key_addr && block_eq(&it.val, &key_val);
            if hit {
                let add_term = if it.is_send {
                    it.mult
                } else {
                    field_neg(it.mult)
                };
                proof {
                    // the term added in the field is the contribution modulo the prime
                    if !it.is_send {
                        lemma_mod_multiples_vanish(1, -(it.mult as int), FIELD_MODULUS as int);
                        lemma_small_mod(felt_neg(it.mult) as nat, FIELD_MODULUS as nat);
                    } else {
                        lemma_small_mod(it.mult as nat, FIELD_MODULUS as nat);
                    }
                    lemma_add_mod_noop(
                        pre,
                        contribution(it, key_addr, key_val@),
                        FIELD_MODULUS as int,
                    );
                    lemma_small_mod(s as nat, FIELD_MODULUS as nat);
                }
                s = field_add(s, add_term);
            } else {
                proof {
                    assert(contribution(it, key_addr, key_val@) == 0);
                }
            }
            proof {
                assert(ints@.take(i + 1).drop_last() =~= ints@.take(i as int));
                assert(ints@.take(i + 1).last() == ints@[i as int]);
                assert(sum_by(ints@.take(i + 1), f) == pre + f(ints@[i as int]));
            }
            i = i + 1;
        }
        proof {
            assert(ints@.take(n as int) =~= ints@);
        }
        if s != 0 {
            proof {
                assert(!balanced_at(ints@, ints@[j as int].addr, ints@[j as int].val@));
            }
            return false;
        }
        j = j + 1;
    }
    true
}

// ---------------------------------------------------------------------
// The consistency law: a program of matched write/read pairs balances at
// every key.
// ---------------------------------------------------------------------

/// What one instruction adds at a key: its table entry's contribution
/// for a constant-memory instruction, nothing otherwise.
pub open spec fn instr_contribution(inst: Instruction, addr: u32, val: Seq<u32>) -> int {
    match inst {
        Instruction::Mem(m) => entry_contribution(entry_of(m), addr, val),
        _ => 0,
    }
}

/// Like [`instr_contribution`], restricted to one access kind.
pub open spec fn kind_contribution(
    inst: Instruction,
    kind: MemAccessKind,
    addr: u32,
    val: Seq<u32>,
) -> int {
    match inst {
        Instruction::Mem(m) => if m.kind == kind {
            entry_contribution(entry_of(m), addr, val)
        } else {
            0
        },
        _ => 0,
    }
}

/// The sum over the table entries equals the sum over the instructions.
proof fn lemma_entry_sum_by_instr(s: Seq<Instruction>, addr: u32, val: Seq<u32>)
    ensures
        entry_key_sum(mem_entries(s), addr, val) == sum_by(
            s,
            |inst: Instruction| instr_contribution(inst, addr, val),
        ),
    decreases s.len(),
{
    let f_ent = |e: MemEntry| entry_contribution(e, addr, val);
    if s.len() == 0 {
        assert(mem_entries(s) =~= Seq::<MemEntry>::empty());
    } else {
        lemma_entry_sum_by_instr(s.drop_last(), addr, val);
        match s.last() {
            Instruction::Mem(m) => {
                assert(mem_entries(s) =~= mem_entries(s.drop_last()).push(entry_of(m)));
                lemma_sum_by_push(mem_entries(s.drop_last()), f_ent, entry_of(m));
            },
            _ => {
                assert(mem_entries(s) =~= mem_entries(s.drop_last()));
            },
        }
    }
}

/// The one-kind sum over the instructions equals the sum over that
/// kind's raw entries, with the read side negated in the field.
proof fn lemma_kind_sum_by_entries(
    s: Seq<Instruction>,
    kind: MemAccessKind,
    addr: u32,
    val: Seq<u32>,
    h: spec_fn(MemEntry) -> int,
)
    requires
        forall|e: MemEntry| #[trigger] h(e) == (if e.addr == addr && e.val == val {
            (if kind == MemAccessKind::Write {
                e.mult as int
            } else {
                felt_neg(e.mult) as int
            })
        } else {
            0
        }),
    ensures
        sum_by(s, |inst: Instruction| kind_contribution(inst, kind, addr, val)) == sum_by(
            kind_entries(s, kind),
            h,
        ),
    decreases s.len(),
{
    if s.len() == 0 {
        assert(kind_entries(s, kind) =~= Seq::<MemEntry>::empty());
    } else {
        lemma_kind_sum_by_entries(s.drop_last(), kind, addr, val, h);
        match s.last() {
            Instruction::Mem(m) => {
                if m.kind == kind {
                    assert(kind_entries(s, kind) =~= kind_entries(s.drop_last(), kind).push(
                        crate::program::raw_entry_of(m),
                    ));
                    lemma_sum_by_push(
                        kind_entries(s.drop_last(), kind),
                        h,
                        crate::program::raw_entry_of(m),
                    );
                } else {
                    assert(kind_entries(s, kind) =~= kind_entries(s.drop_last(), kind));
                }
            },
            _ => {
                assert(kind_entries(s, kind) =~= kind_entries(s.drop_last(), kind));
            },
        }
    }
}

/// Raw entries of a well-formed instruction sequence carry canonical
/// multiplicities.
proof fn lemma_kind_entries_wf(s: Seq<Instruction>, kind: MemAccessKind)
    requires
        forall|k: int| 0 <= k < s.len() ==> instr_wf(#[trigger] s[k]),
    ensures
        forall|k: int|
            0 <= k < kind_entries(s, kind).len() ==> is_felt(
                (#[trigger] kind_entries(s, kind)[k]).mult,
            ),
    decreases s.len(),
{
    if s.len() > 0 {
        assert(forall|k: int| 0 <= k < s.drop_last().len() ==> instr_wf(
            #[trigger] s.drop_last()[k],
        ));
        lemma_kind_entries_wf(s.drop_last(), kind);
        assert(instr_wf(s[s.len() - 1]));
        assert(s.last() == s[s.len() - 1]);
        let prev = kind_entries(s.drop_last(), kind);
        match s.last() {
            Instruction::Mem(m) => {
                if m.kind == kind {
                    assert(kind_entries(s, kind) =~= prev.push(crate::program::raw_entry_of(m)));
                    assert(is_felt(crate::program::raw_entry_of(m).mult));
                } else {
                    assert(kind_entries(s, kind) =~= prev);
                }
            },
            _ => {
                assert(kind_entries(s, kind) =~= prev);
            },
        }
    }
}

/// For any program with only matched write/read pairs — equal address,
/// equal value, equal magnitude, opposite sign — the memory interaction
/// sum vanishes in the field at every key.
pub proof fn lemma_matched_key_sum_zero(s: Seq<Instruction>, addr: u32, val: Seq<u32>)
    requires
        forall|k: int| 0 <= k < s.len() ==> instr_wf(#[trigger] s[k]),
        matched(s),
    ensures
        entry_key_sum(mem_entries(s), addr, val) % (FIELD_MODULUS as int) == 0,
{
    let p = FIELD_MODULUS as int;
    let g = |inst: Instruction| instr_contribution(inst, addr, val);
    let gw = |inst: Instruction| kind_contribution(inst, MemAccessKind::Write, addr, val);
    let gr = |inst: Instruction| kind_contribution(inst, MemAccessKind::Read, addr, val);
    let hw = |e: MemEntry|
        if e.addr == addr && e.val == val {
            e.mult as int
        } else {
            0
        };
    let hr = |e: MemEntry|
        if e.addr == addr && e.val == val {
            felt_neg(e.mult) as int
        } else {
            0
        };
    let hwr = |e: MemEntry| hw(e) + hr(e);
    let ws = kind_entries(s, MemAccessKind::Write);
    let rs = kind_entries(s, MemAccessKind::Read);

    lemma_entry_sum_by_instr(s, addr, val);
    lemma_sum_by_split(s, g, gw, gr);
    lemma_kind_sum_by_entries(s, MemAccessKind::Write, addr, val, hw);
    lemma_kind_sum_by_entries(s, MemAccessKind::Read, addr, val, hr);
    lemma_sum_by_permutation(rs, ws, hr);
    lemma_sum_by_split(ws, hwr, hw, hr);
    lemma_kind_entries_wf(s, MemAccessKind::Write);
    assert forall|k: int| 0 <= k < ws.len() implies #[trigger] hwr(ws[k]) % p == 0 by {
        let e = ws[k];
        assert(is_felt(e.mult));
        if e.addr == addr && e.val == val {
            if e.mult == 0 {
                lemma_small_mod(0nat, FIELD_MODULUS as nat);
            } else {
                lemma_mod_self_0(p);
            }
        } else {
            lemma_small_mod(0nat, FIELD_MODULUS as nat);
        }
    }
    lemma_sum_by_mod_zero(ws, hwr, p);
}

} // verus!
