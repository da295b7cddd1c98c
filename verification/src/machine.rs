//! Machine composition: the closed set of chip variants, the deployment
//! profiles that pick a chip list, the fixed shape of the shrink stage,
//! and the order-independent height computation a program gives rise to.

use crate::mem_const::MemoryChip;
use crate::program::{Instruction, RecursionProgram};
use crate::shape::{shape_entries, RecursionShape};
use crate::sums::{lemma_sum_by_bounds, lemma_sum_by_permutation, lemma_sum_by_prefix_le, sum_by};
use vstd::prelude::*;

verus! {

/// The log2 height the public-values chip always reports, whatever the
/// program holds.
pub const PUB_VALUES_LOG_HEIGHT: usize = 4;

/// The number of public-value slots a machine declares to the backend.
pub const PROOF_MAX_NUM_PVS: usize = 371;

/// The variable-memory chip: hint-supplied values.
#[derive(Clone, Copy, Debug)]
pub struct MemoryVarChip {}

/// The base-field ALU chip.
#[derive(Clone, Copy, Debug)]
pub struct BaseAluChip {}

/// The extension-field ALU chip.
#[derive(Clone, Copy, Debug)]
pub struct ExtAluChip {}

/// The column-reduced hash chip, for small proofs.
#[derive(Clone, Copy, Debug)]
pub struct Poseidon2SkinnyChip {}

/// The wide hash chip, for raw throughput.
#[derive(Clone, Copy, Debug)]
pub struct Poseidon2WideChip {}

/// The FRI folding chip.
#[derive(Clone, Copy, Debug)]
pub struct FriFoldChip {}

/// The exponentiation-by-reversed-bits chip.
#[derive(Clone, Copy, Debug)]
pub struct ExpReverseBitsLenChip {}

/// The public-values chip; its height is a fixed constant.
#[derive(Clone, Copy, Debug)]
pub struct PublicValuesChip {}

/// The padding chip used only to square off column counts.
#[derive(Clone, Copy, Debug)]
pub struct DummyChip {}

/// The closed chip-variant set: one provable machine is a list drawn
/// from these. Adding a chip means adding a variant.
pub enum RecursionAir {
    MemoryConst(MemoryChip),
    MemoryVar(MemoryVarChip),
    BaseAlu(BaseAluChip),
    ExtAlu(ExtAluChip),
    Poseidon2Skinny(Poseidon2SkinnyChip),
    Poseidon2Wide(Poseidon2WideChip),
    FriFold(FriFoldChip),
    ExpReverseBitsLen(ExpReverseBitsLenChip),
    PublicValues(PublicValuesChip),
    DummyWide(DummyChip),
}

/// Each variant's name, unique across the closed set.
pub open spec fn chip_name(c: RecursionAir) -> Seq<char> {
    match c {
        RecursionAir::MemoryConst(_) => "MemoryConst"@,
        RecursionAir::MemoryVar(_) => "MemoryVar"@,
        RecursionAir::BaseAlu(_) => "BaseAlu"@,
        RecursionAir::ExtAlu(_) => "ExtAlu"@,
        RecursionAir::Poseidon2Skinny(_) => "Poseidon2Skinny"@,
        RecursionAir::Poseidon2Wide(_) => "Poseidon2Wide"@,
        RecursionAir::FriFold(_) => "FriFold"@,
        RecursionAir::ExpReverseBitsLen(_) => "ExpReverseBitsLen"@,
        RecursionAir::PublicValues(_) => "PublicValues"@,
        RecursionAir::DummyWide(_) => "DummyWide"@,
    }
}

/// A numbering of the variants, used to order chip lists.
pub open spec fn chip_tag(c: RecursionAir) -> int {
    match c {
        RecursionAir::MemoryConst(_) => 0,
        RecursionAir::MemoryVar(_) => 1,
        RecursionAir::BaseAlu(_) => 2,
        RecursionAir::ExtAlu(_) => 3,
        RecursionAir::Poseidon2Skinny(_) => 4,
        RecursionAir::Poseidon2Wide(_) => 5,
        RecursionAir::FriFold(_) => 6,
        RecursionAir::ExpReverseBitsLen(_) => 7,
        RecursionAir::PublicValues(_) => 8,
        RecursionAir::DummyWide(_) => 9,
    }
}

/// No two chips of one machine share a name.
pub open spec fn chip_names_unique(s: Seq<RecursionAir>) -> bool {
    forall|i: int, j: int|
        0 <= i < j < s.len() ==> chip_name(#[trigger] s[i]) != chip_name(#[trigger] s[j])
}

/// Distinct variants carry distinct names.
proof fn lemma_name_injective(c1: RecursionAir, c2: RecursionAir)
    requires
        chip_tag(c1) != chip_tag(c2),
    ensures
        chip_name(c1) != chip_name(c2),
{
    reveal_strlit("MemoryConst");
    reveal_strlit("MemoryVar");
    reveal_strlit("BaseAlu");
    reveal_strlit("ExtAlu");
    reveal_strlit("Poseidon2Skinny");
    reveal_strlit("Poseidon2Wide");
    reveal_strlit("FriFold");
    reveal_strlit("ExpReverseBitsLen");
    reveal_strlit("PublicValues");
    reveal_strlit("DummyWide");
    assert(("MemoryConst"@).len() == 11);
    assert(("MemoryVar"@).len() == 9);
    assert(("BaseAlu"@).len() == 7);
    assert(("ExtAlu"@).len() == 6);
    assert(("Poseidon2Skinny"@).len() == 15);
    assert(("Poseidon2Wide"@).len() == 13);
    assert(("FriFold"@).len() == 7);
    assert(("ExpReverseBitsLen"@).len() == 17);
    assert(("PublicValues"@).len() == 12);
    assert(("DummyWide"@).len() == 9);
    assert(("BaseAlu"@)[0] == 'B');
    assert(("FriFold"@)[0] == 'F');
    assert(("MemoryVar"@)[0] == 'M');
    assert(("DummyWide"@)[0] == 'D');
}

/// Chips listed in strictly increasing variant order have unique names.
proof fn lemma_tag_mono(s: Seq<RecursionAir>, i: int, j: int)
    requires
        forall|k: int|
            1 <= k < s.len() ==> chip_tag(s[k - 1]) < chip_tag(#[trigger] s[k]),
        0 <= i < j < s.len(),
    ensures
        chip_tag(s[i]) < chip_tag(s[j]),
    decreases j - i,
{
    if j > i + 1 {
        lemma_tag_mono(s, i, j - 1);
    }
}

/// A chip list in strictly increasing variant order has unique names.
proof fn lemma_ordered_chips_unique(s: Seq<RecursionAir>)
    requires
        forall|k: int|
            1 <= k < s.len() ==> chip_tag(s[k - 1]) < chip_tag(#[trigger] s[k]),
    ensures
        chip_names_unique(s),
{
    assert forall|i: int, j: int| 0 <= i < j < s.len() implies chip_name(#[trigger] s[i])
        != chip_name(#[trigger] s[j]) by {
        lemma_tag_mono(s, i, j);
        lemma_name_injective(s[i], s[j]);
    }
}

impl RecursionAir {
    /// This chip's unique name within a machine.
    pub fn name(&self) -> (r: String)
        ensures
            r@ == chip_name(*self),
    {
        match self {
            RecursionAir::MemoryConst(_) => "MemoryConst".to_owned(),
            RecursionAir::MemoryVar(_) => "MemoryVar".to_owned(),
            RecursionAir::BaseAlu(_) => "BaseAlu".to_owned(),
            RecursionAir::ExtAlu(_) => "ExtAlu".to_owned(),
            RecursionAir::Poseidon2Skinny(_) => "Poseidon2Skinny".to_owned(),
            RecursionAir::Poseidon2Wide(_) => "Poseidon2Wide".to_owned(),
            RecursionAir::FriFold(_) => "FriFold".to_owned(),
            RecursionAir::ExpReverseBitsLen(_) => "ExpReverseBitsLen".to_owned(),
            RecursionAir::PublicValues(_) => "PublicValues".to_owned(),
            RecursionAir::DummyWide(_) => "DummyWide".to_owned(),
        }
    }
}

/// One provable machine: an ordered chip list with unique names, and the
/// public-value slot count, handed opaquely to the backend.
pub struct StarkMachine {
    pub chips: Vec<RecursionAir>,
    pub num_pvs: usize,
}

impl StarkMachine {
    /// The names of the listed chips never collide.
    pub open spec fn wf(&self) -> bool {
        chip_names_unique(self.chips@)
    }
}

// ---------------------------------------------------------------------
// Height computation: a pure, order-independent fold over the program.
// ---------------------------------------------------------------------

/// One instruction's weight toward the constant-memory table.
pub open spec fn mem_const_weight(i: Instruction) -> int {
    match i {
        Instruction::Mem(_) => 1,
        _ => 0,
    }
}

/// One instruction's weight toward the variable-memory table: hints
/// count one row per output address.
pub open spec fn mem_var_weight(i: Instruction) -> int {
    match i {
        Instruction::Hint(h) => h.output_addrs_mults@.len() as int,
        Instruction::HintBits(h) => h.output_addrs_mults@.len() as int,
        Instruction::HintExt2Felts(h) => h.output_addrs_mults@.len() as int,
        _ => 0,
    }
}

/// One instruction's weight toward the base-field ALU table.
pub open spec fn base_alu_weight(i: Instruction) -> int {
    match i {
        Instruction::BaseAlu(_) => 1,
        _ => 0,
    }
}

/// One instruction's weight toward the extension-field ALU table.
pub open spec fn ext_alu_weight(i: Instruction) -> int {
    match i {
        Instruction::ExtAlu(_) => 1,
        _ => 0,
    }
}

/// One instruction's weight toward the wide hash table.
pub open spec fn poseidon2_wide_weight(i: Instruction) -> int {
    match i {
        Instruction::Poseidon2 => 1,
        _ => 0,
    }
}

/// One instruction's weight toward the FRI folding table.
pub open spec fn fri_fold_weight(i: Instruction) -> int {
    match i {
        Instruction::FriFold => 1,
        _ => 0,
    }
}

/// One instruction's weight toward the exponentiation table.
pub open spec fn exp_reverse_bits_weight(i: Instruction) -> int {
    match i {
        Instruction::ExpReverseBitsLen => 1,
        _ => 0,
    }
}

/// The constant-memory rows a program needs.
pub open spec fn mem_const_count(s: Seq<Instruction>) -> int {
    sum_by(s, |i: Instruction| mem_const_weight(i))
}

/// The variable-memory rows a program needs.
pub open spec fn mem_var_count(s: Seq<Instruction>) -> int {
    sum_by(s, |i: Instruction| mem_var_weight(i))
}

/// The base-field ALU rows a program needs.
pub open spec fn base_alu_count(s: Seq<Instruction>) -> int {
    sum_by(s, |i: Instruction| base_alu_weight(i))
}

/// The extension-field ALU rows a program needs.
pub open spec fn ext_alu_count(s: Seq<Instruction>) -> int {
    sum_by(s, |i: Instruction| ext_alu_weight(i))
}

/// The wide hash rows a program needs.
pub open spec fn poseidon2_wide_count(s: Seq<Instruction>) -> int {
    sum_by(s, |i: Instruction| poseidon2_wide_weight(i))
}

/// The FRI folding rows a program needs.
pub open spec fn fri_fold_count(s: Seq<Instruction>) -> int {
    sum_by(s, |i: Instruction| fri_fold_weight(i))
}

/// The exponentiation rows a program needs.
pub open spec fn exp_reverse_bits_count(s: Seq<Instruction>) -> int {
    sum_by(s, |i: Instruction| exp_reverse_bits_weight(i))
}

/// The accumulator of the height fold: one natural row count per
/// dynamically sized chip.
#[derive(Clone, Copy, Debug)]
pub struct RecursionAirHeights {
    pub mem_const_height: usize,
    pub mem_var_height: usize,
    pub base_alu_height: usize,
    pub ext_alu_height: usize,
    pub poseidon2_wide_height: usize,
    pub fri_fold_height: usize,
    pub exp_reverse_bits_len_height: usize,
}

impl Default for RecursionAirHeights {
    /// The empty accumulator: no rows needed yet.
    fn default() -> (r: RecursionAirHeights)
        ensures
            r.mem_const_height == 0,
            r.mem_var_height == 0,
            r.base_alu_height == 0,
            r.ext_alu_height == 0,
            r.poseidon2_wide_height == 0,
            r.fri_fold_height == 0,
            r.exp_reverse_bits_len_height == 0,
    {
        RecursionAirHeights {
            mem_const_height: 0,
            mem_var_height: 0,
            base_alu_height: 0,
            ext_alu_height: 0,
            poseidon2_wide_height: 0,
            fri_fold_height: 0,
            exp_reverse_bits_len_height: 0,
        }
    }
}

impl RecursionAirHeights {
    /// Fold one instruction into the accumulator: each counter grows by
    /// that instruction's weight for its chip.
    pub fn add_assign(&mut self, rhs: &Instruction)
        requires
            old(self).mem_const_height + mem_const_weight(*rhs) <= usize::MAX,
            old(self).mem_var_height + mem_var_weight(*rhs) <= usize::MAX,
            old(self).base_alu_height + base_alu_weight(*rhs) <= usize::MAX,
            old(self).ext_alu_height + ext_alu_weight(*rhs) <= usize::MAX,
            old(self).poseidon2_wide_height + poseidon2_wide_weight(*rhs) <= usize::MAX,
            old(self).fri_fold_height + fri_fold_weight(*rhs) <= usize::MAX,
            old(self).exp_reverse_bits_len_height + exp_reverse_bits_weight(*rhs) <= usize::MAX,
        ensures
            final(self).mem_const_height == old(self).mem_const_height + mem_const_weight(*rhs),
            final(self).mem_var_height == old(self).mem_var_height + mem_var_weight(*rhs),
            final(self).base_alu_height == old(self).base_alu_height + base_alu_weight(*rhs),
            final(self).ext_alu_height == old(self).ext_alu_height + ext_alu_weight(*rhs),
            final(self).poseidon2_wide_height == old(self).poseidon2_wide_height
                + poseidon2_wide_weight(*rhs),
            final(self).fri_fold_height == old(self).fri_fold_height + fri_fold_weight(*rhs),
            final(self).exp_reverse_bits_len_height == old(self).exp_reverse_bits_len_height
                + exp_reverse_bits_weight(*rhs),
    {
        match rhs {
            Instruction::BaseAlu(_) => {
                self.base_alu_height = self.base_alu_height + 1;
            },
            Instruction::ExtAlu(_) => {
                self.ext_alu_height = self.ext_alu_height + 1;
            },
            Instruction::Mem(_) => {
                self.mem_const_height = self.mem_const_height + 1;
            },
            Instruction::Poseidon2 => {
                self.poseidon2_wide_height = self.poseidon2_wide_height + 1;
            },
            Instruction::ExpReverseBitsLen => {
                self.exp_reverse_bits_len_height = self.exp_reverse_bits_len_height + 1;
            },
            Instruction::Hint(h) => {
                self.mem_var_height = self.mem_var_height + h.output_addrs_mults.len();
            },
            Instruction::HintBits(h) => {
                // no receive interaction for the hint input
                self.mem_var_height = self.mem_var_height + h.output_addrs_mults.len();
            },
            Instruction::HintExt2Felts(h) => {
                // no receive interaction for the hint input
                self.mem_var_height = self.mem_var_height + h.output_addrs_mults.len();
            },
            Instruction::FriFold => {
                self.fri_fold_height = self.fri_fold_height + 1;
            },
            Instruction::CommitPublicValues => {},
            Instruction::Print => {},
        }
    }

    /// Fold one instruction, by value.
    pub fn add(self, rhs: &Instruction) -> (r: RecursionAirHeights)
        requires
            self.mem_const_height + mem_const_weight(*rhs) <= usize::MAX,
            self.mem_var_height + mem_var_weight(*rhs) <= usize::MAX,
            self.base_alu_height + base_alu_weight(*rhs) <= usize::MAX,
            self.ext_alu_height + ext_alu_weight(*rhs) <= usize::MAX,
            self.poseidon2_wide_height + poseidon2_wide_weight(*rhs) <= usize::MAX,
            self.fri_fold_height + fri_fold_weight(*rhs) <= usize::MAX,
            self.exp_reverse_bits_len_height + exp_reverse_bits_weight(*rhs) <= usize::MAX,
        ensures
            r.mem_const_height == self.mem_const_height + mem_const_weight(*rhs),
            r.mem_var_height == self.mem_var_height + mem_var_weight(*rhs),
            r.base_alu_height == self.base_alu_height + base_alu_weight(*rhs),
            r.ext_alu_height == self.ext_alu_height + ext_alu_weight(*rhs),
            r.poseidon2_wide_height == self.poseidon2_wide_height + poseidon2_wide_weight(*rhs),
            r.fri_fold_height == self.fri_fold_height + fri_fold_weight(*rhs),
            r.exp_reverse_bits_len_height == self.exp_reverse_bits_len_height
                + exp_reverse_bits_weight(*rhs),
    {
        let mut out = self;
        out.add_assign(rhs);
        out
    }
}

/// The constant-memory counter of the height fold counts exactly the
/// entries the memory chip packs into its preprocessed table, so the
/// two sizes are derived from one quantity.
pub proof fn lemma_mem_const_count_is_entry_count(s: Seq<Instruction>)
    ensures
        mem_const_count(s) == crate::program::mem_entries(s).len(),
    decreases s.len(),
{
    if s.len() > 0 {
        lemma_mem_const_count_is_entry_count(s.drop_last());
        match s.last() {
            Instruction::Mem(m) => {
                assert(crate::program::mem_entries(s) =~= crate::program::mem_entries(
                    s.drop_last(),
                ).push(crate::program::entry_of(m)));
            },
            _ => {
                assert(crate::program::mem_entries(s) =~= crate::program::mem_entries(
                    s.drop_last(),
                ));
            },
        }
    }
}

/// Height computation is invariant under reordering: two programs with
/// the same multiset of instructions need the same row counts, chip by
/// chip, so the fold is safely parallelizable.
pub proof fn lemma_heights_permutation_invariant(s1: Seq<Instruction>, s2: Seq<Instruction>)
    requires
        s1.to_multiset() == s2.to_multiset(),
    ensures
        mem_const_count(s1) == mem_const_count(s2),
        mem_var_count(s1) == mem_var_count(s2),
        base_alu_count(s1) == base_alu_count(s2),
        ext_alu_count(s1) == ext_alu_count(s2),
        poseidon2_wide_count(s1) == poseidon2_wide_count(s2),
        fri_fold_count(s1) == fri_fold_count(s2),
        exp_reverse_bits_count(s1) == exp_reverse_bits_count(s2),
{
    lemma_sum_by_permutation(s1, s2, |i: Instruction| mem_const_weight(i));
    lemma_sum_by_permutation(s1, s2, |i: Instruction| mem_var_weight(i));
    lemma_sum_by_permutation(s1, s2, |i: Instruction| base_alu_weight(i));
    lemma_sum_by_permutation(s1, s2, |i: Instruction| ext_alu_weight(i));
    lemma_sum_by_permutation(s1, s2, |i: Instruction| poseidon2_wide_weight(i));
    lemma_sum_by_permutation(s1, s2, |i: Instruction| fri_fold_weight(i));
    lemma_sum_by_permutation(s1, s2, |i: Instruction| exp_reverse_bits_weight(i));
}

impl RecursionAir {
    /// Fold the program into per-chip natural row counts; the
    /// public-values chip always reports its fixed constant.
    pub fn heights(program: &RecursionProgram) -> (r: Vec<(String, usize)>)
        requires
            mem_var_count(program.instructions@) <= usize::MAX,
        ensures
            r@.len() == 7,
            r@[0].0@ == "MemoryConst"@ && r@[0].1 == mem_const_count(program.instructions@),
            r@[1].0@ == "MemoryVar"@ && r@[1].1 == mem_var_count(program.instructions@),
            r@[2].0@ == "BaseAlu"@ && r@[2].1 == base_alu_count(program.instructions@),
            r@[3].0@ == "ExtAlu"@ && r@[3].1 == ext_alu_count(program.instructions@),
            r@[4].0@ == "Poseidon2Wide"@ && r@[4].1 == poseidon2_wide_count(
                program.instructions@,
            ),
            r@[5].0@ == "ExpReverseBitsLen"@ && r@[5].1 == exp_reverse_bits_count(
                program.instructions@,
            ),
            r@[6].0@ == "PublicValues"@ && r@[6].1 == PUB_VALUES_LOG_HEIGHT,
    {
        let n = program.instructions.len();
        let ghost sv = program.instructions@;
        let mut heights = RecursionAirHeights::default();
        let mut idx: usize = 0;
        proof {
            assert(sv.take(0) =~= Seq::<Instruction>::empty());
        }
        while idx < n
            invariant
                0 <= idx <= n,
                n == sv.len(),
                sv == program.instructions@,
                mem_var_count(sv) <= usize::MAX,
                heights.mem_const_height == mem_const_count(sv.take(idx as int)),
                heights.mem_var_height == mem_var_count(sv.take(idx as int)),
                heights.base_alu_height == base_alu_count(sv.take(idx as int)),
                heights.ext_alu_height == ext_alu_count(sv.take(idx as int)),
                heights.poseidon2_wide_height == poseidon2_wide_count(sv.take(idx as int)),
                heights.fri_fold_height == fri_fold_count(sv.take(idx as int)),
                heights.exp_reverse_bits_len_height == exp_reverse_bits_count(
                    sv.take(idx as int),
                ),
            decreases n - idx,
        {
            proof {
                assert(sv.take(idx + 1).drop_last() =~= sv.take(idx as int));
                assert(sv.take(idx + 1).last() == sv[idx as int]);
                lemma_sum_by_prefix_le(sv, |i: Instruction| mem_const_weight(i), idx + 1);
                lemma_sum_by_prefix_le(sv, |i: Instruction| mem_var_weight(i), idx + 1);
                lemma_sum_by_prefix_le(sv, |i: Instruction| base_alu_weight(i), idx + 1);
                lemma_sum_by_prefix_le(sv, |i: Instruction| ext_alu_weight(i), idx + 1);
                lemma_sum_by_prefix_le(sv, |i: Instruction| poseidon2_wide_weight(i), idx + 1);
                lemma_sum_by_prefix_le(sv, |i: Instruction| fri_fold_weight(i), idx + 1);
                lemma_sum_by_prefix_le(sv, |i: Instruction| exp_reverse_bits_weight(i), idx + 1);
                lemma_sum_by_bounds(sv, |i: Instruction| mem_const_weight(i), 1);
                lemma_sum_by_bounds(sv, |i: Instruction| base_alu_weight(i), 1);
                lemma_sum_by_bounds(sv, |i: Instruction| ext_alu_weight(i), 1);
                lemma_sum_by_bounds(sv, |i: Instruction| poseidon2_wide_weight(i), 1);
                lemma_sum_by_bounds(sv, |i: Instruction| fri_fold_weight(i), 1);
                lemma_sum_by_bounds(sv, |i: Instruction| exp_reverse_bits_weight(i), 1);
                lemma_sum_by_bounds(sv.take(idx + 1), |i: Instruction| mem_const_weight(i), 1);
                lemma_sum_by_bounds(sv.take(idx + 1), |i: Instruction| base_alu_weight(i), 1);
                lemma_sum_by_bounds(sv.take(idx + 1), |i: Instruction| ext_alu_weight(i), 1);
                lemma_sum_by_bounds(
                    sv.take(idx + 1),
                    |i: Instruction| poseidon2_wide_weight(i),
                    1,
                );
                lemma_sum_by_bounds(sv.take(idx + 1), |i: Instruction| fri_fold_weight(i), 1);
                lemma_sum_by_bounds(
                    sv.take(idx + 1),
                    |i: Instruction| exp_reverse_bits_weight(i),
                    1,
                );
            }
            proof {
                let prev = sv.take(idx as int);
                let cur = sv.take(idx + 1);
                let inst = sv[idx as int];
                assert(mem_const_count(cur) == mem_const_count(prev) + mem_const_weight(inst));
                assert(mem_var_count(cur) == mem_var_count(prev) + mem_var_weight(inst));
                assert(base_alu_count(cur) == base_alu_count(prev) + base_alu_weight(inst));
                assert(ext_alu_count(cur) == ext_alu_count(prev) + ext_alu_weight(inst));
                assert(poseidon2_wide_count(cur) == poseidon2_wide_count(prev)
                    + poseidon2_wide_weight(inst));
                assert(fri_fold_count(cur) == fri_fold_count(prev) + fri_fold_weight(inst));
                assert(exp_reverse_bits_count(cur) == exp_reverse_bits_count(prev)
                    + exp_reverse_bits_weight(inst));
            }
            heights.add_assign(&program.instructions[idx]);
            idx = idx + 1;
        }
        proof {
            assert(sv.take(n as int) =~= sv);
        }
        let mut r: Vec<(String, usize)> = Vec::new();
        r.push(("MemoryConst".to_owned(), heights.mem_const_height));
        r.push(("MemoryVar".to_owned(), heights.mem_var_height));
        r.push(("BaseAlu".to_owned(), heights.base_alu_height));
        r.push(("ExtAlu".to_owned(), heights.ext_alu_height));
        r.push(("Poseidon2Wide".to_owned(), heights.poseidon2_wide_height));
        r.push(("ExpReverseBitsLen".to_owned(), heights.exp_reverse_bits_len_height));
        r.push(("PublicValues".to_owned(), PUB_VALUES_LOG_HEIGHT));
        r
    }

    /// The fixed shape of the shrink stage: pre-declared log2 heights for
    /// a curated subset of chips, so every shard of that stage yields
    /// identically shaped tables.
    pub fn shrink_shape() -> (r: RecursionShape)
        ensures
            shape_entries(r) == shrink_shape_entries(),
    {
        let mut shape = RecursionShape::new();
        shape.insert("MemoryConst", 16);
        shape.insert("MemoryVar", 18);
        shape.insert("BaseAlu", 20);
        shape.insert("ExtAlu", 22);
        shape.insert("Poseidon2Wide", 16);
        shape.insert("ExpReverseBitsLen", 16);
        shape.insert("PublicValues", PUB_VALUES_LOG_HEIGHT);
        shape
    }
}

/// What the shrink stage fixes, chip by chip.
pub open spec fn shrink_shape_entries() -> Map<Seq<char>, usize> {
    Map::empty().insert("MemoryConst"@, 16usize).insert("MemoryVar"@, 18usize).insert(
        "BaseAlu"@,
        20usize,
    ).insert("ExtAlu"@, 22usize).insert("Poseidon2Wide"@, 16usize).insert(
        "ExpReverseBitsLen"@,
        16usize,
    ).insert("PublicValues"@, PUB_VALUES_LOG_HEIGHT)
}

impl RecursionAir {
    /// The wide-throughput machine: every chip, with the wide hash.
    pub fn machine_wide_with_all_chips() -> (m: StarkMachine)
        ensures
            m.num_pvs == PROOF_MAX_NUM_PVS,
            m.chips@.len() == 8,
            m.chips@[0] is MemoryConst,
            m.chips@[1] is MemoryVar,
            m.chips@[2] is BaseAlu,
            m.chips@[3] is ExtAlu,
            m.chips@[4] is Poseidon2Wide,
            m.chips@[5] is FriFold,
            m.chips@[6] is ExpReverseBitsLen,
            m.chips@[7] is PublicValues,
            m.wf(),
    {
        let mut chips: Vec<RecursionAir> = Vec::new();
        chips.push(RecursionAir::MemoryConst(MemoryChip {  }));
        chips.push(RecursionAir::MemoryVar(MemoryVarChip {  }));
        chips.push(RecursionAir::BaseAlu(BaseAluChip {  }));
        chips.push(RecursionAir::ExtAlu(ExtAluChip {  }));
        chips.push(RecursionAir::Poseidon2Wide(Poseidon2WideChip {  }));
        chips.push(RecursionAir::FriFold(FriFoldChip {  }));
        chips.push(RecursionAir::ExpReverseBitsLen(ExpReverseBitsLenChip {  }));
        chips.push(RecursionAir::PublicValues(PublicValuesChip {  }));
        proof {
            lemma_ordered_chips_unique(chips@);
        }
        StarkMachine { chips, num_pvs: PROOF_MAX_NUM_PVS }
    }

    /// The small-proof machine: every chip, with the column-reduced hash.
    pub fn machine_skinny_with_all_chips() -> (m: StarkMachine)
        ensures
            m.num_pvs == PROOF_MAX_NUM_PVS,
            m.chips@.len() == 8,
            m.chips@[0] is MemoryConst,
            m.chips@[1] is MemoryVar,
            m.chips@[2] is BaseAlu,
            m.chips@[3] is ExtAlu,
            m.chips@[4] is Poseidon2Skinny,
            m.chips@[5] is FriFold,
            m.chips@[6] is ExpReverseBitsLen,
            m.chips@[7] is PublicValues,
            m.wf(),
    {
        let mut chips: Vec<RecursionAir> = Vec::new();
        chips.push(RecursionAir::MemoryConst(MemoryChip {  }));
        chips.push(RecursionAir::MemoryVar(MemoryVarChip {  }));
        chips.push(RecursionAir::BaseAlu(BaseAluChip {  }));
        chips.push(RecursionAir::ExtAlu(ExtAluChip {  }));
        chips.push(RecursionAir::Poseidon2Skinny(Poseidon2SkinnyChip {  }));
        chips.push(RecursionAir::FriFold(FriFoldChip {  }));
        chips.push(RecursionAir::ExpReverseBitsLen(ExpReverseBitsLenChip {  }));
        chips.push(RecursionAir::PublicValues(PublicValuesChip {  }));
        proof {
            lemma_ordered_chips_unique(chips@);
        }
        StarkMachine { chips, num_pvs: PROOF_MAX_NUM_PVS }
    }

    /// The proof-folding machine: core chips and the wide hash, sized
    /// dynamically.
    pub fn compress_machine() -> (m: StarkMachine)
        ensures
            m.num_pvs == PROOF_MAX_NUM_PVS,
            m.chips@.len() == 7,
            m.chips@[0] is MemoryConst,
            m.chips@[1] is MemoryVar,
            m.chips@[2] is BaseAlu,
            m.chips@[3] is ExtAlu,
            m.chips@[4] is Poseidon2Wide,
            m.chips@[5] is ExpReverseBitsLen,
            m.chips@[6] is PublicValues,
            m.wf(),
    {
        let mut chips: Vec<RecursionAir> = Vec::new();
        chips.push(RecursionAir::MemoryConst(MemoryChip {  }));
        chips.push(RecursionAir::MemoryVar(MemoryVarChip {  }));
        chips.push(RecursionAir::BaseAlu(BaseAluChip {  }));
        chips.push(RecursionAir::ExtAlu(ExtAluChip {  }));
        chips.push(RecursionAir::Poseidon2Wide(Poseidon2WideChip {  }));
        chips.push(RecursionAir::ExpReverseBitsLen(ExpReverseBitsLenChip {  }));
        chips.push(RecursionAir::PublicValues(PublicValuesChip {  }));
        proof {
            lemma_ordered_chips_unique(chips@);
        }
        StarkMachine { chips, num_pvs: PROOF_MAX_NUM_PVS }
    }

    /// The shape-normalizing machine: the compress chip set; its shards
    /// are sized by [`RecursionAir::shrink_shape`].
    pub fn shrink_machine() -> (m: StarkMachine)
        ensures
            m.num_pvs == PROOF_MAX_NUM_PVS,
            m.chips@.len() == 7,
            m.chips@[0] is MemoryConst,
            m.chips@[1] is MemoryVar,
            m.chips@[2] is BaseAlu,
            m.chips@[3] is ExtAlu,
            m.chips@[4] is Poseidon2Wide,
            m.chips@[5] is ExpReverseBitsLen,
            m.chips@[6] is PublicValues,
            m.wf(),
    {
        Self::compress_machine()
    }

    /// The final machine before external verification: core chips and
    /// the column-reduced hash; shapes are fixed by the stage before.
    pub fn wrap_machine() -> (m: StarkMachine)
        ensures
            m.num_pvs == PROOF_MAX_NUM_PVS,
            m.chips@.len() == 7,
            m.chips@[0] is MemoryConst,
            m.chips@[1] is MemoryVar,
            m.chips@[2] is BaseAlu,
            m.chips@[3] is ExtAlu,
            m.chips@[4] is Poseidon2Skinny,
            m.chips@[5] is ExpReverseBitsLen,
            m.chips@[6] is PublicValues,
            m.wf(),
    {
        let mut chips: Vec<RecursionAir> = Vec::new();
        chips.push(RecursionAir::MemoryConst(MemoryChip {  }));
        chips.push(RecursionAir::MemoryVar(MemoryVarChip {  }));
        chips.push(RecursionAir::BaseAlu(BaseAluChip {  }));
        chips.push(RecursionAir::ExtAlu(ExtAluChip {  }));
        chips.push(RecursionAir::Poseidon2Skinny(Poseidon2SkinnyChip {  }));
        chips.push(RecursionAir::ExpReverseBitsLen(ExpReverseBitsLenChip {  }));
        chips.push(RecursionAir::PublicValues(PublicValuesChip {  }));
        proof {
            lemma_ordered_chips_unique(chips@);
        }
        StarkMachine { chips, num_pvs: PROOF_MAX_NUM_PVS }
    }
}

} // verus!
