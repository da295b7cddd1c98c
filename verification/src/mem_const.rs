//! The constant-memory consistency chip. Every memory operation whose
//! address and value are known when the program is built lives in the
//! preprocessed table: entries are packed two to a row, reads carry the
//! field-negated multiplicity, and constraint evaluation emits one
//! outgoing interaction per packed entry. The runtime table is a single
//! placeholder column whose row count is derived from the shard's
//! counter through the same row-count function, so the two heights can
//! never diverge.

use crate::field::{field_neg, is_felt, FIELD_MODULUS};
use crate::interaction::{
    balanced, balanced_at, contribution, entry_contribution, entry_key_sum, key_sum,
    lemma_matched_key_sum_zero, memory_interactions_balanced, Interaction, InteractionBuilder,
    RecursionAirBuilder, SP1RecursionAirBuilder,
};
use crate::program::{
    entry_of, instr_wf, matched, mem_entries, Address, Block, Instruction, MemAccessKind,
    MemEntry, RecursionProgram, D,
};
use crate::record::ExecutionRecord;
use crate::shape::fixed_log2_of;
use crate::sums::{lemma_sum_by_pointwise, lemma_sum_by_zero_tail};
use crate::trace::{height_ok, lemma_next_pow2_exact, next_power_of_two, padded_height, Trace};
use vstd::arithmetic::div_mod::{
    lemma_fundamental_div_mod, lemma_fundamental_div_mod_converse, lemma_small_mod,
};
use vstd::arithmetic::mul::lemma_mul_inequality;
use vstd::prelude::*;

verus! {

/// Entries packed into one preprocessed row.
pub const NUM_CONST_MEM_ENTRIES_PER_ROW: usize = 2;

/// Field elements one packed entry occupies: a value block, an address,
/// a multiplicity.
pub const ENTRY_WIDTH: usize = D + 2;

/// Width of the runtime table: a single placeholder column.
pub const NUM_MEM_INIT_COLS: usize = 1;

/// Width of the preprocessed table.
pub const NUM_MEM_PREPROCESSED_INIT_COLS: usize = ENTRY_WIDTH * NUM_CONST_MEM_ENTRIES_PER_ROW;

/// The columns one memory access occupies beside its value: its address
/// and its signed multiplicity.
#[derive(Clone, Copy, Debug)]
pub struct MemoryAccessCols {
    pub addr: Address,
    pub mult: u32,
}

/// The runtime columns. At least one column is required by the backend,
/// so a placeholder stands here.
#[derive(Clone, Copy, Debug)]
pub struct MemoryCols {
    pub _nothing: u32,
}

/// The preprocessed columns of one row: a fixed number of packed
/// (value, access) pairs.
#[derive(Clone, Copy, Debug)]
pub struct MemoryPreprocessedCols {
    pub values_and_accesses: [(Block, MemoryAccessCols); NUM_CONST_MEM_ENTRIES_PER_ROW],
}

/// The constant-memory chip.
pub struct MemoryChip {}

impl Default for MemoryChip {
    fn default() -> (r: MemoryChip)
        ensures
            r == (MemoryChip {  }),
    {
        MemoryChip {  }
    }
}

/// The chip's name on the memory channel maps.
pub open spec fn mem_const_chip_name() -> Seq<char> {
    "MemoryConst"@
}

/// Rows needed to pack `n` entries, before padding.
pub open spec fn num_rows_for(n: nat) -> nat {
    if n == 0 {
        0
    } else {
        (n - 1) as nat / (NUM_CONST_MEM_ENTRIES_PER_ROW as nat) + 1
    }
}

/// The value at flat index `j` of the preprocessed table holding the
/// given entries: entry `j / 6`, field `j % 6` (four value elements, the
/// address, the signed multiplicity), zero beyond the entries.
pub open spec fn prep_cell(entries: Seq<MemEntry>, j: int) -> u32 {
    let e = j / (ENTRY_WIDTH as int);
    let off = j % (ENTRY_WIDTH as int);
    if 0 <= e < entries.len() {
        if off < D {
            entries[e].val[off]
        } else if off == D {
            entries[e].addr
        } else {
            entries[e].mult
        }
    } else {
        0
    }
}

/// The height of the preprocessed table a program gives rise to.
pub open spec fn preprocessed_height(prog: RecursionProgram) -> nat {
    padded_height(
        num_rows_for(mem_entries(prog.instructions@).len()),
        fixed_log2_of(prog.shape, mem_const_chip_name()),
    )
}

/// What the preprocessed trace of a program holds, cell by cell.
pub open spec fn is_preprocessed_trace(t: Trace, prog: RecursionProgram) -> bool {
    &&& t.width == NUM_MEM_PREPROCESSED_INIT_COLS
    &&& t.values@.len() == (NUM_MEM_PREPROCESSED_INIT_COLS as nat) * preprocessed_height(prog)
    &&& forall|j: int|
        0 <= j < t.values@.len() ==> t.values@[j] == prep_cell(
            mem_entries(prog.instructions@),
            j,
        )
}

/// The height of the runtime table a shard gives rise to, derived from
/// the shard's counter through the same row-count function as the
/// preprocessed table.
pub open spec fn runtime_height(rec: ExecutionRecord) -> nat {
    padded_height(
        num_rows_for(rec.mem_const_count as nat),
        fixed_log2_of(rec.shape, mem_const_chip_name()),
    )
}

/// What the runtime trace of a shard holds: one placeholder column of
/// zeroes, as many rows as the counter requires.
pub open spec fn is_runtime_trace(t: Trace, rec: ExecutionRecord) -> bool {
    &&& t.width == NUM_MEM_INIT_COLS
    &&& t.values@.len() == runtime_height(rec)
    &&& forall|j: int| 0 <= j < t.values@.len() ==> t.values@[j] == 0u32
}

/// An index below `6 * n` falls in entry `j / 6 < n`.
proof fn lemma_flat_bound(j: int, n: int)
    requires
        0 <= j,
        j < 6 * n,
    ensures
        0 <= j / 6 < n,
        0 <= j % 6 < 6,
        j == 6 * (j / 6) + j % 6,
{
    lemma_fundamental_div_mod(j, 6);
    if j / 6 >= n {
        lemma_mul_inequality(n, j / 6, 6);
    }
}

/// An index at or past `6 * n` falls past entry `n`.
proof fn lemma_flat_ge(j: int, n: int)
    requires
        0 <= n,
        6 * n <= j,
    ensures
        j / 6 >= n,
{
    lemma_fundamental_div_mod(j, 6);
    if j / 6 < n {
        lemma_mul_inequality(j / 6 + 1, n, 6);
    }
}

/// The flat index of field `off` of entry `k`.
proof fn lemma_entry_index(k: int, off: int)
    requires
        0 <= k,
        0 <= off < 6,
    ensures
        (6 * k + off) / 6 == k,
        (6 * k + off) % 6 == off,
{
    lemma_fundamental_div_mod_converse(6 * k + off, 6, k, off);
}

/// Every constant-memory entry's value is one whole block wide.
proof fn lemma_mem_entries_val_len(s: Seq<Instruction>)
    ensures
        forall|k: int|
            0 <= k < mem_entries(s).len() ==> (#[trigger] mem_entries(s)[k]).val.len() == D,
    decreases s.len(),
{
    if s.len() > 0 {
        lemma_mem_entries_val_len(s.drop_last());
        match s.last() {
            Instruction::Mem(m) => {
                assert(mem_entries(s) =~= mem_entries(s.drop_last()).push(entry_of(m)));
            },
            _ => {
                assert(mem_entries(s) =~= mem_entries(s.drop_last()));
            },
        }
    }
}

/// Packing covers the entries: a table padded at width 12 holds all
/// `6 * n` entry cells, and padding never shrinks the row count.
proof fn lemma_total_covers_entries(n: nat, fixed: Option<usize>)
    requires
        height_ok(num_rows_for(n), fixed, NUM_MEM_PREPROCESSED_INIT_COLS as nat),
    ensures
        padded_height(num_rows_for(n), fixed) >= num_rows_for(n),
        6 * n <= 12 * padded_height(num_rows_for(n), fixed),
{
    let rows = num_rows_for(n);
    if n > 0 {
        lemma_fundamental_div_mod((n - 1) as int, 2);
    }
    assert(2 * rows >= n);
    match fixed {
        Option::Some(p) => {},
        Option::None => {
            lemma_next_pow2_exact(rows);
        },
    }
}

impl MemoryChip {
    /// The runtime table's column count.
    pub fn width(&self) -> (r: usize)
        ensures
            r == NUM_MEM_INIT_COLS,
    {
        NUM_MEM_INIT_COLS
    }

    /// The chip's unique name within a machine.
    pub fn name(&self) -> (r: String)
        ensures
            r@ == mem_const_chip_name(),
    {
        "MemoryConst".to_owned()
    }

    /// The preprocessed table's column count.
    pub fn preprocessed_width(&self) -> (r: usize)
        ensures
            r == NUM_MEM_PREPROCESSED_INIT_COLS,
    {
        NUM_MEM_PREPROCESSED_INIT_COLS
    }

    /// Every shard needs this chip.
    pub fn included(&self, _record: &ExecutionRecord) -> (r: bool)
        ensures
            r,
    {
        true
    }

    /// The shared-counter hook other chips use to post-process a shard;
    /// this chip leaves the record untouched.
    pub fn generate_dependencies(&self, _input: &ExecutionRecord, output: &mut ExecutionRecord)
        ensures
            *final(output) == *old(output),
    {
    }

    /// Filter the program to its constant-memory instructions, sign each
    /// multiplicity (negated for reads), pack two entries per row, pad
    /// with zero rows to the fixed shape or the next power of two, and
    /// flatten row-major.
    pub fn generate_preprocessed_trace(&self, program: &RecursionProgram) -> (r: Option<Trace>)
        requires
            program.wf(),
            height_ok(
                num_rows_for(mem_entries(program.instructions@).len()),
                fixed_log2_of(program.shape, mem_const_chip_name()),
                NUM_MEM_PREPROCESSED_INIT_COLS as nat,
            ),
        ensures
            r matches Some(t) && is_preprocessed_trace(t, *program),
    {
        let ghost entries_all = mem_entries(program.instructions@);
        let n_instr = program.instructions.len();
        let mut values: Vec<u32> = Vec::new();
        let mut n_entries: usize = 0;
        let mut idx: usize = 0;
        while idx < n_instr
            invariant
                0 <= idx <= n_instr,
                n_instr == program.instructions@.len(),
                program.wf(),
                n_entries as nat == mem_entries(program.instructions@.take(idx as int)).len(),
                n_entries <= idx,
                values@.len() == 6 * n_entries,
                forall|j: int|
                    0 <= j < values@.len() ==> values@[j] == prep_cell(
                        mem_entries(program.instructions@.take(idx as int)),
                        j,
                    ),
            decreases n_instr - idx,
        {
            let ghost pre_entries = mem_entries(program.instructions@.take(idx as int));
            proof {
                assert(program.instructions@.take(idx + 1).drop_last() =~= program.instructions@
                    .take(idx as int));
                assert(program.instructions@.take(idx + 1).last() == program.instructions@[idx as int]);
            }
            match &program.instructions[idx] {
                Instruction::Mem(m) => {
                    proof {
                        assert(instr_wf(program.instructions@[idx as int]));
                    }
                    let signed = match m.kind {
                        MemAccessKind::Read => field_neg(m.mult),
                        MemAccessKind::Write => m.mult,
                    };
                    values.push(m.vals.inner.0[0]);
                    values.push(m.vals.inner.0[1]);
                    values.push(m.vals.inner.0[2]);
                    values.push(m.vals.inner.0[3]);
                    values.push(m.addrs.inner.0);
                    values.push(signed);
                    n_entries = n_entries + 1;
                    proof {
                        let new_entries = mem_entries(program.instructions@.take(idx + 1));
                        assert(new_entries =~= pre_entries.push(entry_of(*m)));
                        let ne = n_entries as int;
                        assert forall|j: int| 0 <= j < values@.len() implies values@[j]
                            == prep_cell(new_entries, j) by {
                            if j < 6 * (ne - 1) {
                                lemma_flat_bound(j, ne - 1);
                                assert(new_entries[j / 6] == pre_entries[j / 6]);
                            } else {
                                let off = j - 6 * (ne - 1);
                                lemma_entry_index(ne - 1, off);
                                assert(j == 6 * (ne - 1) + off);
                                assert(new_entries[ne - 1] == entry_of(*m));
                            }
                        }
                    }
                },
                _ => {
                    proof {
                        assert(mem_entries(program.instructions@.take(idx + 1)) =~= pre_entries);
                    }
                },
            }
            idx = idx + 1;
        }
        proof {
            assert(program.instructions@.take(n_instr as int) =~= program.instructions@);
        }

        let n_rows = if n_entries == 0 {
            0
        } else {
            (n_entries - 1) / NUM_CONST_MEM_ENTRIES_PER_ROW + 1
        };
        assert(n_rows as nat == num_rows_for(entries_all.len()));
        let fixed = program.fixed_log2_rows("MemoryConst");
        let ghost rows_n = num_rows_for(entries_all.len());
        let ghost fx = fixed_log2_of(program.shape, mem_const_chip_name());
        proof {
            lemma_total_covers_entries(entries_all.len(), fx);
            lemma_mul_inequality(1, 12, padded_height(rows_n, fx) as int);
        }
        let height = next_power_of_two(n_rows, fixed);
        proof {
            assert(NUM_MEM_PREPROCESSED_INIT_COLS == 12);
            assert((NUM_MEM_PREPROCESSED_INIT_COLS as nat) * padded_height(rows_n, fx)
                <= usize::MAX);
            assert((height as int) * (NUM_MEM_PREPROCESSED_INIT_COLS as int) == 12 * (
            padded_height(rows_n, fx) as int));
        }
        let total = height * NUM_MEM_PREPROCESSED_INIT_COLS;
        while values.len() < total
            invariant
                total == 12 * padded_height(rows_n, fx),
                entries_all == mem_entries(program.instructions@),
                rows_n == num_rows_for(entries_all.len()),
                6 * entries_all.len() <= values@.len(),
                values@.len() <= total,
                forall|j: int|
                    0 <= j < values@.len() ==> values@[j] == prep_cell(entries_all, j),
            decreases total - values.len(),
        {
            proof {
                lemma_flat_ge(values@.len() as int, entries_all.len() as int);
            }
            values.push(0);
        }

        Some(Trace { values, width: NUM_MEM_PREPROCESSED_INIT_COLS })
    }

    /// Derive the runtime row count solely from the shard's counter of
    /// constant-memory operations — never by re-scanning instructions —
    /// and emit the placeholder table at the matching height.
    pub fn generate_trace(&self, input: &ExecutionRecord, output: &mut ExecutionRecord) -> (t:
        Trace)
        requires
            height_ok(
                num_rows_for(input.mem_const_count as nat),
                fixed_log2_of(input.shape, mem_const_chip_name()),
                NUM_MEM_INIT_COLS as nat,
            ),
        ensures
            *final(output) == *old(output),
            is_runtime_trace(t, *input),
    {
        let num_rows = if input.mem_const_count == 0 {
            0
        } else {
            (input.mem_const_count - 1) / NUM_CONST_MEM_ENTRIES_PER_ROW + 1
        };
        let fixed = input.fixed_log2_rows("MemoryConst");
        let height = next_power_of_two(num_rows, fixed);
        let mut values: Vec<u32> = Vec::new();
        while values.len() < height
            invariant
                values@.len() <= height,
                forall|j: int| 0 <= j < values@.len() ==> values@[j] == 0u32,
            decreases height - values.len(),
        {
            values.push(0);
        }
        Trace { values, width: NUM_MEM_INIT_COLS }
    }

    /// For every (value, access) pair of every preprocessed row, emit one
    /// outgoing interaction (address, value, signed multiplicity) on the
    /// memory channel; a zero-multiplicity padding entry contributes
    /// nothing to any sum.
    pub fn eval<AB: SP1RecursionAirBuilder>(&self, builder: &mut AB)
        requires
            old(builder).preprocessed_view().width == NUM_MEM_PREPROCESSED_INIT_COLS,
            old(builder).preprocessed_view().values@.len() % 12 == 0,
        ensures
            final(builder).preprocessed_view() == old(builder).preprocessed_view(),
            final(builder).interaction_log().len() == old(builder).interaction_log().len() + old(
                builder,
            ).preprocessed_view().values@.len() / 6,
            final(builder).interaction_log().take(
                old(builder).interaction_log().len() as int,
            ) == old(builder).interaction_log(),
            forall|k: int|
                0 <= k < old(builder).preprocessed_view().values@.len() / 6
                    ==> #[trigger] slot_send_ok(
                    final(builder).interaction_log()[old(builder).interaction_log().len() + k],
                    old(builder).preprocessed_view().values@,
                    k,
                ),
    {
        let ghost vals = builder.preprocessed_view().values@;
        let ghost base_len = builder.interaction_log().len() as int;
        let height = builder.preprocessed().values.len() / NUM_MEM_PREPROCESSED_INIT_COLS;
        proof {
            lemma_fundamental_div_mod(vals.len() as int, 12);
            assert(vals.len() == 12 * (height as int));
        }
        let mut row: usize = 0;
        while row < height
            invariant
                builder.preprocessed_view() == old(builder).preprocessed_view(),
                builder.preprocessed_view().width == NUM_MEM_PREPROCESSED_INIT_COLS,
                vals == builder.preprocessed_view().values@,
                vals.len() == 12 * (height as int),
                0 <= row <= height,
                base_len == old(builder).interaction_log().len(),
                builder.interaction_log().len() == base_len + 2 * row,
                builder.interaction_log().take(base_len) == old(builder).interaction_log(),
                forall|k: int|
                    0 <= k < 2 * row ==> #[trigger] slot_send_ok(
                        builder.interaction_log()[base_len + k],
                        vals,
                        k,
                    ),
            decreases height - row,
        {
            let cols = row_cols(builder.preprocessed(), row);
            let ghost log_pre = builder.interaction_log();
            let (v0, a0) = cols.values_and_accesses[0];
            builder.send_block(a0.addr, v0, a0.mult);
            proof {
                let log1 = builder.interaction_log();
                assert(log1.take(base_len) =~= log_pre.take(base_len));
                assert(log1[base_len + 2 * row] == log1.last());
                assert(6 * (2 * row) == 12 * row);
                assert(6 * (2 * row) + 4 == 12 * row + 4);
                assert(slot_send_ok(log1[base_len + 2 * row], vals, 2 * row as int));
            }
            let ghost log_mid = builder.interaction_log();
            let (v1, a1) = cols.values_and_accesses[1];
            builder.send_block(a1.addr, v1, a1.mult);
            proof {
                let log2 = builder.interaction_log();
                assert(log2.take(base_len) =~= log_mid.take(base_len));
                assert(log2[base_len + 2 * row + 1] == log2.last());
                assert(6 * (2 * row + 1) == 12 * row + 6);
                assert(slot_send_ok(log2[base_len + 2 * row + 1], vals, 2 * row + 1));
                assert forall|k: int| 0 <= k < 2 * (row + 1) implies #[trigger] slot_send_ok(
                    log2[base_len + k],
                    vals,
                    k,
                ) by {
                    if k < 2 * row {
                        assert(log2[base_len + k] == log_pre[base_len + k]);
                        assert(slot_send_ok(log_pre[base_len + k], vals, k));
                    }
                }
            }
            row = row + 1;
        }
        proof {
            lemma_fundamental_div_mod_converse(vals.len() as int, 6, 2 * (height as int), 0);
        }
    }
}

/// The `k`-th interaction a preprocessed table gives rise to: an
/// outgoing term keyed by the `k`-th packed slot's address and value,
/// weighted by its signed multiplicity.
pub open spec fn slot_send_ok(i: Interaction, vals: Seq<u32>, k: int) -> bool {
    &&& i.addr == vals[6 * k + 4]
    &&& i.val@ == vals.subrange(6 * k, 6 * k + 4)
    &&& i.mult == vals[6 * k + 5]
    &&& i.is_send
}

/// Read one preprocessed row back into its column view.
fn row_cols(t: &Trace, row: usize) -> (c: MemoryPreprocessedCols)
    requires
        t.width == NUM_MEM_PREPROCESSED_INIT_COLS,
        12 * (row as int + 1) <= t.values@.len(),
    ensures
        ({
            let (b0, a0) = c.values_and_accesses@[0];
            b0@ == t.values@.subrange(12 * (row as int), 12 * (row as int) + 4) && a0.addr.0
                == t.values@[12 * (row as int) + 4] && a0.mult == t.values@[12 * (row as int) + 5]
        }),
        ({
            let (b1, a1) = c.values_and_accesses@[1];
            b1@ == t.values@.subrange(12 * (row as int) + 6, 12 * (row as int) + 10) && a1.addr.0
                == t.values@[12 * (row as int) + 10] && a1.mult == t.values@[12 * (row as int)
                + 11]
        }),
{
    let n_vals = t.values.len();
    proof {
        assert(NUM_MEM_PREPROCESSED_INIT_COLS == 12);
        assert(12 * (row as int) + 12 == 12 * (row as int + 1));
        assert(12 * (row as int) + 12 <= n_vals as int);
    }
    let base = row * NUM_MEM_PREPROCESSED_INIT_COLS;
    let b0 = Block(
        [t.values[base], t.values[base + 1], t.values[base + 2], t.values[base + 3]],
    );
    let a0 = MemoryAccessCols { addr: Address(t.values[base + 4]), mult: t.values[base + 5] };
    let b1 = Block(
        [t.values[base + 6], t.values[base + 7], t.values[base + 8], t.values[base + 9]],
    );
    let a1 = MemoryAccessCols { addr: Address(t.values[base + 10]), mult: t.values[base + 11] };
    let c = MemoryPreprocessedCols { values_and_accesses: [(b0, a0), (b1, a1)] };
    proof {
        assert(b0@ =~= t.values@.subrange(12 * (row as int), 12 * (row as int) + 4));
        assert(b1@ =~= t.values@.subrange(12 * (row as int) + 6, 12 * (row as int) + 10));
        assert(c.values_and_accesses@[0] == (b0, a0));
        assert(c.values_and_accesses@[1] == (b1, a1));
    }
    c
}

/// Whether a shard's record agrees with a program: the constant-memory
/// counter equals the program's constant-memory instruction count, and
/// the two fix the same shape for this chip.
pub open spec fn record_matches(prog: RecursionProgram, rec: ExecutionRecord) -> bool {
    &&& rec.mem_const_count as nat == mem_entries(prog.instructions@).len()
    &&& fixed_log2_of(rec.shape, mem_const_chip_name()) == fixed_log2_of(
        prog.shape,
        mem_const_chip_name(),
    )
}

/// For any program and matching record, the preprocessed table and the
/// runtime table have the same height: both are derived from one shared
/// row-count function.
pub proof fn lemma_row_counts_agree(
    prog: RecursionProgram,
    rec: ExecutionRecord,
    pt: Trace,
    rt: Trace,
)
    requires
        is_preprocessed_trace(pt, prog),
        is_runtime_trace(rt, rec),
        record_matches(prog, rec),
    ensures
        pt.height() == rt.height(),
{
    let h = preprocessed_height(prog) as int;
    assert(NUM_MEM_PREPROCESSED_INIT_COLS == 12);
    assert(pt.values@.len() == 12 * preprocessed_height(prog));
    assert(pt.values@.len() as int == 12 * h);
    assert(12 * h == h * 12);
    lemma_fundamental_div_mod_converse(pt.values@.len() as int, 12, h, 0);
    assert(rt.values@.len() as int == (runtime_height(rec) as int) * 1);
    lemma_fundamental_div_mod_converse(rt.values@.len() as int, 1, runtime_height(rec) as int, 0);
}

/// The sum at the key of every slot of the emitted log equals the sum
/// at that key over the program's table entries: slots below the entry
/// count carry the entries, slots beyond carry zero multiplicities.
proof fn lemma_log_key_sum(
    prog: RecursionProgram,
    t: Trace,
    log: Seq<Interaction>,
    a: u32,
    v: Seq<u32>,
)
    requires
        is_preprocessed_trace(t, prog),
        height_ok(
            num_rows_for(mem_entries(prog.instructions@).len()),
            fixed_log2_of(prog.shape, mem_const_chip_name()),
            NUM_MEM_PREPROCESSED_INIT_COLS as nat,
        ),
        log.len() == t.values@.len() / 6,
        forall|k: int| 0 <= k < log.len() ==> slot_send_ok(#[trigger] log[k], t.values@, k),
    ensures
        key_sum(log, a, v) == entry_key_sum(mem_entries(prog.instructions@), a, v),
        mem_entries(prog.instructions@).len() <= log.len(),
{
    let entries = mem_entries(prog.instructions@);
    let n = entries.len() as int;
    let vals = t.values@;
    let fx = fixed_log2_of(prog.shape, mem_const_chip_name());
    lemma_total_covers_entries(entries.len(), fx);
    lemma_mem_entries_val_len(prog.instructions@);
    lemma_fundamental_div_mod_converse(
        vals.len() as int,
        6,
        2 * (preprocessed_height(prog) as int),
        0,
    );
    assert(log.len() == 2 * preprocessed_height(prog));
    assert(6 * n <= vals.len());
    assert(n <= log.len());
    let f = |i: Interaction| contribution(i, a, v);
    let g = |e: MemEntry| entry_contribution(e, a, v);
    assert forall|k: int| n <= k < log.len() implies #[trigger] f(log[k]) == 0 by {
        lemma_entry_index(k, 5);
        assert(log[k].mult == vals[6 * k + 5]);
        assert(vals[6 * k + 5] == prep_cell(entries, 6 * k + 5));
        assert(log[k].mult == 0);
    }
    lemma_sum_by_zero_tail(log, f, n);
    assert forall|k: int| 0 <= k < n implies #[trigger] f(log.take(n)[k]) == g(entries[k]) by {
        assert(log.take(n)[k] == log[k]);
        lemma_log_entry_key(prog, t, log, k);
    }
    lemma_sum_by_pointwise(log.take(n), entries, f, g);
}

/// Slot `k` of the emitted log carries exactly entry `k`'s key and
/// signed multiplicity.
proof fn lemma_log_entry_key(prog: RecursionProgram, t: Trace, log: Seq<Interaction>, k: int)
    requires
        is_preprocessed_trace(t, prog),
        log.len() == t.values@.len() / 6,
        forall|kk: int| 0 <= kk < log.len() ==> slot_send_ok(#[trigger] log[kk], t.values@, kk),
        0 <= k < mem_entries(prog.instructions@).len(),
        k < log.len(),
    ensures
        log[k].addr == mem_entries(prog.instructions@)[k].addr,
        log[k].val@ == mem_entries(prog.instructions@)[k].val,
        log[k].mult == mem_entries(prog.instructions@)[k].mult,
        log[k].is_send,
{
    let entries = mem_entries(prog.instructions@);
    let vals = t.values@;
    lemma_mem_entries_val_len(prog.instructions@);
    lemma_entry_index(k, 4);
    lemma_entry_index(k, 5);
    assert(6 * k + 5 < vals.len()) by {
        lemma_fundamental_div_mod(vals.len() as int, 6);
    }
    assert(log[k].addr == prep_cell(entries, 6 * k + 4));
    assert(log[k].mult == prep_cell(entries, 6 * k + 5));
    assert(entries[k].val.len() == D);
    assert forall|i: int| 0 <= i < 4 implies log[k].val@[i] == entries[k].val[i] by {
        lemma_entry_index(k, i);
        assert(log[k].val@[i] == vals.subrange(6 * k, 6 * k + 4)[i]);
        assert(vals[6 * k + i] == prep_cell(entries, 6 * k + i));
    }
    assert(log[k].val@ =~= entries[k].val);
}

/// A slot past the entries is padding: the zero key with multiplicity
/// zero.
proof fn lemma_log_pad_slot(prog: RecursionProgram, t: Trace, log: Seq<Interaction>, j: int)
    requires
        is_preprocessed_trace(t, prog),
        log.len() == t.values@.len() / 6,
        forall|kk: int| 0 <= kk < log.len() ==> slot_send_ok(#[trigger] log[kk], t.values@, kk),
        mem_entries(prog.instructions@).len() <= j < log.len(),
    ensures
        log[j].addr == 0,
        log[j].val@ == seq![0u32, 0u32, 0u32, 0u32],
        log[j].mult == 0,
{
    let entries = mem_entries(prog.instructions@);
    let vals = t.values@;
    lemma_entry_index(j, 4);
    lemma_entry_index(j, 5);
    assert(6 * j + 5 < vals.len()) by {
        lemma_fundamental_div_mod(vals.len() as int, 6);
    }
    assert(log[j].addr == prep_cell(entries, 6 * j + 4));
    assert(log[j].mult == prep_cell(entries, 6 * j + 5));
    assert forall|i: int| 0 <= i < 4 implies log[j].val@[i] == 0u32 by {
        lemma_entry_index(j, i);
        assert(log[j].val@[i] == vals.subrange(6 * j, 6 * j + 4)[i]);
        assert(vals[6 * j + i] == prep_cell(entries, 6 * j + i));
    }
    assert(log[j].val@ =~= seq![0u32, 0u32, 0u32, 0u32]);
}

/// The multiplicity of every table entry of a well-formed program is a
/// canonical field representative.
proof fn lemma_mem_entries_wf(s: Seq<Instruction>)
    requires
        forall|k: int| 0 <= k < s.len() ==> instr_wf(#[trigger] s[k]),
    ensures
        forall|k: int|
            0 <= k < mem_entries(s).len() ==> is_felt((#[trigger] mem_entries(s)[k]).mult),
    decreases s.len(),
{
    if s.len() > 0 {
        assert(forall|k: int| 0 <= k < s.drop_last().len() ==> instr_wf(
            #[trigger] s.drop_last()[k],
        ));
        lemma_mem_entries_wf(s.drop_last());
        assert(instr_wf(s[s.len() - 1]));
        assert(s.last() == s[s.len() - 1]);
        match s.last() {
            Instruction::Mem(m) => {
                assert(mem_entries(s) =~= mem_entries(s.drop_last()).push(entry_of(m)));
                assert(is_felt(entry_of(m).mult));
            },
            _ => {
                assert(mem_entries(s) =~= mem_entries(s.drop_last()));
            },
        }
    }
}

/// Every key that occurs among the entries sums to zero in the field.
pub open spec fn entries_balanced(entries: Seq<MemEntry>) -> bool {
    forall|k: int|
        0 <= k < entries.len() ==> entry_key_sum(
            entries,
            (#[trigger] entries[k]).addr,
            entries[k].val,
        ) % (FIELD_MODULUS as int) == 0
}

/// For any program of matched write/read pairs, the interactions its
/// preprocessed table emits balance at every key: padding contributes
/// nothing, each slot contributes its entry's signed multiplicity, and
/// matched entries cancel in the field.
pub proof fn lemma_matched_program_balanced(
    prog: RecursionProgram,
    t: Trace,
    log: Seq<Interaction>,
)
    requires
        prog.wf(),
        matched(prog.instructions@),
        is_preprocessed_trace(t, prog),
        height_ok(
            num_rows_for(mem_entries(prog.instructions@).len()),
            fixed_log2_of(prog.shape, mem_const_chip_name()),
            NUM_MEM_PREPROCESSED_INIT_COLS as nat,
        ),
        log.len() == t.values@.len() / 6,
        forall|k: int| 0 <= k < log.len() ==> slot_send_ok(#[trigger] log[k], t.values@, k),
    ensures
        balanced(log),
{
    assert forall|j: int| 0 <= j < log.len() implies balanced_at(
        log,
        (#[trigger] log[j]).addr,
        log[j].val@,
    ) by {
        lemma_log_key_sum(prog, t, log, log[j].addr, log[j].val@);
        lemma_matched_key_sum_zero(prog.instructions@, log[j].addr, log[j].val@);
    }
}

impl MemoryChip {
    /// Runs this chip's whole argument on one program: derive the
    /// preprocessed table, evaluate the constraints into a fresh
    /// builder, and hand the emitted interactions to the backend's
    /// balance check. Holds exactly when every key occurring among the
    /// program's entries sums to zero in the field; in particular it
    /// holds for every program of matched write/read pairs.
    pub fn memory_consistency_holds(&self, program: &RecursionProgram) -> (r: bool)
        requires
            program.wf(),
            height_ok(
                num_rows_for(mem_entries(program.instructions@).len()),
                fixed_log2_of(program.shape, mem_const_chip_name()),
                NUM_MEM_PREPROCESSED_INIT_COLS as nat,
            ),
        ensures
            r == entries_balanced(mem_entries(program.instructions@)),
            matched(program.instructions@) ==> r,
    {
        let entries = Ghost(mem_entries(program.instructions@));
        let t = self.generate_preprocessed_trace(program).unwrap();
        proof {
            assert(NUM_MEM_PREPROCESSED_INIT_COLS == 12);
            assert(t.values@.len() == 12 * preprocessed_height(*program));
            assert(t.values@.len() as int == (preprocessed_height(*program) as int) * 12);
            lemma_fundamental_div_mod_converse(
                t.values@.len() as int,
                12,
                preprocessed_height(*program) as int,
                0,
            );
        }
        let mut builder = InteractionBuilder::new(t);
        self.eval(&mut builder);
        let ghost log = builder.interactions@;
        let ghost n = entries@.len() as int;
        proof {
            assert forall|k: int| 0 <= k < log.len() implies slot_send_ok(
                #[trigger] log[k],
                builder.preprocessed.values@,
                k,
            ) by {
                assert(slot_send_ok(log[0 + k], builder.preprocessed.values@, k));
            }
            assert(log.len() == builder.preprocessed.values@.len() / 6);
            lemma_mem_entries_wf(program.instructions@);
            assert(log.take(0) =~= Seq::<Interaction>::empty());
            assert forall|j: int| 0 <= j < log.len() implies is_felt(
                (#[trigger] log[j]).mult,
            ) by {
                if j < n {
                    // called for its bound: the entries fit inside the log
                    lemma_log_key_sum(*program, builder.preprocessed, log, 0, Seq::empty());
                    lemma_log_entry_key(*program, builder.preprocessed, log, j);
                } else {
                    lemma_log_pad_slot(*program, builder.preprocessed, log, j);
                }
            }
        }
        let r = memory_interactions_balanced(&builder.interactions);
        proof {
            let prep = builder.preprocessed;
            lemma_log_key_sum(*program, prep, log, 0, Seq::empty());
            assert(n <= log.len());
            if r {
                assert forall|k: int| 0 <= k < n implies entry_key_sum(
                    entries@,
                    (#[trigger] entries@[k]).addr,
                    entries@[k].val,
                ) % (FIELD_MODULUS as int) == 0 by {
                    lemma_log_entry_key(*program, prep, log, k);
                    assert(balanced_at(log, log[k].addr, log[k].val@));
                    lemma_log_key_sum(*program, prep, log, log[k].addr, log[k].val@);
                }
            } else {
                assert(!balanced(log));
                if entries_balanced(entries@) {
                    assert forall|j: int| 0 <= j < log.len() implies balanced_at(
                        log,
                        (#[trigger] log[j]).addr,
                        log[j].val@,
                    ) by {
                        lemma_log_key_sum(*program, prep, log, log[j].addr, log[j].val@);
                        if j < n {
                            lemma_log_entry_key(*program, prep, log, j);
                        } else {
                            lemma_log_pad_slot(*program, prep, log, j);
                            let zeros = seq![0u32, 0u32, 0u32, 0u32];
                            if exists|k: int|
                                0 <= k < n && (#[trigger] entries@[k]).addr == 0
                                    && entries@[k].val == zeros {
                                let k = choose|k: int|
                                    0 <= k < n && (#[trigger] entries@[k]).addr == 0
                                        && entries@[k].val == zeros;
                                assert(entry_key_sum(entries@, 0, zeros) % (
                                FIELD_MODULUS as int) == 0);
                            } else {
                                let g = |e: MemEntry| entry_contribution(e, 0, zeros);
                                assert forall|k: int| 0 <= k < entries@.len() implies #[trigger] g(
                                    entries@[k],
                                ) == 0 by {
                                    assert(!(entries@[k].addr == 0 && entries@[k].val == zeros));
                                }
                                lemma_sum_by_zero_tail(entries@, g, 0);
                                assert(entries@.take(0) =~= Seq::<MemEntry>::empty());
                                lemma_small_mod(0nat, FIELD_MODULUS as nat);
                            }
                        }
                    }
                }
            }
            if matched(program.instructions@) {
                assert forall|k: int| 0 <= k < n implies entry_key_sum(
                    entries@,
                    (#[trigger] entries@[k]).addr,
                    entries@[k].val,
                ) % (FIELD_MODULUS as int) == 0 by {
                    lemma_matched_key_sum_zero(
                        program.instructions@,
                        entries@[k].addr,
                        entries@[k].val,
                    );
                }
            }
        }
        r
    }
}

} // verus!
