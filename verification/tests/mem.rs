use recursion_air::field::FIELD_MODULUS;
use recursion_air::instruction::{mem, mem_block};
use recursion_air::interaction::{memory_interactions_balanced, InteractionBuilder};
use recursion_air::mem_const::MemoryChip;
use recursion_air::program::{Block, MemAccessKind, RecursionProgram};
use recursion_air::record::ExecutionRecord;
use recursion_air::shape::RecursionShape;

fn chip() -> MemoryChip {
    MemoryChip::default()
}

fn program(instructions: Vec<recursion_air::program::Instruction>) -> RecursionProgram {
    RecursionProgram { instructions, shape: None }
}

/// Runs the whole memory pipeline: preprocessed trace, constraint
/// evaluation, and the backend's balance check.
fn interactions_balance(program: &RecursionProgram) -> bool {
    chip().memory_consistency_holds(program)
}

#[test]
fn generate_trace() {
    let shard = ExecutionRecord {
        mem_const_count: 0,
        mem_var_events: vec![
            recursion_air::record::MemEvent { inner: Block([1, 0, 0, 0]) },
            recursion_air::record::MemEvent { inner: Block([1, 0, 0, 0]) },
        ],
        shape: None,
    };
    let chip = chip();
    let trace = chip.generate_trace(&shard, &mut ExecutionRecord::default());
    println!("{:?}", trace.values)
}

#[test]
fn prove_basic_mem() {
    let p = program(vec![
        mem(MemAccessKind::Write, 1, 1, 2),
        mem(MemAccessKind::Read, 1, 1, 2),
    ]);
    assert!(interactions_balance(&p));
}

#[test]
fn matched_pair_packs_one_row_and_balances() {
    let p = program(vec![
        mem(MemAccessKind::Write, 1, 1, 2),
        mem(MemAccessKind::Read, 1, 1, 2),
    ]);
    let trace = chip().generate_preprocessed_trace(&p).unwrap();
    // two entries packed at capacity two: one row of twelve columns
    assert_eq!(trace.width, 12);
    assert_eq!(trace.values.len(), 12);
    // write entry: value block, address, multiplicity +1
    assert_eq!(&trace.values[0..6], &[2, 0, 0, 0, 1, 1]);
    // read entry: multiplicity negated in the field
    assert_eq!(&trace.values[6..12], &[2, 0, 0, 0, 1, FIELD_MODULUS - 1]);

    let mut builder = InteractionBuilder::new(trace);
    chip().eval(&mut builder);
    assert_eq!(builder.interactions.len(), 2);
    assert_eq!(builder.interactions[0].addr, 1);
    assert_eq!(builder.interactions[0].val.0, [2, 0, 0, 0]);
    assert_eq!(builder.interactions[0].mult, 1);
    assert!(builder.interactions[0].is_send);
    assert_eq!(builder.interactions[1].mult, FIELD_MODULUS - 1);
    // (+1) + (-1) vanishes at the key (addr 1, value 2)
    assert!(memory_interactions_balanced(&builder.interactions));
}

#[test]
fn bad_mult_unbalances() {
    let p = program(vec![
        mem(MemAccessKind::Write, 1, 1, 2),
        mem(MemAccessKind::Read, 999, 1, 2),
    ]);
    assert!(!interactions_balance(&p));
}

#[test]
fn bad_address_unbalances() {
    let p = program(vec![
        mem(MemAccessKind::Write, 1, 1, 2),
        mem(MemAccessKind::Read, 1, 999, 2),
    ]);
    assert!(!interactions_balance(&p));
}

#[test]
fn bad_value_unbalances() {
    let p = program(vec![
        mem(MemAccessKind::Write, 1, 1, 2),
        mem(MemAccessKind::Read, 1, 1, 999),
    ]);
    assert!(!interactions_balance(&p));
}

#[test]
fn write_multiplicities_add_modulo_the_prime() {
    // two writes of the same key whose multiplicities sum to the modulus
    let p = program(vec![
        mem(MemAccessKind::Write, FIELD_MODULUS - 5, 1, 2),
        mem(MemAccessKind::Write, 5, 1, 2),
    ]);
    assert!(interactions_balance(&p));
}

#[test]
fn zero_multiplicity_padding_contributes_nothing() {
    // three entries: the fourth slot of the second row is padding
    let p = program(vec![
        mem(MemAccessKind::Write, 7, 3, 4),
        mem(MemAccessKind::Read, 7, 3, 4),
        mem(MemAccessKind::Write, 0, 8, 9),
    ]);
    let trace = chip().generate_preprocessed_trace(&p).unwrap();
    assert_eq!(trace.values.len(), 24);
    let mut builder = InteractionBuilder::new(trace);
    chip().eval(&mut builder);
    assert_eq!(builder.interactions.len(), 4);
    assert!(memory_interactions_balanced(&builder.interactions));
}

#[test]
fn whole_blocks_carry_through() {
    let p = program(vec![
        mem_block(MemAccessKind::Write, 2, 10, Block([5, 6, 7, 8])),
        mem_block(MemAccessKind::Read, 2, 10, Block([5, 6, 7, 8])),
    ]);
    let trace = chip().generate_preprocessed_trace(&p).unwrap();
    assert_eq!(&trace.values[0..6], &[5, 6, 7, 8, 10, 2]);
    assert!(interactions_balance(&p));
}

#[test]
fn preprocessed_rows_match_runtime_rows() {
    let instructions = vec![
        mem(MemAccessKind::Write, 1, 1, 2),
        mem(MemAccessKind::Write, 1, 2, 3),
        mem(MemAccessKind::Read, 1, 1, 2),
        mem(MemAccessKind::Read, 1, 2, 3),
        mem(MemAccessKind::Write, 0, 5, 5),
    ];
    let n = instructions.len();
    let p = program(instructions);
    let pre = chip().generate_preprocessed_trace(&p).unwrap();
    let record = ExecutionRecord { mem_const_count: n, mem_var_events: vec![], shape: None };
    let run = chip().generate_trace(&record, &mut ExecutionRecord::default());
    assert_eq!(pre.values.len() / pre.width, run.values.len() / run.width);
    // five entries: three natural rows, padded to four
    assert_eq!(run.values.len(), 4);
}

#[test]
fn fixed_shape_pads_to_declared_height() {
    let mut shape = RecursionShape::new();
    shape.insert("MemoryConst", 3);
    let p = RecursionProgram {
        instructions: vec![
            mem(MemAccessKind::Write, 1, 1, 2),
            mem(MemAccessKind::Read, 1, 1, 2),
        ],
        shape: Some(shape),
    };
    let trace = chip().generate_preprocessed_trace(&p).unwrap();
    // one natural row, padded to the declared 2^3
    assert_eq!(trace.values.len(), 8 * 12);
    assert!(interactions_balance(&p));
}

#[test]
fn empty_program_pads_to_one_zero_row() {
    let p = program(vec![]);
    let trace = chip().generate_preprocessed_trace(&p).unwrap();
    assert_eq!(trace.values, vec![0u32; 12]);
    assert!(interactions_balance(&p));
}

#[test]
fn chip_metadata() {
    let c = chip();
    assert_eq!(c.width(), 1);
    assert_eq!(c.preprocessed_width(), 12);
    assert_eq!(c.name(), "MemoryConst");
    assert!(c.included(&ExecutionRecord::default()));
    let mut out = ExecutionRecord::default();
    c.generate_dependencies(&ExecutionRecord::default(), &mut out);
    assert_eq!(out.mem_const_count, 0);
}
