use recursion_air::instruction::{base_alu, ext_alu, mem};
use recursion_air::interaction::{
    memory_interactions_balanced, InteractionBuilder, RecursionAirBuilder,
};
use recursion_air::machine::{RecursionAir, RecursionAirHeights, PUB_VALUES_LOG_HEIGHT};
use recursion_air::program::{
    Address, BaseAluOpcode, ExtAluOpcode, MemAccessKind, RecursionProgram,
};
use recursion_air::trace::{checked_next_power_of_two, next_power_of_two, Trace};

fn scenario_d_program() -> RecursionProgram {
    let mut instructions = vec![
        mem(MemAccessKind::Write, 1, 1, 0),
        mem(MemAccessKind::Write, 1, 2, 1),
    ];
    for i in 0..8u32 {
        instructions.push(base_alu(BaseAluOpcode::AddF, 1, 10 + i, 1, 2));
    }
    instructions.push(mem(MemAccessKind::Read, 1, 1, 0));
    instructions.push(mem(MemAccessKind::Read, 1, 2, 1));
    RecursionProgram { instructions, shape: None }
}

#[test]
fn heights_of_scenario_d() {
    let p = scenario_d_program();
    let heights = RecursionAir::heights(&p);
    let expected: Vec<(String, usize)> = vec![
        ("MemoryConst".to_owned(), 4),
        ("MemoryVar".to_owned(), 0),
        ("BaseAlu".to_owned(), 8),
        ("ExtAlu".to_owned(), 0),
        ("Poseidon2Wide".to_owned(), 0),
        ("ExpReverseBitsLen".to_owned(), 0),
        ("PublicValues".to_owned(), PUB_VALUES_LOG_HEIGHT),
    ];
    assert_eq!(heights, expected);
}

#[test]
fn heights_are_order_independent() {
    let p = scenario_d_program();
    let mut reversed = p.instructions.clone();
    reversed.reverse();
    let q = RecursionProgram { instructions: reversed, shape: None };
    assert_eq!(RecursionAir::heights(&p), RecursionAir::heights(&q));
}

#[test]
fn heights_fold_counts_every_kind() {
    let mut h = RecursionAirHeights::default();
    h.add_assign(&mem(MemAccessKind::Write, 1, 1, 2));
    h.add_assign(&base_alu(BaseAluOpcode::DivF, 1, 3, 1, 2));
    let h = h.add(&ext_alu(ExtAluOpcode::MulE, 1, 4, 1, 2));
    assert_eq!(h.mem_const_height, 1);
    assert_eq!(h.base_alu_height, 1);
    assert_eq!(h.ext_alu_height, 1);
    assert_eq!(h.mem_var_height, 0);
}

fn names_of(m: &recursion_air::machine::StarkMachine) -> Vec<String> {
    m.chips.iter().map(|c| c.name()).collect()
}

#[test]
fn machine_profiles_pick_their_chip_sets() {
    let wide = RecursionAir::machine_wide_with_all_chips();
    assert_eq!(
        names_of(&wide),
        vec![
            "MemoryConst",
            "MemoryVar",
            "BaseAlu",
            "ExtAlu",
            "Poseidon2Wide",
            "FriFold",
            "ExpReverseBitsLen",
            "PublicValues"
        ]
    );
    let skinny = RecursionAir::machine_skinny_with_all_chips();
    assert_eq!(names_of(&skinny)[4], "Poseidon2Skinny");
    assert_eq!(skinny.chips.len(), 8);

    let compress = RecursionAir::compress_machine();
    assert_eq!(
        names_of(&compress),
        vec![
            "MemoryConst",
            "MemoryVar",
            "BaseAlu",
            "ExtAlu",
            "Poseidon2Wide",
            "ExpReverseBitsLen",
            "PublicValues"
        ]
    );
    let shrink = RecursionAir::shrink_machine();
    assert_eq!(names_of(&shrink), names_of(&compress));

    let wrap = RecursionAir::wrap_machine();
    assert_eq!(names_of(&wrap)[4], "Poseidon2Skinny");
    assert_eq!(wrap.chips.len(), 7);

    // names are unique within each machine
    for m in [&wide, &skinny, &compress, &shrink, &wrap] {
        let names = names_of(m);
        for i in 0..names.len() {
            for j in (i + 1)..names.len() {
                assert_ne!(names[i], names[j]);
            }
        }
    }
}

#[test]
fn shrink_shape_declares_the_curated_heights() {
    let shape = RecursionAir::shrink_shape();
    assert_eq!(shape.get("MemoryConst"), Some(16));
    assert_eq!(shape.get("MemoryVar"), Some(18));
    assert_eq!(shape.get("BaseAlu"), Some(20));
    assert_eq!(shape.get("ExtAlu"), Some(22));
    assert_eq!(shape.get("Poseidon2Wide"), Some(16));
    assert_eq!(shape.get("ExpReverseBitsLen"), Some(16));
    assert_eq!(shape.get("PublicValues"), Some(PUB_VALUES_LOG_HEIGHT));
    assert_eq!(shape.get("FriFold"), None);
}

#[test]
fn padded_heights_are_powers_of_two() {
    assert_eq!(next_power_of_two(0, None), 1);
    assert_eq!(next_power_of_two(1, None), 1);
    assert_eq!(next_power_of_two(2, None), 2);
    assert_eq!(next_power_of_two(3, None), 4);
    assert_eq!(next_power_of_two(4, None), 4);
    assert_eq!(next_power_of_two(5, None), 8);
    assert_eq!(next_power_of_two(1000, None), 1024);
    assert_eq!(next_power_of_two(2, Some(4)), 16);
}

#[test]
fn exceeding_a_fixed_shape_is_an_error_not_a_truncation() {
    assert_eq!(checked_next_power_of_two(8, Some(3)), Ok(8));
    assert!(checked_next_power_of_two(9, Some(3)).is_err());
    assert_eq!(checked_next_power_of_two(9, None), Ok(16));
}

#[test]
fn receives_cancel_matching_sends() {
    let empty = Trace { values: vec![], width: 12 };
    let mut builder = InteractionBuilder::new(empty);
    builder.send_single(Address(4), 9, 3);
    builder.receive_single(Address(4), 9, 3);
    assert!(memory_interactions_balanced(&builder.interactions));

    let empty = Trace { values: vec![], width: 12 };
    let mut builder = InteractionBuilder::new(empty);
    builder.send_single(Address(4), 9, 3);
    builder.receive_single(Address(4), 9, 4);
    assert!(!memory_interactions_balanced(&builder.interactions));
}
