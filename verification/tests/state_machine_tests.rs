use mini_raft_rs::state_machine::{
    Command, InMemoryStateMachine,
    Op::{self, Decrement, Increment, Replace},
    StateKey::{self, X, Y, Z},
};

fn command(op: Op, key: StateKey, value: i64) -> Command {
    Command::new(op, key, value)
}

fn machine(x: i64, y: i64, z: i64) -> InMemoryStateMachine {
    InMemoryStateMachine::with_values(x, y, z)
}

fn run(mut actual: InMemoryStateMachine, commands: &[Command], expected: InMemoryStateMachine) {
    commands.iter().for_each(|cmd| actual.apply_command(cmd));

    assert_eq!(expected, actual);
}

#[test]
fn applies_increment_commands() {
    run(
        machine(0, 0, 0),
        &[
            command(Increment, X, 5),
            command(Increment, Z, 15),
            command(Increment, X, 5),
            command(Increment, Z, 10),
            command(Increment, Y, 2),
            command(Increment, Z, 4),
            command(Increment, Y, 3),
            command(Increment, Y, 15),
            command(Increment, Z, 1),
        ],
        machine(10, 20, 30),
    )
}

#[test]
fn applies_decrement_commands() {
    run(
        machine(1000, 1000, 1000),
        &[
            command(Decrement, X, 125),
            command(Decrement, Z, 100),
            command(Decrement, Z, 100),
            command(Decrement, Y, 900),
            command(Decrement, Z, 100),
            command(Decrement, X, 150),
            command(Decrement, X, 25),
            command(Decrement, Z, 100),
            command(Decrement, Y, 99),
            command(Decrement, Z, 100),
        ],
        machine(700, 1, 500),
    )
}

#[test]
fn applies_replace_commands() {
    run(
        machine(42, 42, 42),
        &[
            command(Replace, X, 9),
            command(Replace, Y, 18),
            command(Replace, Z, 127),
            command(Replace, X, 6),
            command(Replace, Y, -4),
        ],
        machine(6, -4, 127),
    )
}

#[test]
fn applies_mixed_commands() {
    run(
        machine(0, 0, 0),
        &[
            command(Increment, Y, 2),
            command(Increment, X, 1),
            command(Increment, Z, 3),
            command(Replace, Y, 16),
            command(Decrement, X, 10),
            command(Increment, Z, 5),
            command(Decrement, Y, 1),
            command(Decrement, Z, 103),
        ],
        machine(-9, 15, -95),
    )
}

#[test]
fn applies_commands_without_integer_overflow() {
    run(
        machine(i64::MIN, i64::MAX, 1),
        &[
            command(Decrement, X, 10),
            command(Increment, Y, 1),
            command(Increment, Z, i64::MAX),
        ],
        machine(i64::MIN, i64::MAX, i64::MAX),
    )
}

#[test]
fn decrement_by_a_negative_operand_saturates_at_the_maximum() {
    run(machine(i64::MAX - 1, 0, 0), &[command(Decrement, X, -5)], machine(i64::MAX, 0, 0));
}

#[test]
fn increment_by_a_negative_operand_saturates_at_the_minimum() {
    run(machine(0, i64::MIN + 2, 0), &[command(Increment, Y, -3)], machine(0, i64::MIN, 0));
}

#[test]
fn a_command_leaves_the_other_keys_unchanged() {
    run(machine(1, 2, 3), &[command(Replace, Y, 99)], machine(1, 99, 3));
}

#[test]
fn op_exec_gives_exact_values() {
    assert_eq!(Increment.exec(2, 3), 5);
    assert_eq!(Decrement.exec(2, 3), -1);
    assert_eq!(Replace.exec(2, 3), 3);
}

#[test]
fn snapshot_equals_the_machine_it_was_taken_of() {
    let m = machine(4, -5, 6);
    let snap = m.get_snapshot();
    assert!(m == snap);
    assert!(snap == m);
    let other = machine(4, -5, 7);
    assert!(!(other == snap));
    assert!(!(snap == other));
}

#[test]
fn new_and_default_machines_are_zero() {
    assert_eq!(InMemoryStateMachine::new(), machine(0, 0, 0));
    assert_eq!(InMemoryStateMachine::default(), machine(0, 0, 0));
}

#[test]
fn command_accessors_return_what_it_was_built_with() {
    let c = command(Decrement, Z, -7);
    assert_eq!(c.op(), Decrement);
    assert_eq!(c.key(), Z);
    assert_eq!(c.value(), -7);
}

#[test]
fn keys_and_ops_display_as_expected() {
    assert_eq!(X.to_display_string(), "State.x");
    assert_eq!(Y.to_display_string(), "State.y");
    assert_eq!(Z.to_display_string(), "State.z");
    assert_eq!(Increment.to_display_string(), "+=");
    assert_eq!(Decrement.to_display_string(), "-=");
    assert_eq!(Replace.to_display_string(), "<=");
}

#[test]
fn same_sign_updates_on_one_key_commute_even_when_saturating() {
    let a = command(Increment, X, i64::MAX - 5);
    let b = command(Increment, X, 10);
    let mut first = machine(3, 0, 0);
    first.apply_command(&a);
    first.apply_command(&b);
    let mut second = machine(3, 0, 0);
    second.apply_command(&b);
    second.apply_command(&a);
    assert_eq!(first, second);
    assert_eq!(first, machine(i64::MAX, 0, 0));

    let c = command(Decrement, Y, -7);
    let d = command(Decrement, Y, -2);
    let mut first = machine(0, 1, 0);
    first.apply_command(&c);
    first.apply_command(&d);
    let mut second = machine(0, 1, 0);
    second.apply_command(&d);
    second.apply_command(&c);
    assert_eq!(first, second);
    assert_eq!(first, machine(0, 10, 0));
}

#[test]
fn replace_overrides_earlier_commands_and_is_idempotent() {
    let r = command(Replace, Z, 42);
    let mut with_earlier = machine(1, 2, 3);
    with_earlier.apply_command(&command(Increment, Z, 100));
    with_earlier.apply_command(&r);
    let mut alone = machine(1, 2, 3);
    alone.apply_command(&r);
    assert_eq!(with_earlier, alone);
    assert_eq!(alone, machine(1, 2, 42));
    alone.apply_command(&r);
    assert_eq!(alone, machine(1, 2, 42));
}
