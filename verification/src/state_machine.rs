use vstd::prelude::*;
use vstd::std_specs::cmp::PartialEqSpec;
use vstd::std_specs::cmp::PartialEqSpecImpl;

use crate::text::{i64_text, int_text};

verus! {

/// The value of `lhs + rhs`, clamped to the range of `i64`.
pub open spec fn saturating_add_spec(lhs: i64, rhs: i64) -> i64 {
    if lhs + rhs > i64::MAX {
        i64::MAX
    } else if lhs + rhs < i64::MIN {
        i64::MIN
    } else {
        (lhs + rhs) as i64
    }
}

/// The value of `lhs - rhs`, clamped to the range of `i64`.
pub open spec fn saturating_sub_spec(lhs: i64, rhs: i64) -> i64 {
    if lhs - rhs > i64::MAX {
        i64::MAX
    } else if lhs - rhs < i64::MIN {
        i64::MIN
    } else {
        (lhs - rhs) as i64
    }
}

/// StateKey represents the location of the target state client request was made to update.
#[derive(Debug, Clone, Copy, PartialEq, Eq, Structural)]
pub enum StateKey {
    X,
    Y,
    Z,
}

impl StateKey {
    /// The text shown for this key.
    pub open spec fn label_spec(self) -> Seq<char> {
        match self {
            StateKey::X => "State.x"@,
            StateKey::Y => "State.y"@,
            StateKey::Z => "State.z"@,
        }
    }

    /// The key's name: `X`, `Y` or `Z`.
    pub open spec fn name_spec(self) -> Seq<char> {
        match self {
            StateKey::X => "X"@,
            StateKey::Y => "Y"@,
            StateKey::Z => "Z"@,
        }
    }

    /// The key's name: `X`, `Y` or `Z`.
    pub fn name(&self) -> (s: &'static str)
        ensures
            s@ == self.name_spec(),
    {
        match self {
            StateKey::X => "X",
            StateKey::Y => "Y",
            StateKey::Z => "Z",
        }
    }

    /// The key as displayed to users: `State.x`, `State.y` or `State.z`.
    pub fn to_display_string(&self) -> (s: String)
        ensures
            s@ == self.label_spec(),
    {
        match self {
            StateKey::X => String::from_str("State.x"),
            StateKey::Y => String::from_str("State.y"),
            StateKey::Z => String::from_str("State.z"),
        }
    }
}

/// Op represents the operation to be taken on the target state.
#[derive(Debug, Clone, Copy, PartialEq, Eq, Structural)]
pub enum Op {
    Increment,
    Decrement,
    Replace,
}

impl Op {
    /// The value that applying this operation with operand `rhs` to `lhs` gives.
    pub open spec fn exec_spec(self, lhs: i64, rhs: i64) -> i64 {
        match self {
            Op::Increment => saturating_add_spec(lhs, rhs),
            Op::Decrement => saturating_sub_spec(lhs, rhs),
            Op::Replace => rhs,
        }
    }

    /// The symbol shown for this operation.
    pub open spec fn symbol_spec(self) -> Seq<char> {
        match self {
            Op::Increment => "+="@,
            Op::Decrement => "-="@,
            Op::Replace => "<="@,
        }
    }

    pub fn exec(&self, lhs: i64, rhs: i64) -> (r: i64)
        ensures
            r == self.exec_spec(lhs, rhs),
    {
        match self {
            Op::Increment => {
                if rhs > 0 && lhs > i64::MAX - rhs {
                    i64::MAX
                } else if rhs < 0 && lhs < i64::MIN - rhs {
                    i64::MIN
                } else {
                    lhs + rhs
                }
            },
            Op::Decrement => {
                if rhs < 0 && lhs > i64::MAX + rhs {
                    i64::MAX
                } else if rhs > 0 && lhs < i64::MIN + rhs {
                    i64::MIN
                } else {
                    lhs - rhs
                }
            },
            Op::Replace => rhs,
        }
    }

    /// The operation as displayed to users: `+=`, `-=` or `<=`.
    pub fn to_display_string(&self) -> (s: String)
        ensures
            s@ == self.symbol_spec(),
    {
        match self {
            Op::Increment => String::from_str("+="),
            Op::Decrement => String::from_str("-="),
            Op::Replace => String::from_str("<="),
        }
    }
}

/// A command: apply `op` with operand `value` to the state at `key`.
#[derive(Debug, Clone, Copy, PartialEq, Eq, Structural)]
pub struct Command {
    op: Op,
    key: StateKey,
    value: i64,
}

impl Command {
    pub closed spec fn op_spec(self) -> Op {
        self.op
    }

    pub closed spec fn key_spec(self) -> StateKey {
        self.key
    }

    pub closed spec fn value_spec(self) -> i64 {
        self.value
    }

    pub fn new(op: Op, key: StateKey, value: i64) -> (c: Self)
        ensures
            c.op_spec() == op,
            c.key_spec() == key,
            c.value_spec() == value,
    {
        Self { op, key, value }
    }

    pub fn op(&self) -> (r: Op)
        ensures
            r == self.op_spec(),
    {
        self.op
    }

    pub fn key(&self) -> (r: StateKey)
        ensures
            r == self.key_spec(),
    {
        self.key
    }

    pub fn value(&self) -> (r: i64)
        ensures
            r == self.value_spec(),
    {
        self.value
    }

    /// The command as displayed to users, e.g. `{ command: [ State.X += 5 ] }`.
    pub open spec fn display_spec(self) -> Seq<char> {
        "{ command: [ State."@ + self.key_spec().name_spec() + " "@ + self.op_spec().symbol_spec()
            + " "@ + int_text(self.value_spec() as int) + " ] }"@
    }

    pub fn to_display_string(&self) -> (s: String)
        ensures
            s@ == self.display_spec(),
    {
        let mut s = String::from_str("{ command: [ State.");
        s.append(self.key.name());
        s.append(" ");
        s.append(self.op.to_display_string().as_str());
        s.append(" ");
        s.append(i64_text(self.value).as_str());
        s.append(" ] }");
        s
    }

    /// The state that executing this command on `s` leaves.
    pub open spec fn exec_spec(self, s: InMemoryStateMachine) -> InMemoryStateMachine {
        s.set_spec(self.key_spec(), self.op_spec().exec_spec(s.get_spec(self.key_spec()), self.value_spec()))
    }

    pub fn exec(&self, state_machine: &mut InMemoryStateMachine)
        ensures
            *final(state_machine) == self.exec_spec(*old(state_machine)),
    {
        let new_value = self.op().exec(state_machine.get(self.key()), self.value());
        state_machine.set(self.key(), new_value);
    }
}

/// The replicated state: three integers.
#[derive(Debug, Clone, Copy, PartialEq, Eq, Structural)]
pub struct InMemoryStateMachine {
    x: i64,
    y: i64,
    z: i64,
}

impl InMemoryStateMachine {
    pub closed spec fn x_spec(self) -> i64 {
        self.x
    }

    pub closed spec fn y_spec(self) -> i64 {
        self.y
    }

    pub closed spec fn z_spec(self) -> i64 {
        self.z
    }

    /// The value stored at `key`.
    pub open spec fn get_spec(self, key: StateKey) -> i64 {
        match key {
            StateKey::X => self.x_spec(),
            StateKey::Y => self.y_spec(),
            StateKey::Z => self.z_spec(),
        }
    }

    /// The machine with the value at `key` replaced by `v`.
    pub closed spec fn set_spec(self, key: StateKey, v: i64) -> InMemoryStateMachine {
        match key {
            StateKey::X => InMemoryStateMachine { x: v, ..self },
            StateKey::Y => InMemoryStateMachine { y: v, ..self },
            StateKey::Z => InMemoryStateMachine { z: v, ..self },
        }
    }

    pub fn new() -> (s: Self)
        ensures
            s.x_spec() == 0 && s.y_spec() == 0 && s.z_spec() == 0,
    {
        Self { x: 0, y: 0, z: 0 }
    }

    /// A machine holding the given values.
    pub fn with_values(x: i64, y: i64, z: i64) -> (s: Self)
        ensures
            s.x_spec() == x && s.y_spec() == y && s.z_spec() == z,
    {
        Self { x, y, z }
    }

    fn get(&self, key: StateKey) -> (r: i64)
        ensures
            r == self.get_spec(key),
    {
        match key {
            StateKey::X => self.x,
            StateKey::Y => self.y,
            StateKey::Z => self.z,
        }
    }

    fn set(&mut self, key: StateKey, new_value: i64)
        ensures
            *final(self) == old(self).set_spec(key, new_value),
    {
        match key {
            StateKey::X => self.x = new_value,
            StateKey::Y => self.y = new_value,
            StateKey::Z => self.z = new_value,
        }
    }

    pub fn get_snapshot(&self) -> (snap: InMemoryStateMachineSnapshot)
        ensures
            snap.x_spec() == self.x_spec(),
            snap.y_spec() == self.y_spec(),
            snap.z_spec() == self.z_spec(),
    {
        InMemoryStateMachineSnapshot { x: self.x, y: self.y, z: self.z }
    }

    pub fn apply_command(&mut self, command: &Command)
        ensures
            *final(self) == command.exec_spec(*old(self)),
    {
        command.exec(self)
    }
}

impl Default for InMemoryStateMachine {
    fn default() -> (s: Self)
        ensures
            s.x_spec() == 0 && s.y_spec() == 0 && s.z_spec() == 0,
    {
        Self::new()
    }
}

impl PartialEq<InMemoryStateMachineSnapshot> for InMemoryStateMachine {
    fn eq(&self, other: &InMemoryStateMachineSnapshot) -> (r: bool) {
        self.x == other.x && self.y == other.y && self.z == other.z
    }
}

impl PartialEqSpecImpl<InMemoryStateMachineSnapshot> for InMemoryStateMachine {
    open spec fn obeys_eq_spec() -> bool {
        true
    }

    open spec fn eq_spec(&self, other: &InMemoryStateMachineSnapshot) -> bool {
        self.x_spec() == other.x_spec() && self.y_spec() == other.y_spec() && self.z_spec()
            == other.z_spec()
    }
}

/// A copy of the three values of a state machine at one moment.
#[derive(Debug, Clone, Copy, PartialEq, Eq, Structural)]
pub struct InMemoryStateMachineSnapshot {
    x: i64,
    y: i64,
    z: i64,
}

impl InMemoryStateMachineSnapshot {
    pub closed spec fn x_spec(self) -> i64 {
        self.x
    }

    pub closed spec fn y_spec(self) -> i64 {
        self.y
    }

    pub closed spec fn z_spec(self) -> i64 {
        self.z
    }
}

impl InMemoryStateMachineSnapshot {
    /// The snapshot as displayed to users, e.g. `{ X => 1, Y => 2, Z => 3 }`.
    pub open spec fn display_spec(self) -> Seq<char> {
        "{ X => "@ + int_text(self.x_spec() as int) + ", Y => "@ + int_text(self.y_spec() as int)
            + ", Z => "@ + int_text(self.z_spec() as int) + " }"@
    }

    pub fn to_display_string(&self) -> (s: String)
        ensures
            s@ == self.display_spec(),
    {
        let mut s = String::from_str("{ X => ");
        s.append(i64_text(self.x).as_str());
        s.append(", Y => ");
        s.append(i64_text(self.y).as_str());
        s.append(", Z => ");
        s.append(i64_text(self.z).as_str());
        s.append(" }");
        s
    }
}

impl PartialEq<InMemoryStateMachine> for InMemoryStateMachineSnapshot {
    fn eq(&self, other: &InMemoryStateMachine) -> (r: bool) {
        self.x == other.x && self.y == other.y && self.z == other.z
    }
}

impl PartialEqSpecImpl<InMemoryStateMachine> for InMemoryStateMachineSnapshot {
    open spec fn obeys_eq_spec() -> bool {
        true
    }

    open spec fn eq_spec(&self, other: &InMemoryStateMachine) -> bool {
        self.x_spec() == other.x_spec() && self.y_spec() == other.y_spec() && self.z_spec()
            == other.z_spec()
    }
}

/// After `set_spec`, a machine holds the new value at the key set and its old
/// values at the others.
pub broadcast proof fn lemma_set_spec_values(s: InMemoryStateMachine, key: StateKey, v: i64, k: StateKey)
    ensures
        #[trigger] s.set_spec(key, v).get_spec(k) == (if k == key {
            v
        } else {
            s.get_spec(k)
        }),
{
}

/// Two machines that hold the same value at every key are equal.
pub proof fn lemma_machines_equal_by_values(a: InMemoryStateMachine, b: InMemoryStateMachine)
    requires
        forall|k: StateKey| #[trigger] a.get_spec(k) == b.get_spec(k),
    ensures
        a == b,
{
    assert(a.get_spec(StateKey::X) == b.get_spec(StateKey::X));
    assert(a.get_spec(StateKey::Y) == b.get_spec(StateKey::Y));
    assert(a.get_spec(StateKey::Z) == b.get_spec(StateKey::Z));
}

/// A command changes the value at its own key only; the others keep their values.
pub proof fn lemma_command_changes_only_its_key(c: Command, s: InMemoryStateMachine, k: StateKey)
    ensures
        c.exec_spec(s).get_spec(k) == (if k == c.key_spec() {
            c.op_spec().exec_spec(s.get_spec(k), c.value_spec())
        } else {
            s.get_spec(k)
        }),
{
}

/// Commands on different keys can be applied in either order.
pub proof fn lemma_commands_on_distinct_keys_commute(a: Command, b: Command, s: InMemoryStateMachine)
    requires
        a.key_spec() != b.key_spec(),
    ensures
        b.exec_spec(a.exec_spec(s)) == a.exec_spec(b.exec_spec(s)),
{
}

/// Increments of one sign on the same key can be applied in either order,
/// and so can decrements of one sign: saturation does not depend on the order.
pub proof fn lemma_same_sign_updates_commute(a: Command, b: Command, s: InMemoryStateMachine)
    requires
        a.key_spec() == b.key_spec(),
        a.op_spec() == b.op_spec(),
        a.op_spec() != Op::Replace,
        (a.value_spec() >= 0 && b.value_spec() >= 0) || (a.value_spec() <= 0 && b.value_spec() <= 0),
    ensures
        b.exec_spec(a.exec_spec(s)) == a.exec_spec(b.exec_spec(s)),
{
}

/// A replacement overrides any earlier command on its key, leaves the new
/// value there, and applying it again changes nothing.
pub proof fn lemma_replace_overrides_and_is_idempotent(
    c: Command,
    r: Command,
    s: InMemoryStateMachine,
)
    requires
        r.op_spec() == Op::Replace,
        c.key_spec() == r.key_spec(),
    ensures
        r.exec_spec(c.exec_spec(s)) == r.exec_spec(s),
        r.exec_spec(s).get_spec(r.key_spec()) == r.value_spec(),
        r.exec_spec(r.exec_spec(s)) == r.exec_spec(s),
{
}

/// An increment adds its operand and a decrement subtracts it, each clamped to
/// the range of `i64` when the exact result leaves it; a replacement gives the
/// operand, whatever the value it replaces.
pub proof fn lemma_ops_are_clamped_arithmetic(lhs: i64, rhs: i64)
    ensures
        Op::Increment.exec_spec(lhs, rhs) as int == (if lhs + rhs > i64::MAX {
            i64::MAX as int
        } else if lhs + rhs < i64::MIN {
            i64::MIN as int
        } else {
            lhs + rhs
        }),
        Op::Decrement.exec_spec(lhs, rhs) as int == (if lhs - rhs > i64::MAX {
            i64::MAX as int
        } else if lhs - rhs < i64::MIN {
            i64::MIN as int
        } else {
            lhs - rhs
        }),
        Op::Replace.exec_spec(lhs, rhs) == rhs,
{
}

/// An increment or decrement never wraps around: it clamps at the bounds of `i64`.
pub proof fn lemma_saturation_is_monotonic(lhs: i64, rhs: i64)
    ensures
        rhs >= 0 ==> Op::Increment.exec_spec(lhs, rhs) >= lhs,
        rhs >= 0 ==> Op::Decrement.exec_spec(lhs, rhs) <= lhs,
        rhs <= 0 ==> Op::Increment.exec_spec(lhs, rhs) <= lhs,
        rhs <= 0 ==> Op::Decrement.exec_spec(lhs, rhs) >= lhs,
{
}

/// A snapshot holding a machine's three values compares equal to it, both ways.
pub proof fn lemma_snapshot_equals_machine(m: InMemoryStateMachine, snap: InMemoryStateMachineSnapshot)
    requires
        snap.x_spec() == m.x_spec(),
        snap.y_spec() == m.y_spec(),
        snap.z_spec() == m.z_spec(),
    ensures
        PartialEqSpec::eq_spec(&m, &snap),
        PartialEqSpec::eq_spec(&snap, &m),
{
}

} // verus!
