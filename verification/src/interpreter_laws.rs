//! Properties of the register machine that span several operations.
use vstd::prelude::*;
use crate::interpreter::{
    binary_spec, index_value, trunc_div, trunc_rem, not_spec, read_spec, set_field, step_spec, str_order, write_spec, Eval,
    Event, HeapModel, Instruction, MachineError, MachineModel, Operand, Operator, Order, Outcome, Step, Value,
};

verus! {

/// Reading with the heap slot `v` held never looks inside slot `v`, so
/// replacing its object changes nothing.
proof fn lemma_read_ignores_held_slot(
    op: Operand,
    heap: Seq<Option<HeapModel>>,
    stack: Seq<Value>,
    held: Set<usize>,
    v: usize,
    obj: Option<HeapModel>,
)
    requires
        held.contains(v),
        v < heap.len(),
    ensures
        read_spec(op, heap.update(v as int, obj), stack, held) == read_spec(op, heap, stack, held),
    decreases op,
{
    match op {
        Operand::ArrayAccess { v: w, of } => {
            if w < heap.len() && !held.contains(w) {
                lemma_read_ignores_held_slot(*of, heap, stack, held.insert(w), v, obj);
            }
        },
        _ => {},
    }
}

/// Reading a place gives back the value that was just written to it.
pub proof fn law_read_after_write(
    op: Operand,
    x: Value,
    heap: Seq<Option<HeapModel>>,
    stack: Seq<Value>,
)
    requires
        write_spec(op, x, heap, stack) is Done,
    ensures
        ({
            let (h2, s2) = write_spec(op, x, heap, stack)->Done_0;
            read_spec(op, h2, s2, Set::empty()) == Eval::Done(x)
        }),
{
    match op {
        Operand::StackVariable { v } => {},
        Operand::FieldAccess { v, of } => {},
        Operand::ArrayAccess { v, of } => {
            let h = heap[v as int]->Some_0;
            let i = index_value(read_spec(*of, heap, stack, set![v])->Done_0)->Some_0;
            let (h2, s2) = write_spec(op, x, heap, stack)->Done_0;
            assert(Set::<usize>::empty().insert(v) =~= set![v]);
            lemma_read_ignores_held_slot(*of, heap, stack, set![v], v, Some(set_field(h, i, x)));
        },
        _ => {},
    }
}

/// A refused write leaves the heap and the stack as they were, and a write
/// to a constant or to the null pointer is always refused.
pub proof fn law_constants_are_read_only(op: Operand, x: Value, heap: Seq<Option<HeapModel>>, stack: Seq<Value>)
    requires
        op is ConstantUnsigned || op is ConstantSigned || op is ConstantFloat || op is ConstantString
            || op is NullPtr,
    ensures
        write_spec(op, x, heap, stack) is Fail,
{
}

/// Calling a function whose first instruction is `Return`, with no place for
/// the result, comes back to the instruction after the call with the caller's
/// frame, call stack and heap unchanged.
pub proof fn law_call_then_return(m: MachineModel)
    requires
        m.ip < m.instructions.len(),
        m.instructions[m.ip as int] is Call,
        m.instructions[m.ip as int]->Call_output is None,
        !(step_spec(m) is Stuck),
        m.instructions[m.ip as int]->Call_to_call < m.instructions.len(),
        m.instructions[m.instructions[m.ip as int]->Call_to_call as int] is Return,
    ensures
        ({
            let m1 = step_spec(m)->Done_0;
            let m2 = step_spec(m1)->Done_0;
            &&& step_spec(m1) is Done
            &&& step_spec(m1)->Done_1 == Ok::<Event, MachineError>(Event::Continue)
            &&& m2.ip == (m.ip + 1) as usize
            &&& m2.frame == m.frame
            &&& m2.previous == m.previous
            &&& m2.heap == m.heap
            &&& m2.halted == m.halted
        }),
{
    let m1 = step_spec(m)->Done_0;
    assert(m1.previous.drop_last() =~= m.previous);
}

/// `Halt` stops the machine and changes nothing else but the instruction
/// pointer.
pub proof fn law_halt(m: MachineModel)
    requires
        m.ip < m.instructions.len(),
        m.instructions[m.ip as int] is Halt,
    ensures
        step_spec(m) == Step::Done(
            MachineModel { halted: true, ip: (m.ip + 1) as usize, ..m },
            Ok::<Event, MachineError>(Event::Continue),
        ),
{
}

/// `Not` undoes itself on booleans and on integer and float bit patterns.
pub proof fn law_not_involution(x: Value)
    requires
        !(x is Pointer || x is Str),
    ensures
        not_spec(not_spec(x)->Ok_0) == Ok::<Value, MachineError>(x),
{
    match x {
        Value::Unsigned(u) => {
            assert(!(!u) == u) by (bit_vector);
        },
        Value::Signed(i) => {
            assert(!(!i) == i) by (bit_vector);
        },
        Value::Float(f) => {
            assert(!(!f) == f) by (bit_vector);
        },
        _ => {},
    }
}

/// Equality and inequality of two values of the same non-float type are
/// complementary.
pub proof fn law_equal_not_equal(l: Value, r: Value)
    requires
        !(l is Float),
        binary_spec(Operator::CmpE, l, r) is Value,
    ensures
        binary_spec(Operator::CmpNe, l, r) is Value,
        binary_spec(Operator::CmpE, l, r)->Value_0 is Bool,
        binary_spec(Operator::CmpNe, l, r)->Value_0 is Bool,
        binary_spec(Operator::CmpE, l, r)->Value_0->Bool_0 != binary_spec(
            Operator::CmpNe,
            l,
            r,
        )->Value_0->Bool_0,
{
}

/// The order of strings is antisymmetric: `a < b` exactly when `b > a`.
pub proof fn law_string_order_antisymmetric(a: Seq<char>, b: Seq<char>)
    ensures
        (str_order(a, b) == Order::Less) == (str_order(b, a) == Order::Greater),
        (str_order(a, b) == Order::Equal) == (a == b),
    decreases a.len(),
{
    if a.len() > 0 && b.len() > 0 && a[0] == b[0] {
        law_string_order_antisymmetric(a.drop_first(), b.drop_first());
        if a.drop_first() == b.drop_first() {
            assert(a =~= seq![a[0]] + a.drop_first());
            assert(b =~= seq![b[0]] + b.drop_first());
        }
    } else if a.len() > 0 && b.len() > 0 {
        assert(a[0] != b[0]);
    } else if a.len() == 0 && b.len() == 0 {
        assert(a =~= b);
    }
}

/// Whether `op` on `l` and `r` gives `true`.
pub open spec fn holds(op: Operator, l: Value, r: Value) -> bool {
    binary_spec(op, l, r) == Outcome::Value(Value::Bool(true))
}

/// Whether `op` on `l` and `r` gives a truth value.
pub open spec fn gives_truth(op: Operator, l: Value, r: Value) -> bool {
    binary_spec(op, l, r) is Value && binary_spec(op, l, r)->Value_0 is Bool
}

/// Two values of one type that the machine orders: integers of one kind,
/// or two strings.
pub open spec fn comparable(l: Value, r: Value) -> bool {
    ||| (l is Signed && r is Signed)
    ||| (l is Unsigned && r is Unsigned)
    ||| (l is Str && r is Str)
}

/// The six comparisons of two signed integers, and of two unsigned ones,
/// follow the order of the integers.
pub proof fn law_integer_comparisons_follow_integer_order(a: i64, b: i64, c: u64, d: u64)
    ensures
        binary_spec(Operator::CmpL, Value::Signed(a), Value::Signed(b)) == Outcome::Value(Value::Bool(a < b)),
        binary_spec(Operator::CmpLe, Value::Signed(a), Value::Signed(b)) == Outcome::Value(Value::Bool(a <= b)),
        binary_spec(Operator::CmpG, Value::Signed(a), Value::Signed(b)) == Outcome::Value(Value::Bool(a > b)),
        binary_spec(Operator::CmpGe, Value::Signed(a), Value::Signed(b)) == Outcome::Value(Value::Bool(a >= b)),
        binary_spec(Operator::CmpE, Value::Signed(a), Value::Signed(b)) == Outcome::Value(Value::Bool(a == b)),
        binary_spec(Operator::CmpNe, Value::Signed(a), Value::Signed(b)) == Outcome::Value(Value::Bool(a != b)),
        binary_spec(Operator::CmpL, Value::Unsigned(c), Value::Unsigned(d)) == Outcome::Value(Value::Bool(c < d)),
        binary_spec(Operator::CmpLe, Value::Unsigned(c), Value::Unsigned(d)) == Outcome::Value(Value::Bool(c <= d)),
        binary_spec(Operator::CmpG, Value::Unsigned(c), Value::Unsigned(d)) == Outcome::Value(Value::Bool(c > d)),
        binary_spec(Operator::CmpGe, Value::Unsigned(c), Value::Unsigned(d)) == Outcome::Value(Value::Bool(c >= d)),
        binary_spec(Operator::CmpE, Value::Unsigned(c), Value::Unsigned(d)) == Outcome::Value(Value::Bool(c == d)),
        binary_spec(Operator::CmpNe, Value::Unsigned(c), Value::Unsigned(d)) == Outcome::Value(Value::Bool(c != d)),
{
}

/// The comparisons of two comparable values form a total order: each gives
/// a truth value; `<=` is not `>`, `>=` is not `<`, `!=` is not `==`;
/// `a < b` is `b > a` and `a <= b` is `b >= a`; `==` is equality of the
/// values; every value is `<=` itself and not `<` itself; and `<` implies
/// `<=`.
pub proof fn law_comparisons_form_an_order(l: Value, r: Value)
    requires
        comparable(l, r),
    ensures
        gives_truth(Operator::CmpL, l, r),
        gives_truth(Operator::CmpLe, l, r),
        gives_truth(Operator::CmpG, l, r),
        gives_truth(Operator::CmpGe, l, r),
        gives_truth(Operator::CmpE, l, r),
        gives_truth(Operator::CmpNe, l, r),
        holds(Operator::CmpLe, l, r) == !holds(Operator::CmpG, l, r),
        holds(Operator::CmpGe, l, r) == !holds(Operator::CmpL, l, r),
        holds(Operator::CmpNe, l, r) == !holds(Operator::CmpE, l, r),
        holds(Operator::CmpL, l, r) == holds(Operator::CmpG, r, l),
        holds(Operator::CmpLe, l, r) == holds(Operator::CmpGe, r, l),
        holds(Operator::CmpE, l, r) == (l == r),
        holds(Operator::CmpLe, l, l),
        holds(Operator::CmpGe, l, l),
        !holds(Operator::CmpL, l, l),
        !holds(Operator::CmpG, l, l),
        holds(Operator::CmpL, l, r) ==> holds(Operator::CmpLe, l, r),
{
    match (l, r) {
        (Value::Str(a), Value::Str(b)) => {
            law_string_order_antisymmetric(a, b);
            law_string_order_antisymmetric(a, a);
            law_string_order_antisymmetric(b, a);
        },
        _ => {},
    }
}

/// Unsigned arithmetic wraps modulo 2^64; division and remainder of
/// unsigned integers, by a divisor other than 0, satisfy
/// `a == q * b + r` with `r < b`.
pub proof fn law_unsigned_arithmetic(a: u64, b: u64)
    ensures
        binary_spec(Operator::Add, Value::Unsigned(a), Value::Unsigned(b)) == Outcome::Value(
            Value::Unsigned(((a + b) % 0x1_0000_0000_0000_0000) as u64),
        ),
        binary_spec(Operator::Sub, Value::Unsigned(a), Value::Unsigned(b)) == Outcome::Value(
            Value::Unsigned(((a - b) % 0x1_0000_0000_0000_0000) as u64),
        ),
        binary_spec(Operator::Mul, Value::Unsigned(a), Value::Unsigned(b)) == Outcome::Value(
            Value::Unsigned(((a * b) % 0x1_0000_0000_0000_0000) as u64),
        ),
        b != 0 ==> ({
            let q = binary_spec(Operator::Div, Value::Unsigned(a), Value::Unsigned(b))->Value_0->Unsigned_0;
            let r = binary_spec(Operator::Rem, Value::Unsigned(a), Value::Unsigned(b))->Value_0->Unsigned_0;
            &&& binary_spec(Operator::Div, Value::Unsigned(a), Value::Unsigned(b)) is Value
            &&& binary_spec(Operator::Rem, Value::Unsigned(a), Value::Unsigned(b)) is Value
            &&& a == q * b + r
            &&& r < b
        }),
        b == 0 ==> binary_spec(Operator::Div, Value::Unsigned(a), Value::Unsigned(b)) is Stuck,
        b == 0 ==> binary_spec(Operator::Rem, Value::Unsigned(a), Value::Unsigned(b)) is Stuck,
{
    if b != 0 {
        let (x, y) = (a as int, b as int);
        vstd::arithmetic::div_mod::lemma_fundamental_div_mod(x, y);
        vstd::arithmetic::div_mod::lemma_mod_bound(x, y);
        vstd::arithmetic::div_mod::lemma_div_pos_is_pos(x, y);
        vstd::arithmetic::div_mod::lemma_div_is_ordered_by_denominator(x, 1, y);
        assert(y * (x / y) == (x / y) * y) by (nonlinear_arith);
    }
}

proof fn lemma_truncated_division(a: int, b: int)
    requires
        b != 0,
    ensures
        a == trunc_div(a, b) * b + trunc_rem(a, b),
        vstd::math::abs(trunc_rem(a, b)) < vstd::math::abs(b),
        trunc_rem(a, b) == 0 || ((trunc_rem(a, b) < 0) == (a < 0)),
{
    let x = vstd::math::abs(a) as int;
    let y = vstd::math::abs(b) as int;
    vstd::arithmetic::div_mod::lemma_fundamental_div_mod(x, y);
    vstd::arithmetic::div_mod::lemma_mod_bound(x, y);
    let q = x / y;
    let m = x % y;
    assert(x == y * q + m);
    if a >= 0 && b > 0 {
        assert(a == q * b + m) by (nonlinear_arith)
            requires
                x == y * q + m,
                x == a,
                y == b,
        ;
    } else if a >= 0 && b < 0 {
        assert(a == (-q) * b + m) by (nonlinear_arith)
            requires
                x == y * q + m,
                x == a,
                y == -b,
        ;
    } else if a < 0 && b > 0 {
        assert(a == (-q) * b + (-m)) by (nonlinear_arith)
            requires
                x == y * q + m,
                x == -a,
                y == b,
        ;
    } else {
        assert(a == q * b + (-m)) by (nonlinear_arith)
            requires
                x == y * q + m,
                x == -a,
                y == -b,
        ;
    }
}

/// Signed addition and subtraction wrap modulo 2^64.  Signed division and
/// remainder by a divisor other than 0 round toward zero: `a == q * b + r`,
/// `|r| < |b|`, and `r` is 0 or has the sign of `a`; `i64::MIN / -1` wraps
/// to `i64::MIN` with remainder 0.
pub proof fn law_signed_arithmetic(a: i64, b: i64)
    ensures
        binary_spec(Operator::Add, Value::Signed(a), Value::Signed(b)) is Value,
        binary_spec(Operator::Sub, Value::Signed(a), Value::Signed(b)) is Value,
        (a + b - binary_spec(Operator::Add, Value::Signed(a), Value::Signed(b))->Value_0->Signed_0)
            % 0x1_0000_0000_0000_0000 == 0,
        (a - b - binary_spec(Operator::Sub, Value::Signed(a), Value::Signed(b))->Value_0->Signed_0)
            % 0x1_0000_0000_0000_0000 == 0,
        b != 0 && !(a == i64::MIN && b == -1) ==> ({
            let q = binary_spec(Operator::Div, Value::Signed(a), Value::Signed(b))->Value_0->Signed_0;
            let r = binary_spec(Operator::Rem, Value::Signed(a), Value::Signed(b))->Value_0->Signed_0;
            &&& binary_spec(Operator::Div, Value::Signed(a), Value::Signed(b)) is Value
            &&& binary_spec(Operator::Rem, Value::Signed(a), Value::Signed(b)) is Value
            &&& a == q * b + r
            &&& vstd::math::abs(r as int) < vstd::math::abs(b as int)
            &&& (r == 0 || ((r < 0) == (a < 0)))
        }),
        binary_spec(Operator::Div, Value::Signed(i64::MIN), Value::Signed(-1i64)) == Outcome::Value(
            Value::Signed(i64::MIN),
        ),
        binary_spec(Operator::Rem, Value::Signed(i64::MIN), Value::Signed(-1i64)) == Outcome::Value(Value::Signed(0i64)),
        b == 0 ==> binary_spec(Operator::Div, Value::Signed(a), Value::Signed(b)) is Stuck,
        b == 0 ==> binary_spec(Operator::Rem, Value::Signed(a), Value::Signed(b)) is Stuck,
{
    if b != 0 && !(a == i64::MIN && b == -1) {
        lemma_truncated_division(a as int, b as int);
        let x = vstd::math::abs(a as int) as int;
        let y = vstd::math::abs(b as int) as int;
        vstd::arithmetic::div_mod::lemma_div_pos_is_pos(x, y);
        vstd::arithmetic::div_mod::lemma_div_is_ordered_by_denominator(x, 1, y);
        vstd::arithmetic::div_mod::lemma_mod_bound(x, y);
        if y >= 2 {
            vstd::arithmetic::div_mod::lemma_div_is_ordered_by_denominator(x, 2, y);
        }
    }
}

/// The logical operators on truth values, and concatenation and equality
/// of strings.
pub proof fn law_truth_and_string_operators(p: bool, q: bool, a: Seq<char>, b: Seq<char>)
    ensures
        binary_spec(Operator::And, Value::Bool(p), Value::Bool(q)) == Outcome::Value(Value::Bool(p && q)),
        binary_spec(Operator::Or, Value::Bool(p), Value::Bool(q)) == Outcome::Value(Value::Bool(p || q)),
        binary_spec(Operator::Xor, Value::Bool(p), Value::Bool(q)) == Outcome::Value(Value::Bool(p != q)),
        binary_spec(Operator::Add, Value::Str(a), Value::Str(b)) is Value,
        binary_spec(Operator::Add, Value::Str(a), Value::Str(b))->Value_0 is Str,
        ({
            let c = binary_spec(Operator::Add, Value::Str(a), Value::Str(b))->Value_0->Str_0;
            &&& c.len() == a.len() + b.len()
            &&& forall|i: int| 0 <= i < a.len() ==> #[trigger] c[i] == a[i]
            &&& forall|i: int| 0 <= i < b.len() ==> #[trigger] c[a.len() + i] == b[i]
        }),
        binary_spec(Operator::Sub, Value::Str(a), Value::Str(b)) == Outcome::Fail(MachineError::IncompatibleOperation),
        binary_spec(Operator::Add, Value::Bool(p), Value::Bool(q)) == Outcome::Fail(
            MachineError::IncompatibleOperation,
        ),
{
}

/// The machine `m` with `ins` at its instruction pointer.
pub open spec fn with_instruction(m: MachineModel, ins: Instruction) -> MachineModel {
    MachineModel { instructions: m.instructions.update(m.ip as int, ins), ..m }
}

/// `Write` and `WriteLn` of an operand that can be read hand out the value
/// read, and move on to the next instruction changing nothing else; they
/// differ only in that `Write` asks for no line break and `WriteLn` for one.
/// The value printed is the value that a `Move` of the same operand to a
/// stack variable stores there.
pub proof fn law_write_and_writeln(m: MachineModel, op: Operand, v: usize)
    requires
        m.ip < m.instructions.len(),
        read_spec(op, m.heap, m.frame, Set::empty()) is Done,
        v < m.frame.len(),
    ensures
        ({
            let x = read_spec(op, m.heap, m.frame, Set::empty())->Done_0;
            let mw = with_instruction(m, Instruction::Write { to_write: op });
            let ml = with_instruction(m, Instruction::WriteLn { to_write: op });
            let mm = with_instruction(m, Instruction::Move { to: Operand::StackVariable { v }, from: op });
            &&& step_spec(mw) == Step::Done(MachineModel { ip: (m.ip + 1) as usize, ..mw }, Ok(Event::Print(x, false)))
            &&& step_spec(ml) == Step::Done(MachineModel { ip: (m.ip + 1) as usize, ..ml }, Ok(Event::Print(x, true)))
            &&& step_spec(mm) == Step::Done(
                MachineModel { ip: (m.ip + 1) as usize, frame: m.frame.update(v as int, x), ..mm },
                Ok(Event::Continue),
            )
        }),
{
}

/// `Jmp` goes to its target; `JmpIfNot` on a truth value goes to its target
/// exactly when the value is false, and else to the next instruction; both
/// change nothing else.
pub proof fn law_jumps(m: MachineModel, target: usize, v: usize, b: bool)
    requires
        m.ip < m.instructions.len(),
        m.ip + 1 <= usize::MAX,
        v < m.frame.len(),
        m.frame[v as int] == Value::Bool(b),
    ensures
        ({
            let mj = with_instruction(m, Instruction::Jmp { to_jump_to: target });
            let mc = with_instruction(
                m,
                Instruction::JmpIfNot { to_jump_to: target, condition: Operand::StackVariable { v } },
            );
            &&& step_spec(mj) == Step::Done(MachineModel { ip: target, ..mj }, Ok(Event::Continue))
            &&& step_spec(mc) == Step::Done(
                MachineModel {
                    ip: if b {
                        (m.ip + 1) as usize
                    } else {
                        target
                    },
                    ..mc
                },
                Ok(Event::Continue),
            )
        }),
{
}

/// `BeginStackFrame` with `n` variables appends `n` null pointers to the
/// current frame and changes nothing else.
pub proof fn law_begin_stack_frame(m: MachineModel, n: usize)
    requires
        m.ip < m.instructions.len(),
        m.ip + 1 <= usize::MAX,
    ensures
        ({
            let mb = with_instruction(m, Instruction::BeginStackFrame { variable_count: n });
            &&& step_spec(mb) is Done
            &&& step_spec(mb)->Done_1 == Ok::<Event, MachineError>(Event::Continue)
            &&& step_spec(mb)->Done_0.frame.len() == m.frame.len() + n
            &&& forall|i: int| 0 <= i < m.frame.len() ==> #[trigger] step_spec(mb)->Done_0.frame[i] == m.frame[i]
            &&& forall|i: int|
                m.frame.len() <= i < m.frame.len() + n ==> #[trigger] step_spec(mb)->Done_0.frame[i] == Value::Pointer(0)
            &&& step_spec(mb)->Done_0.ip == m.ip + 1
            &&& step_spec(mb)->Done_0.heap == m.heap
            &&& step_spec(mb)->Done_0.previous == m.previous
        }),
{
}


/// `Not` negates a truth value, complements the bits of an integer (for an
/// unsigned one the largest value minus it, for a signed one minus it, less
/// one), tells whether a pointer is null, and refuses a string.
pub proof fn law_not_complements(p: bool, u: u64, i: i64, ptr: usize, s: Seq<char>)
    ensures
        not_spec(Value::Bool(p)) == Ok::<Value, MachineError>(Value::Bool(!p)),
        not_spec(Value::Unsigned(u)) == Ok::<Value, MachineError>(Value::Unsigned((u64::MAX - u) as u64)),
        not_spec(Value::Signed(i)) == Ok::<Value, MachineError>(Value::Signed((-1 - i) as i64)),
        not_spec(Value::Pointer(ptr)) == Ok::<Value, MachineError>(Value::Bool(ptr == 0)),
        not_spec(Value::Str(s)) == Err::<Value, MachineError>(MachineError::NotOfString),
{
    assert(!u == (0xffff_ffff_ffff_ffffu64 - u) as u64) by (bit_vector);
    assert(!i == (-1i64 - i) as i64) by (bit_vector);
}

/// With stack variables as operands, `BinaryOperator` stores the operator's
/// value on the left and right operands (in that order) in the output
/// variable, `Not` stores that of its input, and `Read` asks for a line to
/// go to its target; each moves on to the next instruction and changes
/// nothing else.
pub proof fn law_operator_steps(m: MachineModel, op: Operator, a: usize, b: usize, o: usize)
    requires
        m.ip < m.instructions.len(),
        a < m.frame.len(),
        b < m.frame.len(),
        o < m.frame.len(),
    ensures
        ({
            let l = m.frame[a as int];
            let r = m.frame[b as int];
            let mb = with_instruction(
                m,
                Instruction::BinaryOperator {
                    op,
                    left: Operand::StackVariable { v: a },
                    right: Operand::StackVariable { v: b },
                    output: Operand::StackVariable { v: o },
                },
            );
            binary_spec(op, l, r) is Value ==> step_spec(mb) == Step::Done(
                MachineModel {
                    ip: (m.ip + 1) as usize,
                    frame: m.frame.update(o as int, binary_spec(op, l, r)->Value_0),
                    ..mb
                },
                Ok(Event::Continue),
            )
        }),
        ({
            let x = m.frame[a as int];
            let mn = with_instruction(
                m,
                Instruction::Not { input: Operand::StackVariable { v: a }, output: Operand::StackVariable { v: o } },
            );
            not_spec(x) is Ok ==> step_spec(mn) == Step::Done(
                MachineModel { ip: (m.ip + 1) as usize, frame: m.frame.update(o as int, not_spec(x)->Ok_0), ..mn },
                Ok(Event::Continue),
            )
        }),
        ({
            let t = Operand::StackVariable { v: o };
            let mr = with_instruction(m, Instruction::Read { to_write_to: t });
            step_spec(mr) == Step::Done(MachineModel { ip: (m.ip + 1) as usize, ..mr }, Ok(Event::ReadLine(t)))
        }),
{
}

} // verus!
