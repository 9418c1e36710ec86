//! A small register machine: instructions read and write operands that live
//! either in the current stack frame or in heap objects.
//!
//! Floating-point values are carried as their IEEE-754 bit patterns.  The
//! machine decides everything that does not need floating-point arithmetic,
//! and hands the rest (float arithmetic and comparisons, printing and reading
//! lines) back to its driver as a [`StepEvent`].
use vstd::prelude::*;
use vstd::string::*;

verus! {

/// Binary operators of the machine.
#[derive(Clone, Copy, Debug, PartialEq, Eq, Structural)]
pub enum Operator {
    Add,
    Sub,
    Mul,
    Div,
    Rem,
    CmpGe,
    CmpNe,
    CmpLe,
    CmpE,
    CmpG,
    CmpL,
    And,
    Or,
    Xor,
}

/// A place that can be read from, and possibly written to.
#[derive(Debug)]
pub enum Operand {
    StackVariable { v: usize },
    FieldAccess { v: usize, of: usize },
    ArrayAccess { v: usize, of: Box<Operand> },
    ConstantUnsigned(u64),
    ConstantSigned(i64),
    /// The IEEE-754 bit pattern of a 64-bit float.
    ConstantFloat(u64),
    ConstantString(String),
    NullPtr,
}

/// A value held by the machine.
#[derive(Clone, Debug)]
pub enum Variable {
    Bool(bool),
    Unsigned(u64),
    Signed(i64),
    /// The IEEE-754 bit pattern of a 64-bit float.
    Float(u64),
    Pointer(usize),
    String(String),
}

/// The mathematical value of a [`Variable`]: strings are sequences of chars.
pub enum Value {
    Bool(bool),
    Unsigned(u64),
    Signed(i64),
    Float(u64),
    Pointer(usize),
    Str(Seq<char>),
}

impl View for Variable {
    type V = Value;

    open spec fn view(&self) -> Value {
        match self {
            Variable::Bool(b) => Value::Bool(*b),
            Variable::Unsigned(x) => Value::Unsigned(*x),
            Variable::Signed(x) => Value::Signed(*x),
            Variable::Float(x) => Value::Float(*x),
            Variable::Pointer(x) => Value::Pointer(*x),
            Variable::String(s) => Value::Str(s@),
        }
    }
}

/// Why an instruction was refused.
#[derive(Clone, Copy, Debug, PartialEq, Eq, Structural)]
pub enum MachineError {
    /// The two operands have a common type that does not support the operator.
    IncompatibleOperation,
    /// The two operands of a binary operator have different types.
    IncompatibleTypes,
    /// `Not` was applied to a string.
    NotOfString,
    /// `Return` with no caller frame.
    ReturnFromBase,
    /// A heap slot that holds no object was accessed.
    MissingHeapObject,
    /// An array was indexed by something other than an integer.
    InvalidIndex,
    /// A constant operand was written to.
    WriteToConstant,
    /// The null pointer operand was written to.
    WriteToNull,
}

/// An object on the machine's heap.
#[derive(Clone, Debug)]
pub struct HeapValue {
    pub gc_is_reachable: bool,
    pub is_array: bool,
    pub field_names: Vec<String>,
    pub fields: Vec<Variable>,
}

/// The mathematical model of a [`HeapValue`].
#[verifier::ext_equal]
pub struct HeapModel {
    pub gc_is_reachable: bool,
    pub is_array: bool,
    pub field_names: Seq<Seq<char>>,
    pub fields: Seq<Value>,
}

pub open spec fn values_of(s: Seq<Variable>) -> Seq<Value> {
    s.map_values(|v: Variable| v@)
}

pub open spec fn strings_of(s: Seq<String>) -> Seq<Seq<char>> {
    s.map_values(|v: String| v@)
}

impl View for HeapValue {
    type V = HeapModel;

    open spec fn view(&self) -> HeapModel {
        HeapModel {
            gc_is_reachable: self.gc_is_reachable,
            is_array: self.is_array,
            field_names: strings_of(self.field_names@),
            fields: values_of(self.fields@),
        }
    }
}

pub open spec fn heap_model(h: Seq<Option<HeapValue>>) -> Seq<Option<HeapModel>> {
    h.map_values(
        |o: Option<HeapValue>|
            match o {
                Some(v) => Some(v@),
                None => None,
            },
    )
}

/// One instruction of a program.
#[derive(Debug)]
pub enum Instruction {
    Move { to: Operand, from: Operand },
    BinaryOperator { op: Operator, left: Operand, right: Operand, output: Operand },
    Not { input: Operand, output: Operand },
    BeginStackFrame { variable_count: usize },
    Return { to_return: Variable },
    Call { to_call: usize, arguments: Vec<Operand>, output: Option<Operand> },
    Jmp { to_jump_to: usize },
    JmpIfNot { to_jump_to: usize, condition: Operand },
    Halt,
    Write { to_write: Operand },
    WriteLn { to_write: Operand },
    Read { to_write_to: Operand },
}

/// The heap and the program of a machine.
#[derive(Debug)]
pub struct ProgramData {
    pub heap: Vec<Option<HeapValue>>,
    pub instructions: Vec<Instruction>,
}

/// A running program.
#[derive(Debug)]
pub struct Machine {
    pub data: ProgramData,
    pub instruction_pointer: usize,
    pub current_frame: Vec<Variable>,
    pub previous_frames: Vec<(usize, Vec<Variable>, Option<Operand>)>,
    pub halted: bool,
}

/// The result of evaluating something that may fail, or may not return at all
/// (`Stuck`: the evaluation panics or waits forever on a lock it holds).
pub enum Eval<T> {
    Done(T),
    Fail(MachineError),
    Stuck,
}

/// What a step hands back to the driver of the machine.
#[derive(Debug)]
pub enum StepEvent {
    /// Nothing is left to do for this instruction.
    Continue,
    /// The value is to be printed, followed by a line break when `newline`.
    Print { value: Variable, newline: bool },
    /// A line of input is to be read and stored into `target`
    /// (see [`Machine::store`]).
    ReadLine { target: Operand },
    /// Floating-point arithmetic or comparison on the two bit patterns; the
    /// result is to be stored into `output` (see [`Machine::store`]).
    FloatOperation { op: Operator, left: u64, right: u64, output: Operand },
}

/// The mathematical model of a [`StepEvent`].
pub enum Event {
    Continue,
    Print(Value, bool),
    ReadLine(Operand),
    FloatOperation(Operator, u64, u64, Operand),
}

impl View for StepEvent {
    type V = Event;

    open spec fn view(&self) -> Event {
        match self {
            StepEvent::Continue => Event::Continue,
            StepEvent::Print { value, newline } => Event::Print(value@, *newline),
            StepEvent::ReadLine { target } => Event::ReadLine(*target),
            StepEvent::FloatOperation { op, left, right, output } => Event::FloatOperation(
                *op,
                *left,
                *right,
                *output,
            ),
        }
    }
}

// ---------------------------------------------------------------------------
// Copies with a contract.

impl Variable {
    /// A copy of the value.
    pub fn duplicate(&self) -> (r: Variable)
        ensures
            r@ == self@,
    {
        match self {
            Variable::Bool(b) => Variable::Bool(*b),
            Variable::Unsigned(x) => Variable::Unsigned(*x),
            Variable::Signed(x) => Variable::Signed(*x),
            Variable::Float(x) => Variable::Float(*x),
            Variable::Pointer(x) => Variable::Pointer(*x),
            Variable::String(s) => Variable::String(s.clone()),
        }
    }
}

impl Operand {
    /// A copy of the operand.
    pub fn duplicate(&self) -> (r: Operand)
        ensures
            r == *self,
        decreases self,
    {
        match self {
            Operand::StackVariable { v } => Operand::StackVariable { v: *v },
            Operand::FieldAccess { v, of } => Operand::FieldAccess { v: *v, of: *of },
            Operand::ArrayAccess { v, of } => {
                let inner = (**of).duplicate();
                Operand::ArrayAccess { v: *v, of: Box::new(inner) }
            },
            Operand::ConstantUnsigned(x) => Operand::ConstantUnsigned(*x),
            Operand::ConstantSigned(x) => Operand::ConstantSigned(*x),
            Operand::ConstantFloat(x) => Operand::ConstantFloat(*x),
            Operand::ConstantString(s) => Operand::ConstantString(s.clone()),
            Operand::NullPtr => Operand::NullPtr,
        }
    }
}

fn duplicate_target(o: &Option<Operand>) -> (r: Option<Operand>)
    ensures
        r == *o,
{
    match o {
        Some(x) => Some(x.duplicate()),
        None => None,
    }
}


// ---------------------------------------------------------------------------
// Reading and writing operands.

/// The index that a value denotes when it is used to index an array.
pub open spec fn index_value(x: Value) -> Option<int> {
    match x {
        Value::Signed(i) => Some(i as int),
        Value::Unsigned(u) => Some(u as int),
        _ => None,
    }
}

/// What reading `op` gives, while the heap slots in `held` are locked by the
/// reader itself (locking one of them again does not return).
pub open spec fn read_spec(
    op: Operand,
    heap: Seq<Option<HeapModel>>,
    stack: Seq<Value>,
    held: Set<usize>,
) -> Eval<Value>
    decreases op,
{
    match op {
        Operand::StackVariable { v } => if v < stack.len() {
            Eval::Done(stack[v as int])
        } else {
            Eval::Stuck
        },
        Operand::FieldAccess { v, of } => if v >= heap.len() || held.contains(v) {
            Eval::Stuck
        } else {
            match heap[v as int] {
                Some(h) => if of < h.fields.len() {
                    Eval::Done(h.fields[of as int])
                } else {
                    Eval::Stuck
                },
                None => Eval::Fail(MachineError::MissingHeapObject),
            }
        },
        Operand::ArrayAccess { v, of } => if v >= heap.len() || held.contains(v) {
            Eval::Stuck
        } else {
            match heap[v as int] {
                Some(h) => match read_spec(*of, heap, stack, held.insert(v)) {
                    Eval::Done(x) => match index_value(x) {
                        Some(i) => if 0 <= i < h.fields.len() {
                            Eval::Done(h.fields[i])
                        } else {
                            Eval::Stuck
                        },
                        None => Eval::Fail(MachineError::InvalidIndex),
                    },
                    Eval::Fail(e) => Eval::Fail(e),
                    Eval::Stuck => Eval::Stuck,
                },
                None => Eval::Fail(MachineError::MissingHeapObject),
            }
        },
        Operand::ConstantUnsigned(x) => Eval::Done(Value::Unsigned(x)),
        Operand::ConstantSigned(x) => Eval::Done(Value::Signed(x)),
        Operand::ConstantFloat(x) => Eval::Done(Value::Float(x)),
        Operand::ConstantString(s) => Eval::Done(Value::Str(s@)),
        Operand::NullPtr => Eval::Done(Value::Pointer(0)),
    }
}

/// `r` is what an evaluation that gives `e` returns (when `e` is not `Stuck`).
pub open spec fn returns_value(r: Result<Variable, MachineError>, e: Eval<Value>) -> bool {
    match e {
        Eval::Done(x) => r is Ok && r->Ok_0@ == x,
        Eval::Fail(err) => r == Err::<Variable, MachineError>(err),
        Eval::Stuck => true,
    }
}

/// Converts an index value to a position in `len` elements, where the
/// conversion succeeds.
fn index_position(x: &Variable, len: usize) -> (r: Option<usize>)
    ensures
        match index_value(x@) {
            Some(i) => if 0 <= i < len {
                r == Some(i as usize)
            } else {
                r is None
            },
            None => r is None,
        },
{
    match x {
        Variable::Signed(i) => if 0 <= *i && (*i as u64) < (len as u64) {
            Some(*i as usize)
        } else {
            None
        },
        Variable::Unsigned(u) => if *u < (len as u64) {
            Some(*u as usize)
        } else {
            None
        },
        _ => None,
    }
}

impl Operand {
    spec fn readable(&self, heap: &Vec<Option<HeapValue>>, stack: &Vec<Variable>, held: Set<usize>) -> bool {
        !(read_spec(*self, heap_model(heap@), values_of(stack@), held) is Stuck)
    }

    fn read_holding(
        &self,
        heap: &Vec<Option<HeapValue>>,
        stack: &Vec<Variable>,
        Ghost(held): Ghost<Set<usize>>,
    ) -> (r: Result<Variable, MachineError>)
        requires
            self.readable(heap, stack, held),
        ensures
            returns_value(r, read_spec(*self, heap_model(heap@), values_of(stack@), held)),
        decreases self,
    {
        match self {
            Operand::StackVariable { v } => {
                if *v >= stack.len() {
                    return Err(MachineError::InvalidIndex);
                }
                Ok(stack[*v].duplicate())
            },
            Operand::FieldAccess { v, of } => {
                if *v >= heap.len() {
                    return Err(MachineError::InvalidIndex);
                }
                match &heap[*v] {
                    Some(h) => {
                        if *of >= h.fields.len() {
                            return Err(MachineError::InvalidIndex);
                        }
                        Ok(h.fields[*of].duplicate())
                    },
                    None => Err(MachineError::MissingHeapObject),
                }
            },
            Operand::ArrayAccess { v, of } => {
                if *v >= heap.len() {
                    return Err(MachineError::InvalidIndex);
                }
                match &heap[*v] {
                    Some(h) => {
                        let idx = (**of).read_holding(heap, stack, Ghost(held.insert(*v)))?;
                        match index_position(&idx, h.fields.len()) {
                            Some(i) => Ok(h.fields[i].duplicate()),
                            None => Err(MachineError::InvalidIndex),
                        }
                    },
                    None => Err(MachineError::MissingHeapObject),
                }
            },
            Operand::ConstantUnsigned(x) => Ok(Variable::Unsigned(*x)),
            Operand::ConstantSigned(x) => Ok(Variable::Signed(*x)),
            Operand::ConstantFloat(x) => Ok(Variable::Float(*x)),
            Operand::ConstantString(s) => Ok(Variable::String(s.clone())),
            Operand::NullPtr => Ok(Variable::Pointer(0)),
        }
    }

    /// Reads the operand from the heap and the current stack frame.
    pub fn read(&self, heap: &Vec<Option<HeapValue>>, stack: &Vec<Variable>) -> (r: Result<
        Variable,
        MachineError,
    >)
        requires
            !(read_spec(*self, heap_model(heap@), values_of(stack@), Set::empty()) is Stuck),
        ensures
            returns_value(r, read_spec(*self, heap_model(heap@), values_of(stack@), Set::empty())),
    {
        self.read_holding(heap, stack, Ghost(Set::empty()))
    }
}


/// The heap and stack after writing `x` to `op`.
pub open spec fn write_spec(
    op: Operand,
    x: Value,
    heap: Seq<Option<HeapModel>>,
    stack: Seq<Value>,
) -> Eval<(Seq<Option<HeapModel>>, Seq<Value>)> {
    match op {
        Operand::StackVariable { v } => if v < stack.len() {
            Eval::Done((heap, stack.update(v as int, x)))
        } else {
            Eval::Stuck
        },
        Operand::FieldAccess { v, of } => if v >= heap.len() {
            Eval::Stuck
        } else {
            match heap[v as int] {
                Some(h) => if of < h.fields.len() {
                    Eval::Done((heap.update(v as int, Some(set_field(h, of as int, x))), stack))
                } else {
                    Eval::Stuck
                },
                None => Eval::Fail(MachineError::MissingHeapObject),
            }
        },
        Operand::ArrayAccess { v, of } => if v >= heap.len() {
            Eval::Stuck
        } else {
            match heap[v as int] {
                Some(h) => match read_spec(*of, heap, stack, set![v]) {
                    Eval::Done(i) => match index_value(i) {
                        Some(i) => if 0 <= i < h.fields.len() {
                            Eval::Done((heap.update(v as int, Some(set_field(h, i, x))), stack))
                        } else {
                            Eval::Stuck
                        },
                        None => Eval::Fail(MachineError::InvalidIndex),
                    },
                    Eval::Fail(e) => Eval::Fail(e),
                    Eval::Stuck => Eval::Stuck,
                },
                None => Eval::Fail(MachineError::MissingHeapObject),
            }
        },
        Operand::ConstantUnsigned(_) => Eval::Fail(MachineError::WriteToConstant),
        Operand::ConstantSigned(_) => Eval::Fail(MachineError::WriteToConstant),
        Operand::ConstantFloat(_) => Eval::Fail(MachineError::WriteToConstant),
        Operand::ConstantString(_) => Eval::Fail(MachineError::WriteToConstant),
        Operand::NullPtr => Eval::Fail(MachineError::WriteToNull),
    }
}

/// The object `h` with field `i` replaced by `x`.
pub open spec fn set_field(h: HeapModel, i: int, x: Value) -> HeapModel {
    HeapModel { fields: h.fields.update(i, x), ..h }
}

/// `heap` and `stack` are what writing gives, when `e` is not `Stuck`; a
/// refused write changes nothing.
pub open spec fn writes_as(
    r: Result<(), MachineError>,
    e: Eval<(Seq<Option<HeapModel>>, Seq<Value>)>,
    old_heap: Seq<Option<HeapValue>>,
    old_stack: Seq<Variable>,
    heap: Seq<Option<HeapValue>>,
    stack: Seq<Variable>,
) -> bool {
    match e {
        Eval::Done((h, s)) => r is Ok && heap_model(heap) == h && values_of(stack) == s,
        Eval::Fail(err) => r == Err::<(), MachineError>(err) && heap == old_heap && stack
            == old_stack,
        Eval::Stuck => true,
    }
}

proof fn lemma_set_field(heap: Seq<Option<HeapValue>>, v: int, hv: HeapValue, old_hv: HeapValue, i: int, x: Value)
    requires
        0 <= v < heap.len(),
        heap[v] == Some(old_hv),
        0 <= i < old_hv.fields@.len(),
        hv.fields@ == old_hv.fields@.update(i, hv.fields@[i]),
        hv.fields@[i]@ == x,
        hv.field_names == old_hv.field_names,
        hv.gc_is_reachable == old_hv.gc_is_reachable,
        hv.is_array == old_hv.is_array,
    ensures
        heap_model(heap.update(v, Some(hv))) == heap_model(heap).update(v, Some(set_field(old_hv@, i, x))),
{
    assert(values_of(hv.fields@) =~= values_of(old_hv.fields@).update(i, x));
    assert(heap_model(heap.update(v, Some(hv))) =~= heap_model(heap).update(v, Some(set_field(old_hv@, i, x))));
}

proof fn lemma_set_stack(stack: Seq<Variable>, v: int, x: Variable)
    requires
        0 <= v < stack.len(),
    ensures
        values_of(stack.update(v, x)) == values_of(stack).update(v, x@),
{
    assert(values_of(stack.update(v, x)) =~= values_of(stack).update(v, x@));
}

impl Operand {
    /// Writes `value` to the place that the operand names.
    pub fn write(
        &self,
        value: Variable,
        heap: &mut Vec<Option<HeapValue>>,
        stack: &mut Vec<Variable>,
    ) -> (r: Result<(), MachineError>)
        requires
            !(write_spec(*self, value@, heap_model(old(heap)@), values_of(old(stack)@)) is Stuck),
        ensures
            writes_as(
                r,
                write_spec(*self, value@, heap_model(old(heap)@), values_of(old(stack)@)),
                old(heap)@,
                old(stack)@,
                final(heap)@,
                final(stack)@,
            ),
    {
        match self {
            Operand::StackVariable { v } => {
                if *v >= stack.len() {
                    return Err(MachineError::InvalidIndex);
                }
                proof {
                    lemma_set_stack(stack@, *v as int, value);
                }
                stack.set(*v, value);
                Ok(())
            },
            Operand::FieldAccess { v, of } => {
                if *v >= heap.len() {
                    return Err(MachineError::InvalidIndex);
                }
                let pos = *of;
                Self::set_heap_field(heap, *v, pos, value)
            },
            Operand::ArrayAccess { v, of } => {
                if *v >= heap.len() {
                    return Err(MachineError::InvalidIndex);
                }
                let len = match &heap[*v] {
                    Some(h) => h.fields.len(),
                    None => {
                        return Err(MachineError::MissingHeapObject);
                    },
                };
                let ghost held = Set::<usize>::empty().insert(*v);
                proof {
                    assert(set![*v] =~= held);
                }
                let idx = (**of).read_holding(heap, stack, Ghost(held))?;
                match index_position(&idx, len) {
                    Some(i) => Self::set_heap_field(heap, *v, i, value),
                    None => Err(MachineError::InvalidIndex),
                }
            },
            Operand::ConstantUnsigned(_) => Err(MachineError::WriteToConstant),
            Operand::ConstantSigned(_) => Err(MachineError::WriteToConstant),
            Operand::ConstantFloat(_) => Err(MachineError::WriteToConstant),
            Operand::ConstantString(_) => Err(MachineError::WriteToConstant),
            Operand::NullPtr => Err(MachineError::WriteToNull),
        }
    }

    fn set_heap_field(heap: &mut Vec<Option<HeapValue>>, v: usize, i: usize, value: Variable) -> (r: Result<
        (),
        MachineError,
    >)
        requires
            v < old(heap)@.len(),
            old(heap)@[v as int] is Some ==> i < old(heap)@[v as int]->Some_0.fields@.len(),
        ensures
            match old(heap)@[v as int] {
                Some(h) => r is Ok && heap_model(final(heap)@) == heap_model(old(heap)@).update(
                    v as int,
                    Some(set_field(h@, i as int, value@)),
                ),
                None => r == Err::<(), MachineError>(MachineError::MissingHeapObject) && final(heap)@
                    == old(heap)@,
            },
    {
        let ghost before = heap@;
        match &mut heap[v] {
            Some(h) => {
                let ghost old_h = *h;
                h.fields.set(i, value);
                proof {
                    lemma_set_field(before, v as int, *h, old_h, i as int, value@);
                }
                Ok(())
            },
            None => Err(MachineError::MissingHeapObject),
        }
    }
}


// ---------------------------------------------------------------------------
// Operators.

/// The three answers of a comparison.
#[derive(Clone, Copy, Debug, PartialEq, Eq, Structural)]
pub enum Order {
    Less,
    Equal,
    Greater,
}

/// Lexicographic order of two strings by code point (for UTF-8 text this is
/// the order of their bytes).
pub open spec fn str_order(a: Seq<char>, b: Seq<char>) -> Order
    decreases a.len(),
{
    if a.len() == 0 {
        if b.len() == 0 {
            Order::Equal
        } else {
            Order::Less
        }
    } else if b.len() == 0 {
        Order::Greater
    } else if a[0] < b[0] {
        Order::Less
    } else if a[0] > b[0] {
        Order::Greater
    } else {
        str_order(a.drop_first(), b.drop_first())
    }
}

/// Compares two strings lexicographically.
pub fn compare_strings(a: &String, b: &String) -> (r: Order)
    ensures
        r == str_order(a@, b@),
{
    let sa = a.as_str();
    let sb = b.as_str();
    let la = sa.unicode_len();
    let lb = sb.unicode_len();
    let mut i: usize = 0;
    proof {
        assert(a@.subrange(0, la as int) =~= a@);
        assert(b@.subrange(0, lb as int) =~= b@);
    }
    while i < la && i < lb
        invariant
            sa@ == a@,
            sb@ == b@,
            la == a@.len(),
            lb == b@.len(),
            i <= la,
            i <= lb,
            str_order(a@, b@) == str_order(a@.subrange(i as int, la as int), b@.subrange(i as int, lb as int)),
        decreases la - i,
    {
        let ca = sa.get_char(i);
        let cb = sb.get_char(i);
        if ca < cb {
            return Order::Less;
        }
        if ca > cb {
            return Order::Greater;
        }
        proof {
            let ra = a@.subrange(i as int, la as int);
            let rb = b@.subrange(i as int, lb as int);
            assert(ra.drop_first() =~= a@.subrange(i + 1, la as int));
            assert(rb.drop_first() =~= b@.subrange(i + 1, lb as int));
        }
        i = i + 1;
    }
    if i < la {
        Order::Greater
    } else if i < lb {
        Order::Less
    } else {
        Order::Equal
    }
}

/// Division rounding toward zero.
pub open spec fn trunc_div(a: int, b: int) -> int {
    let q: int = (vstd::math::abs(a) / vstd::math::abs(b)) as int;
    if (a < 0) == (b < 0) {
        q
    } else {
        -q
    }
}

/// The remainder of division rounding toward zero: it takes the sign of `a`.
pub open spec fn trunc_rem(a: int, b: int) -> int {
    let m: int = (vstd::math::abs(a) % vstd::math::abs(b)) as int;
    if a < 0 {
        -m
    } else {
        m
    }
}

/// What a binary operator gives on two values.
pub enum Outcome {
    Value(Value),
    /// Floating-point arithmetic or comparison, done by the driver.
    FloatOperation,
    Fail(MachineError),
    /// The operation panics (division by zero).
    Stuck,
}

pub open spec fn bool_op(op: Operator, a: bool, b: bool) -> Outcome {
    match op {
        Operator::And => Outcome::Value(Value::Bool(a && b)),
        Operator::Or => Outcome::Value(Value::Bool(a || b)),
        Operator::Xor => Outcome::Value(Value::Bool(a != b)),
        _ => Outcome::Fail(MachineError::IncompatibleOperation),
    }
}

pub open spec fn unsigned_op(op: Operator, a: u64, b: u64) -> Outcome {
    match op {
        Operator::Add => Outcome::Value(Value::Unsigned(vstd::wrapping::u64_specs::wrapping_add(a, b))),
        Operator::Sub => Outcome::Value(Value::Unsigned(vstd::wrapping::u64_specs::wrapping_sub(a, b))),
        Operator::Mul => Outcome::Value(Value::Unsigned(vstd::wrapping::u64_specs::wrapping_mul(a, b))),
        Operator::Div => if b == 0 {
            Outcome::Stuck
        } else {
            Outcome::Value(Value::Unsigned((a / b) as u64))
        },
        Operator::Rem => if b == 0 {
            Outcome::Stuck
        } else {
            Outcome::Value(Value::Unsigned((a % b) as u64))
        },
        Operator::CmpGe => Outcome::Value(Value::Bool(a >= b)),
        Operator::CmpNe => Outcome::Value(Value::Bool(a != b)),
        Operator::CmpLe => Outcome::Value(Value::Bool(a <= b)),
        Operator::CmpE => Outcome::Value(Value::Bool(a == b)),
        Operator::CmpG => Outcome::Value(Value::Bool(a > b)),
        Operator::CmpL => Outcome::Value(Value::Bool(a < b)),
        Operator::And => Outcome::Value(Value::Unsigned(a & b)),
        Operator::Or => Outcome::Value(Value::Unsigned(a | b)),
        Operator::Xor => Outcome::Value(Value::Unsigned(a ^ b)),
    }
}

pub open spec fn signed_op(op: Operator, a: i64, b: i64) -> Outcome {
    match op {
        Operator::Add => Outcome::Value(Value::Signed(vstd::wrapping::i64_specs::wrapping_add(a, b))),
        Operator::Sub => Outcome::Value(Value::Signed(vstd::wrapping::i64_specs::wrapping_sub(a, b))),
        Operator::Mul => Outcome::Value(Value::Signed(vstd::wrapping::i64_specs::wrapping_mul(a, b))),
        Operator::Div => if b == 0 {
            Outcome::Stuck
        } else if a == i64::MIN && b == -1 {
            Outcome::Value(Value::Signed(i64::MIN))
        } else {
            Outcome::Value(Value::Signed(trunc_div(a as int, b as int) as i64))
        },
        Operator::Rem => if b == 0 {
            Outcome::Stuck
        } else if a == i64::MIN && b == -1 {
            Outcome::Value(Value::Signed(0))
        } else {
            Outcome::Value(Value::Signed(trunc_rem(a as int, b as int) as i64))
        },
        Operator::CmpGe => Outcome::Value(Value::Bool(a >= b)),
        Operator::CmpNe => Outcome::Value(Value::Bool(a != b)),
        Operator::CmpLe => Outcome::Value(Value::Bool(a <= b)),
        Operator::CmpE => Outcome::Value(Value::Bool(a == b)),
        Operator::CmpG => Outcome::Value(Value::Bool(a > b)),
        Operator::CmpL => Outcome::Value(Value::Bool(a < b)),
        Operator::And => Outcome::Value(Value::Signed(a & b)),
        Operator::Or => Outcome::Value(Value::Signed(a | b)),
        Operator::Xor => Outcome::Value(Value::Signed(a ^ b)),
    }
}

pub open spec fn float_op(op: Operator, a: u64, b: u64) -> Outcome {
    match op {
        Operator::And => Outcome::Value(Value::Float(a & b)),
        Operator::Or => Outcome::Value(Value::Float(a | b)),
        Operator::Xor => Outcome::Value(Value::Float(a ^ b)),
        _ => Outcome::FloatOperation,
    }
}

pub open spec fn pointer_op(op: Operator, a: usize, b: usize) -> Outcome {
    match op {
        Operator::And => Outcome::Value(Value::Bool(a != 0 && b != 0)),
        Operator::Or => Outcome::Value(Value::Bool(a != 0 || b != 0)),
        Operator::Xor => Outcome::Value(Value::Bool((a != 0) != (b != 0))),
        Operator::CmpNe => Outcome::Value(Value::Bool(a != b)),
        Operator::CmpE => Outcome::Value(Value::Bool(a == b)),
        _ => Outcome::Fail(MachineError::IncompatibleOperation),
    }
}

pub open spec fn string_op(op: Operator, a: Seq<char>, b: Seq<char>) -> Outcome {
    match op {
        Operator::Add => Outcome::Value(Value::Str(a + b)),
        Operator::CmpGe => Outcome::Value(Value::Bool(str_order(a, b) != Order::Less)),
        Operator::CmpNe => Outcome::Value(Value::Bool(a != b)),
        Operator::CmpLe => Outcome::Value(Value::Bool(str_order(a, b) != Order::Greater)),
        Operator::CmpE => Outcome::Value(Value::Bool(a == b)),
        Operator::CmpG => Outcome::Value(Value::Bool(str_order(a, b) == Order::Greater)),
        Operator::CmpL => Outcome::Value(Value::Bool(str_order(a, b) == Order::Less)),
        _ => Outcome::Fail(MachineError::IncompatibleOperation),
    }
}

/// What `op` gives on `l` and `r`: both must have the same type.
pub open spec fn binary_spec(op: Operator, l: Value, r: Value) -> Outcome {
    match l {
        Value::Bool(a) => match r {
            Value::Bool(b) => bool_op(op, a, b),
            _ => Outcome::Fail(MachineError::IncompatibleTypes),
        },
        Value::Unsigned(a) => match r {
            Value::Unsigned(b) => unsigned_op(op, a, b),
            _ => Outcome::Fail(MachineError::IncompatibleTypes),
        },
        Value::Signed(a) => match r {
            Value::Signed(b) => signed_op(op, a, b),
            _ => Outcome::Fail(MachineError::IncompatibleTypes),
        },
        Value::Float(a) => match r {
            Value::Float(b) => float_op(op, a, b),
            _ => Outcome::Fail(MachineError::IncompatibleTypes),
        },
        Value::Pointer(a) => match r {
            Value::Pointer(b) => pointer_op(op, a, b),
            _ => Outcome::Fail(MachineError::IncompatibleTypes),
        },
        Value::Str(a) => match r {
            Value::Str(b) => string_op(op, a, b),
            _ => Outcome::Fail(MachineError::IncompatibleTypes),
        },
    }
}

/// `res` is what an operation with outcome `o` returns (`Ok(None)` for a
/// floating-point operation), when `o` is not `Stuck`.
pub open spec fn returns_outcome(res: Result<Option<Variable>, MachineError>, o: Outcome) -> bool {
    match o {
        Outcome::Value(x) => res is Ok && res->Ok_0 is Some && res->Ok_0->Some_0@ == x,
        Outcome::FloatOperation => res == Ok::<Option<Variable>, MachineError>(None),
        Outcome::Fail(e) => res == Err::<Option<Variable>, MachineError>(e),
        Outcome::Stuck => true,
    }
}

proof fn lemma_trunc_div_fits(a: int, b: int)
    requires
        b != 0,
        i64::MIN <= a <= i64::MAX,
        !(a == i64::MIN && b == -1),
    ensures
        i64::MIN <= trunc_div(a, b) <= i64::MAX,
        a == 0 ==> trunc_div(a, b) == 0,
        a > 0 && b > 0 ==> trunc_div(a, b) == a / b,
        a < 0 && b < 0 ==> trunc_div(a, b) == (a * -1) / (b * -1),
        a < 0 && b > 0 ==> trunc_div(a, b) == ((a * -1) / b) * -1,
        a > 0 && b < 0 ==> trunc_div(a, b) == (a / (b * -1)) * -1,
{
    let x = vstd::math::abs(a) as int;
    let y = vstd::math::abs(b) as int;
    assert(0 <= x / y <= x) by (nonlinear_arith)
        requires
            x >= 0,
            y >= 1,
    ;
    if b == -1 || b == 1 {
        assert(y == 1);
        assert(x / y == x) by (nonlinear_arith)
            requires
                y == 1,
        ;
    } else {
        assert(x / y <= x / 2) by (nonlinear_arith)
            requires
                x >= 0,
                y >= 2,
        ;
    }
}

proof fn lemma_trunc_rem_fits(a: int, b: int)
    requires
        b != 0,
        i64::MIN <= a <= i64::MAX,
    ensures
        i64::MIN <= trunc_rem(a, b) <= i64::MAX,
        a == 0 ==> trunc_rem(a, b) == 0,
        a > 0 && b > 0 ==> trunc_rem(a, b) == a % b,
        a < 0 && b < 0 ==> trunc_rem(a, b) == ((a * -1) % (b * -1)) * -1,
        a < 0 && b > 0 ==> trunc_rem(a, b) == ((a * -1) % b) * -1,
        a > 0 && b < 0 ==> trunc_rem(a, b) == a % (b * -1),
{
    let x = vstd::math::abs(a) as int;
    let y = vstd::math::abs(b) as int;
    assert(0 <= x % y <= x) by (nonlinear_arith)
        requires
            x >= 0,
            y >= 1,
    ;
}

fn signed_div(a: i64, b: i64) -> (r: i64)
    requires
        b != 0,
    ensures
        r == (if a == i64::MIN && b == -1 { i64::MIN } else { trunc_div(a as int, b as int) as i64 }),
{
    if a == i64::MIN && b == -1 {
        return i64::MIN;
    }
    proof {
        lemma_trunc_div_fits(a as int, b as int);
    }
    match a.checked_div(b) {
        Some(q) => q,
        None => 0,
    }
}

fn signed_rem(a: i64, b: i64) -> (r: i64)
    requires
        b != 0,
    ensures
        r == (if a == i64::MIN && b == -1 { 0 } else { trunc_rem(a as int, b as int) as i64 }),
{
    if a == i64::MIN && b == -1 {
        return 0;
    }
    proof {
        lemma_trunc_rem_fits(a as int, b as int);
    }
    match a.checked_rem(b) {
        Some(q) => q,
        None => 0,
    }
}

fn value(x: Variable) -> (r: Result<Option<Variable>, MachineError>)
    ensures
        r == Ok::<Option<Variable>, MachineError>(Some(x)),
{
    Ok(Some(x))
}

/// Applies a binary operator. `Ok(None)` stands for floating-point arithmetic
/// or comparison, which the machine leaves to its driver.
pub fn apply_operator(op: Operator, l: Variable, r: Variable) -> (res: Result<Option<Variable>, MachineError>)
    requires
        !(binary_spec(op, l@, r@) is Stuck),
    ensures
        returns_outcome(res, binary_spec(op, l@, r@)),
{
    match l {
        Variable::Bool(a) => match r {
            Variable::Bool(b) => match op {
                Operator::And => value(Variable::Bool(a && b)),
                Operator::Or => value(Variable::Bool(a || b)),
                Operator::Xor => value(Variable::Bool(a != b)),
                _ => Err(MachineError::IncompatibleOperation),
            },
            _ => Err(MachineError::IncompatibleTypes),
        },
        Variable::Unsigned(a) => match r {
            Variable::Unsigned(b) => match op {
                Operator::Add => value(Variable::Unsigned(a.wrapping_add(b))),
                Operator::Sub => value(Variable::Unsigned(a.wrapping_sub(b))),
                Operator::Mul => value(Variable::Unsigned(a.wrapping_mul(b))),
                Operator::Div => value(Variable::Unsigned(a / b)),
                Operator::Rem => value(Variable::Unsigned(a % b)),
                Operator::CmpGe => value(Variable::Bool(a >= b)),
                Operator::CmpNe => value(Variable::Bool(a != b)),
                Operator::CmpLe => value(Variable::Bool(a <= b)),
                Operator::CmpE => value(Variable::Bool(a == b)),
                Operator::CmpG => value(Variable::Bool(a > b)),
                Operator::CmpL => value(Variable::Bool(a < b)),
                Operator::And => value(Variable::Unsigned(a & b)),
                Operator::Or => value(Variable::Unsigned(a | b)),
                Operator::Xor => value(Variable::Unsigned(a ^ b)),
            },
            _ => Err(MachineError::IncompatibleTypes),
        },
        Variable::Signed(a) => match r {
            Variable::Signed(b) => match op {
                Operator::Add => value(Variable::Signed(a.wrapping_add(b))),
                Operator::Sub => value(Variable::Signed(a.wrapping_sub(b))),
                Operator::Mul => value(Variable::Signed(a.wrapping_mul(b))),
                Operator::Div => value(Variable::Signed(signed_div(a, b))),
                Operator::Rem => value(Variable::Signed(signed_rem(a, b))),
                Operator::CmpGe => value(Variable::Bool(a >= b)),
                Operator::CmpNe => value(Variable::Bool(a != b)),
                Operator::CmpLe => value(Variable::Bool(a <= b)),
                Operator::CmpE => value(Variable::Bool(a == b)),
                Operator::CmpG => value(Variable::Bool(a > b)),
                Operator::CmpL => value(Variable::Bool(a < b)),
                Operator::And => value(Variable::Signed(a & b)),
                Operator::Or => value(Variable::Signed(a | b)),
                Operator::Xor => value(Variable::Signed(a ^ b)),
            },
            _ => Err(MachineError::IncompatibleTypes),
        },
        Variable::Float(a) => match r {
            Variable::Float(b) => match op {
                Operator::And => value(Variable::Float(a & b)),
                Operator::Or => value(Variable::Float(a | b)),
                Operator::Xor => value(Variable::Float(a ^ b)),
                _ => Ok(None),
            },
            _ => Err(MachineError::IncompatibleTypes),
        },
        Variable::Pointer(a) => match r {
            Variable::Pointer(b) => match op {
                Operator::And => value(Variable::Bool(a != 0 && b != 0)),
                Operator::Or => value(Variable::Bool(a != 0 || b != 0)),
                Operator::Xor => value(Variable::Bool((a != 0) != (b != 0))),
                Operator::CmpNe => value(Variable::Bool(a != b)),
                Operator::CmpE => value(Variable::Bool(a == b)),
                _ => Err(MachineError::IncompatibleOperation),
            },
            _ => Err(MachineError::IncompatibleTypes),
        },
        Variable::String(a) => match r {
            Variable::String(b) => match op {
                Operator::Add => value(Variable::String(a.concat(b.as_str()))),
                Operator::CmpGe => value(Variable::Bool(compare_strings(&a, &b) != Order::Less)),
                Operator::CmpNe => value(Variable::Bool(!(a == b))),
                Operator::CmpLe => value(Variable::Bool(compare_strings(&a, &b) != Order::Greater)),
                Operator::CmpE => value(Variable::Bool(a == b)),
                Operator::CmpG => value(Variable::Bool(compare_strings(&a, &b) == Order::Greater)),
                Operator::CmpL => value(Variable::Bool(compare_strings(&a, &b) == Order::Less)),
                _ => Err(MachineError::IncompatibleOperation),
            },
            _ => Err(MachineError::IncompatibleTypes),
        },
    }
}

/// What `Not` gives on a value.
pub open spec fn not_spec(x: Value) -> Result<Value, MachineError> {
    match x {
        Value::Bool(b) => Ok(Value::Bool(!b)),
        Value::Unsigned(u) => Ok(Value::Unsigned(!u)),
        Value::Signed(i) => Ok(Value::Signed(!i)),
        Value::Float(f) => Ok(Value::Float(!f)),
        Value::Pointer(p) => Ok(Value::Bool(p == 0)),
        Value::Str(_) => Err(MachineError::NotOfString),
    }
}

/// Applies `Not` to a value.
pub fn apply_not(x: Variable) -> (r: Result<Variable, MachineError>)
    ensures
        match not_spec(x@) {
            Ok(v) => r is Ok && r->Ok_0@ == v,
            Err(e) => r == Err::<Variable, MachineError>(e),
        },
{
    match x {
        Variable::Bool(b) => Ok(Variable::Bool(!b)),
        Variable::Unsigned(u) => Ok(Variable::Unsigned(!u)),
        Variable::Signed(i) => Ok(Variable::Signed(!i)),
        Variable::Float(f) => Ok(Variable::Float(!f)),
        Variable::Pointer(p) => Ok(Variable::Bool(p == 0)),
        Variable::String(_) => Err(MachineError::NotOfString),
    }
}

/// Whether `JmpIfNot` jumps on the value: on a boolean when it is false, on
/// any other value when it is not zero (or empty).  A float is zero when all
/// bits but the sign are clear (so a NaN is not zero).
pub open spec fn jump_condition(x: Value) -> bool {
    match x {
        Value::Bool(b) => !b,
        Value::Unsigned(u) => u != 0,
        Value::Signed(i) => i != 0,
        Value::Float(f) => f & 0x7fff_ffff_ffff_ffffu64 != 0,
        Value::Pointer(p) => p != 0,
        Value::Str(s) => s.len() != 0,
    }
}

/// Computes [`jump_condition`].
pub fn jumps_on(x: &Variable) -> (r: bool)
    ensures
        r == jump_condition(x@),
{
    match x {
        Variable::Bool(b) => !*b,
        Variable::Unsigned(u) => *u != 0,
        Variable::Signed(i) => *i != 0,
        Variable::Float(f) => *f & 0x7fff_ffff_ffff_ffffu64 != 0,
        Variable::Pointer(p) => *p != 0,
        Variable::String(s) => !s.as_str().is_empty(),
    }
}


// ---------------------------------------------------------------------------
// Stepping the machine.

/// The mathematical model of a [`Machine`].
#[verifier::ext_equal]
pub struct MachineModel {
    pub heap: Seq<Option<HeapModel>>,
    pub instructions: Seq<Instruction>,
    pub ip: usize,
    pub frame: Seq<Value>,
    pub previous: Seq<(usize, Seq<Value>, Option<Operand>)>,
    pub halted: bool,
}

pub open spec fn frames_of(s: Seq<(usize, Vec<Variable>, Option<Operand>)>) -> Seq<(usize, Seq<Value>, Option<Operand>)> {
    s.map_values(|f: (usize, Vec<Variable>, Option<Operand>)| (f.0, values_of(f.1@), f.2))
}

impl View for Machine {
    type V = MachineModel;

    open spec fn view(&self) -> MachineModel {
        MachineModel {
            heap: heap_model(self.data.heap@),
            instructions: self.data.instructions@,
            ip: self.instruction_pointer,
            frame: values_of(self.current_frame@),
            previous: frames_of(self.previous_frames@),
            halted: self.halted,
        }
    }
}

/// The state after a step and what the step returned, or `Stuck` where the
/// step panics or does not return.
pub enum Step {
    Done(MachineModel, Result<Event, MachineError>),
    Stuck,
}

/// The state after writing `x` to `target`.
pub open spec fn after_write(m: MachineModel, target: Operand, x: Value) -> Step {
    match write_spec(target, x, m.heap, m.frame) {
        Eval::Done((h, f)) => Step::Done(MachineModel { heap: h, frame: f, ..m }, Ok(Event::Continue)),
        Eval::Fail(e) => Step::Done(m, Err(e)),
        Eval::Stuck => Step::Stuck,
    }
}

pub open spec fn float_bits(x: Value) -> u64 {
    match x {
        Value::Float(f) => f,
        _ => 0,
    }
}

/// The frame that `BeginStackFrame` leaves: `n` null pointers appended.
pub open spec fn grown_frame(frame: Seq<Value>, n: nat) -> Seq<Value> {
    frame + Seq::new(n, |i: int| Value::Pointer(0))
}

/// What one step does to a machine.
pub open spec fn step_spec(m: MachineModel) -> Step {
    if m.ip >= m.instructions.len() {
        Step::Stuck
    } else {
        let m1 = MachineModel { ip: (m.ip + 1) as usize, ..m };
        match m.instructions[m.ip as int] {
            Instruction::Move { to, from } => match read_spec(from, m.heap, m.frame, Set::empty()) {
                Eval::Done(x) => after_write(m1, to, x),
                Eval::Fail(e) => Step::Done(m1, Err(e)),
                Eval::Stuck => Step::Stuck,
            },
            Instruction::BinaryOperator { op, left, right, output } => match read_spec(
                left,
                m.heap,
                m.frame,
                Set::empty(),
            ) {
                Eval::Done(l) => match read_spec(right, m.heap, m.frame, Set::empty()) {
                    Eval::Done(r) => match binary_spec(op, l, r) {
                        Outcome::Value(v) => after_write(m1, output, v),
                        Outcome::FloatOperation => Step::Done(
                            m1,
                            Ok(Event::FloatOperation(op, float_bits(l), float_bits(r), output)),
                        ),
                        Outcome::Fail(e) => Step::Done(m1, Err(e)),
                        Outcome::Stuck => Step::Stuck,
                    },
                    Eval::Fail(e) => Step::Done(m1, Err(e)),
                    Eval::Stuck => Step::Stuck,
                },
                Eval::Fail(e) => Step::Done(m1, Err(e)),
                Eval::Stuck => Step::Stuck,
            },
            Instruction::Not { input, output } => match read_spec(input, m.heap, m.frame, Set::empty()) {
                Eval::Done(x) => match not_spec(x) {
                    Ok(v) => after_write(m1, output, v),
                    Err(e) => Step::Done(m1, Err(e)),
                },
                Eval::Fail(e) => Step::Done(m1, Err(e)),
                Eval::Stuck => Step::Stuck,
            },
            Instruction::BeginStackFrame { variable_count } => Step::Done(
                MachineModel { frame: grown_frame(m.frame, variable_count as nat), ..m1 },
                Ok(Event::Continue),
            ),
            Instruction::Return { to_return } => if m.previous.len() == 0 {
                Step::Done(m1, Err(MachineError::ReturnFromBase))
            } else {
                let caller = m.previous.last();
                let m2 = MachineModel {
                    frame: caller.1,
                    ip: caller.0,
                    previous: m.previous.drop_last(),
                    ..m1
                };
                match caller.2 {
                    Some(y) => after_write(m2, y, to_return@),
                    None => Step::Done(m2, Ok(Event::Continue)),
                }
            },
            Instruction::Call { to_call, arguments, output } => if exists|i: int|
                0 <= i < arguments@.len() && #[trigger] read_spec(
                    arguments@[i],
                    m.heap,
                    m.frame,
                    Set::empty(),
                ) is Stuck {
                Step::Stuck
            } else {
                Step::Done(
                    MachineModel {
                        frame: Seq::empty(),
                        previous: m.previous.push((m1.ip, m.frame, output)),
                        ip: to_call,
                        ..m1
                    },
                    Ok(Event::Continue),
                )
            },
            Instruction::Jmp { to_jump_to } => Step::Done(
                MachineModel { ip: to_jump_to, ..m1 },
                Ok(Event::Continue),
            ),
            Instruction::JmpIfNot { to_jump_to, condition } => match read_spec(
                condition,
                m.heap,
                m.frame,
                Set::empty(),
            ) {
                Eval::Done(x) => Step::Done(
                    if jump_condition(x) {
                        MachineModel { ip: to_jump_to, ..m1 }
                    } else {
                        m1
                    },
                    Ok(Event::Continue),
                ),
                Eval::Fail(e) => Step::Done(m1, Err(e)),
                Eval::Stuck => Step::Stuck,
            },
            Instruction::Halt => Step::Done(MachineModel { halted: true, ..m1 }, Ok(Event::Continue)),
            Instruction::Write { to_write } => match read_spec(to_write, m.heap, m.frame, Set::empty()) {
                Eval::Done(x) => Step::Done(m1, Ok(Event::Print(x, false))),
                Eval::Fail(e) => Step::Done(m1, Err(e)),
                Eval::Stuck => Step::Stuck,
            },
            Instruction::WriteLn { to_write } => match read_spec(to_write, m.heap, m.frame, Set::empty()) {
                Eval::Done(x) => Step::Done(m1, Ok(Event::Print(x, true))),
                Eval::Fail(e) => Step::Done(m1, Err(e)),
                Eval::Stuck => Step::Stuck,
            },
            Instruction::Read { to_write_to } => Step::Done(m1, Ok(Event::ReadLine(to_write_to))),
        }
    }
}

/// `r` is what a step with outcome `s` returns, and `m` the state it leaves.
pub open spec fn steps_as(r: Result<StepEvent, MachineError>, m: MachineModel, s: Step) -> bool {
    match s {
        Step::Done(m2, res) => m == m2 && match res {
            Ok(ev) => r is Ok && r->Ok_0@ == ev,
            Err(e) => r == Err::<StepEvent, MachineError>(e),
        },
        Step::Stuck => true,
    }
}

proof fn lemma_push_frame(s: Seq<(usize, Vec<Variable>, Option<Operand>)>, f: (usize, Vec<Variable>, Option<Operand>))
    ensures
        frames_of(s.push(f)) == frames_of(s).push((f.0, values_of(f.1@), f.2)),
{
    assert(frames_of(s.push(f)) =~= frames_of(s).push((f.0, values_of(f.1@), f.2)));
}

proof fn lemma_pop_frame(s: Seq<(usize, Vec<Variable>, Option<Operand>)>)
    requires
        s.len() > 0,
    ensures
        frames_of(s.drop_last()) == frames_of(s).drop_last(),
        frames_of(s).last() == (s.last().0, values_of(s.last().1@), s.last().2),
{
    assert(frames_of(s.drop_last()) =~= frames_of(s).drop_last());
}

fn continued(r: Result<(), MachineError>) -> (s: Result<StepEvent, MachineError>)
    ensures
        match r {
            Ok(()) => s is Ok && s->Ok_0@ == Event::Continue,
            Err(e) => s == Err::<StepEvent, MachineError>(e),
        },
{
    match r {
        Ok(()) => Ok(StepEvent::Continue),
        Err(e) => Err(e),
    }
}

impl Machine {
    /// A machine with an empty stack, 4096 empty heap slots, that starts at
    /// instruction `start`.
    pub fn new(instructions: Vec<Instruction>, start: usize) -> (m: Machine)
        ensures
            m@.instructions == instructions@,
            m@.heap == Seq::new(4096, |i: int| None::<HeapModel>),
            m@.ip == start,
            m@.frame == Seq::<Value>::empty(),
            m@.previous == Seq::<(usize, Seq<Value>, Option<Operand>)>::empty(),
            !m@.halted,
    {
        let mut heap: Vec<Option<HeapValue>> = Vec::new();
        let mut i: usize = 0;
        while i < 4096
            invariant
                i <= 4096,
                heap@.len() == i,
                forall|j: int| 0 <= j < i ==> heap@[j] is None,
            decreases 4096 - i,
        {
            heap.push(None);
            i = i + 1;
        }
        let m = Machine {
            data: ProgramData { heap, instructions },
            instruction_pointer: start,
            current_frame: Vec::new(),
            previous_frames: Vec::new(),
            halted: false,
        };
        assert(m@.heap =~= Seq::new(4096, |i: int| None::<HeapModel>));
        assert(m@.frame =~= Seq::<Value>::empty());
        assert(m@.previous =~= Seq::<(usize, Seq<Value>, Option<Operand>)>::empty());
        m
    }

    /// Writes `value` to `target`; this completes a `ReadLine` or a
    /// `FloatOperation` event.
    pub fn store(&mut self, target: &Operand, value: Variable) -> (r: Result<(), MachineError>)
        requires
            !(write_spec(*target, value@, old(self)@.heap, old(self)@.frame) is Stuck),
        ensures
            match write_spec(*target, value@, old(self)@.heap, old(self)@.frame) {
                Eval::Done((h, f)) => r is Ok && final(self)@ == MachineModel { heap: h, frame: f, ..old(self)@ },
                Eval::Fail(e) => r == Err::<(), MachineError>(e) && final(self)@ == old(self)@,
                Eval::Stuck => true,
            },
    {
        target.write(value, &mut self.data.heap, &mut self.current_frame)
    }


    /// Executes the instruction at the instruction pointer.
    pub fn step(&mut self) -> (r: Result<StepEvent, MachineError>)
        requires
            !(step_spec(old(self)@) is Stuck),
        ensures
            steps_as(r, final(self)@, step_spec(old(self)@)),
    {
        let ip = self.instruction_pointer;
        if ip >= self.data.instructions.len() {
            return Err(MachineError::ReturnFromBase);
        }
        self.instruction_pointer = ip + 1;
        let instruction = &self.data.instructions[ip];
        match instruction {
            Instruction::Move { to, from } => {
                let tmp = from.read(&self.data.heap, &self.current_frame)?;
                continued(to.write(tmp, &mut self.data.heap, &mut self.current_frame))
            },
            Instruction::BinaryOperator { op, left, right, output } => {
                let lft = left.read(&self.data.heap, &self.current_frame)?;
                let rght = right.read(&self.data.heap, &self.current_frame)?;
                let lbits = match &lft {
                    Variable::Float(b) => *b,
                    _ => 0,
                };
                let rbits = match &rght {
                    Variable::Float(b) => *b,
                    _ => 0,
                };
                match apply_operator(*op, lft, rght)? {
                    Some(out) => continued(output.write(out, &mut self.data.heap, &mut self.current_frame)),
                    None => Ok(
                        StepEvent::FloatOperation {
                            op: *op,
                            left: lbits,
                            right: rbits,
                            output: output.duplicate(),
                        },
                    ),
                }
            },
            Instruction::Not { input, output } => {
                let inp = input.read(&self.data.heap, &self.current_frame)?;
                let out = apply_not(inp)?;
                continued(output.write(out, &mut self.data.heap, &mut self.current_frame))
            },
            Instruction::BeginStackFrame { variable_count } => {
                let n = *variable_count;
                let ghost start = values_of(self.current_frame@);
                let ghost before = *self;
                let mut k: usize = 0;
                while k < n
                    invariant
                        k <= n,
                        self.data == before.data,
                        self.instruction_pointer == before.instruction_pointer,
                        self.previous_frames == before.previous_frames,
                        self.halted == before.halted,
                        values_of(self.current_frame@) == grown_frame(start, k as nat),
                    decreases n - k,
                {
                    proof {
                        let f = self.current_frame@;
                        assert(values_of(f.push(Variable::Pointer(0))) =~= values_of(f).push(Value::Pointer(0)));
                        assert(grown_frame(start, k as nat).push(Value::Pointer(0)) =~= grown_frame(
                            start,
                            (k + 1) as nat,
                        ));
                    }
                    self.current_frame.push(Variable::Pointer(0));
                    k = k + 1;
                }
                Ok(StepEvent::Continue)
            },
            Instruction::Return { to_return } => {
                let ghost prev = self.previous_frames@;
                match self.previous_frames.pop() {
                    None => Err(MachineError::ReturnFromBase),
                    Some((ptr, vals, returned_value)) => {
                        proof {
                            lemma_pop_frame(prev);
                        }
                        self.current_frame = vals;
                        self.instruction_pointer = ptr;
                        match &returned_value {
                            Some(y) => {
                                let v = to_return.duplicate();
                                continued(y.write(v, &mut self.data.heap, &mut self.current_frame))
                            },
                            None => Ok(StepEvent::Continue),
                        }
                    },
                }
            },
            Instruction::Call { to_call, arguments, output } => {
                let mut i: usize = 0;
                while i < arguments.len()
                    invariant
                        i <= arguments@.len(),
                        forall|j: int|
                            0 <= j < arguments@.len() ==> !(#[trigger] read_spec(
                                arguments@[j],
                                heap_model(self.data.heap@),
                                values_of(self.current_frame@),
                                Set::empty(),
                            ) is Stuck),
                    decreases arguments@.len() - i,
                {
                    let _ = arguments[i].read(&self.data.heap, &self.current_frame);
                    i = i + 1;
                }
                let mut stp: Vec<Variable> = Vec::new();
                std::mem::swap(&mut stp, &mut self.current_frame);
                let entry = (ip + 1, stp, duplicate_target(output));
                proof {
                    lemma_push_frame(self.previous_frames@, entry);
                    assert(values_of(self.current_frame@) =~= Seq::<Value>::empty());
                }
                self.previous_frames.push(entry);
                self.instruction_pointer = *to_call;
                Ok(StepEvent::Continue)
            },
            Instruction::Jmp { to_jump_to } => {
                self.instruction_pointer = *to_jump_to;
                Ok(StepEvent::Continue)
            },
            Instruction::JmpIfNot { to_jump_to, condition } => {
                let v = condition.read(&self.data.heap, &self.current_frame)?;
                if jumps_on(&v) {
                    self.instruction_pointer = *to_jump_to;
                }
                Ok(StepEvent::Continue)
            },
            Instruction::Halt => {
                self.halted = true;
                Ok(StepEvent::Continue)
            },
            Instruction::Read { to_write_to } => Ok(StepEvent::ReadLine { target: to_write_to.duplicate() }),
            Instruction::WriteLn { to_write } => {
                let v = to_write.read(&self.data.heap, &self.current_frame)?;
                Ok(StepEvent::Print { value: v, newline: true })
            },
            Instruction::Write { to_write } => {
                let v = to_write.read(&self.data.heap, &self.current_frame)?;
                Ok(StepEvent::Print { value: v, newline: false })
            },
        }
    }
}


// ---------------------------------------------------------------------------
// Where a step is defined.

/// The heap slots listed in `held`.
pub open spec fn held_set(held: Seq<usize>) -> Set<usize> {
    Set::new(|x: usize| held.contains(x))
}

/// `r` is the result of an evaluation that gives `e`.
pub open spec fn evaluates_as(r: Eval<Variable>, e: Eval<Value>) -> bool {
    match e {
        Eval::Done(x) => r is Done && r->Done_0@ == x,
        Eval::Fail(err) => r is Fail && r->Fail_0 == err,
        Eval::Stuck => r is Stuck,
    }
}

proof fn lemma_held_push(s: Seq<usize>, v: usize)
    ensures
        held_set(s.push(v)) == held_set(s).insert(v),
{
    assert forall|x: usize| #[trigger] held_set(s.push(v)).contains(x) == held_set(s).insert(v).contains(x) by {
        if s.contains(x) {
            let j = choose|j: int| 0 <= j < s.len() && s[j] == x;
            assert(s.push(v)[j] == x);
        }
        if x == v {
            assert(s.push(v)[s.len() as int] == v);
        }
        if s.push(v).contains(x) && x != v {
            let j = choose|j: int| 0 <= j < s.len() + 1 && s.push(v)[j] == x;
            assert(j < s.len());
            assert(s[j] == x);
        }
    }
    assert(held_set(s.push(v)) =~= held_set(s).insert(v));
}

fn is_held(held: &Vec<usize>, v: usize) -> (r: bool)
    ensures
        r == held@.contains(v),
{
    let mut i: usize = 0;
    while i < held.len()
        invariant
            i <= held@.len(),
            forall|j: int| 0 <= j < i ==> held@[j] != v,
        decreases held@.len() - i,
    {
        if held[i] == v {
            assert(held@[i as int] == v);
            return true;
        }
        i = i + 1;
    }
    false
}

fn is_index(x: &Variable) -> (r: bool)
    ensures
        r == (index_value(x@) is Some),
{
    match x {
        Variable::Signed(_) => true,
        Variable::Unsigned(_) => true,
        _ => false,
    }
}

/// Whether `op` on `l` and `r` divides an integer by zero (where
/// [`apply_operator`] is not defined).
pub fn divides_by_zero(op: Operator, l: &Variable, r: &Variable) -> (b: bool)
    ensures
        b == (binary_spec(op, l@, r@) is Stuck),
{
    let divides = match op {
        Operator::Div => true,
        Operator::Rem => true,
        _ => false,
    };
    match l {
        Variable::Unsigned(_) => match r {
            Variable::Unsigned(y) => divides && *y == 0,
            _ => false,
        },
        Variable::Signed(_) => match r {
            Variable::Signed(y) => divides && *y == 0,
            _ => false,
        },
        _ => false,
    }
}

impl Operand {
    /// Reads the operand while the heap slots in `held` are locked, telling
    /// apart a refused read from one that is not defined.
    fn evaluate(&self, heap: &Vec<Option<HeapValue>>, stack: &Vec<Variable>, held: &mut Vec<usize>) -> (r: Eval<
        Variable,
    >)
        ensures
            final(held)@ == old(held)@,
            evaluates_as(r, read_spec(*self, heap_model(heap@), values_of(stack@), held_set(old(held)@))),
        decreases self,
    {
        match self {
            Operand::StackVariable { v } => if *v < stack.len() {
                Eval::Done(stack[*v].duplicate())
            } else {
                Eval::Stuck
            },
            Operand::FieldAccess { v, of } => {
                if *v >= heap.len() || is_held(held, *v) {
                    return Eval::Stuck;
                }
                match &heap[*v] {
                    Some(h) => if *of < h.fields.len() {
                        Eval::Done(h.fields[*of].duplicate())
                    } else {
                        Eval::Stuck
                    },
                    None => Eval::Fail(MachineError::MissingHeapObject),
                }
            },
            Operand::ArrayAccess { v, of } => {
                if *v >= heap.len() || is_held(held, *v) {
                    return Eval::Stuck;
                }
                match &heap[*v] {
                    Some(h) => {
                        let ghost before = held@;
                        held.push(*v);
                        proof {
                            lemma_held_push(before, *v);
                        }
                        let e = (**of).evaluate(heap, stack, held);
                        held.pop();
                        proof {
                            assert(held@ =~= before);
                        }
                        match e {
                            Eval::Done(x) => if !is_index(&x) {
                                Eval::Fail(MachineError::InvalidIndex)
                            } else {
                                match index_position(&x, h.fields.len()) {
                                    Some(i) => Eval::Done(h.fields[i].duplicate()),
                                    None => Eval::Stuck,
                                }
                            },
                            Eval::Fail(err) => Eval::Fail(err),
                            Eval::Stuck => Eval::Stuck,
                        }
                    },
                    None => Eval::Fail(MachineError::MissingHeapObject),
                }
            },
            Operand::ConstantUnsigned(x) => Eval::Done(Variable::Unsigned(*x)),
            Operand::ConstantSigned(x) => Eval::Done(Variable::Signed(*x)),
            Operand::ConstantFloat(x) => Eval::Done(Variable::Float(*x)),
            Operand::ConstantString(s) => Eval::Done(Variable::String(s.clone())),
            Operand::NullPtr => Eval::Done(Variable::Pointer(0)),
        }
    }

    /// Whether reading the operand is defined: `false` where reading it
    /// panics.
    pub fn can_read(&self, heap: &Vec<Option<HeapValue>>, stack: &Vec<Variable>) -> (r: bool)
        ensures
            r == !(read_spec(*self, heap_model(heap@), values_of(stack@), Set::empty()) is Stuck),
    {
        let mut held: Vec<usize> = Vec::new();
        proof {
            assert(held_set(held@) =~= Set::<usize>::empty());
        }
        match self.evaluate(heap, stack, &mut held) {
            Eval::Stuck => false,
            _ => true,
        }
    }

    /// Whether writing to the operand is defined, whatever the value
    /// written: `false` where the write panics.
    pub fn can_write(&self, heap: &Vec<Option<HeapValue>>, stack: &Vec<Variable>) -> (r: bool)
        ensures
            forall|x: Value| r == !(#[trigger] write_spec(*self, x, heap_model(heap@), values_of(stack@)) is Stuck),
    {
        match self {
            Operand::StackVariable { v } => *v < stack.len(),
            Operand::FieldAccess { v, of } => {
                if *v >= heap.len() {
                    return false;
                }
                match &heap[*v] {
                    Some(h) => *of < h.fields.len(),
                    None => true,
                }
            },
            Operand::ArrayAccess { v, of } => {
                if *v >= heap.len() {
                    return false;
                }
                match &heap[*v] {
                    Some(h) => {
                        let mut held: Vec<usize> = Vec::new();
                        proof {
                            assert(held_set(held@) =~= Set::<usize>::empty());
                            lemma_held_push(held@, *v);
                            assert(Set::<usize>::empty().insert(*v) =~= set![*v]);
                        }
                        held.push(*v);
                        match (**of).evaluate(heap, stack, &mut held) {
                            Eval::Done(x) => if !is_index(&x) {
                                true
                            } else {
                                match index_position(&x, h.fields.len()) {
                                    Some(_) => true,
                                    None => false,
                                }
                            },
                            Eval::Fail(_) => true,
                            Eval::Stuck => false,
                        }
                    },
                    None => true,
                }
            },
            _ => true,
        }
    }
}

/// Whether reading each of `args` is defined.
fn all_readable(args: &Vec<Operand>, heap: &Vec<Option<HeapValue>>, frame: &Vec<Variable>) -> (r: bool)
    ensures
        r == !(exists|j: int|
            0 <= j < args@.len() && #[trigger] read_spec(
                args@[j],
                heap_model(heap@),
                values_of(frame@),
                Set::empty(),
            ) is Stuck),
{
    let mut i: usize = 0;
    while i < args.len()
        invariant
            i <= args@.len(),
            forall|j: int|
                0 <= j < i ==> !(#[trigger] read_spec(
                    args@[j],
                    heap_model(heap@),
                    values_of(frame@),
                    Set::empty(),
                ) is Stuck),
        decreases args@.len() - i,
    {
        if !args[i].can_read(heap, frame) {
            return false;
        }
        i = i + 1;
    }
    true
}

impl Machine {
    /// Whether `store` of any value to `target` is defined.
    pub fn can_store(&self, target: &Operand) -> (r: bool)
        ensures
            forall|x: Value| r == !(#[trigger] write_spec(*target, x, self@.heap, self@.frame) is Stuck),
    {
        target.can_write(&self.data.heap, &self.current_frame)
    }

    /// Whether the next step is defined: `false` where executing the
    /// instruction panics or does not return.
    pub fn can_step(&self) -> (r: bool)
        ensures
            r == !(step_spec(self@) is Stuck),
    {
        let ip = self.instruction_pointer;
        if ip >= self.data.instructions.len() {
            return false;
        }
        let heap = &self.data.heap;
        let frame = &self.current_frame;
        let mut held: Vec<usize> = Vec::new();
        proof {
            assert(held_set(held@) =~= Set::<usize>::empty());
        }
        match &self.data.instructions[ip] {
            Instruction::Move { to, from } => match from.evaluate(heap, frame, &mut held) {
                Eval::Done(_) => to.can_write(heap, frame),
                Eval::Fail(_) => true,
                Eval::Stuck => false,
            },
            Instruction::BinaryOperator { op, left, right, output } => match left.evaluate(heap, frame, &mut held) {
                Eval::Done(l) => match right.evaluate(heap, frame, &mut held) {
                    Eval::Done(r) => {
                        if divides_by_zero(*op, &l, &r) {
                            false
                        } else {
                            match apply_operator(*op, l, r) {
                                Ok(Some(_)) => output.can_write(heap, frame),
                                _ => true,
                            }
                        }
                    },
                    Eval::Fail(_) => true,
                    Eval::Stuck => false,
                },
                Eval::Fail(_) => true,
                Eval::Stuck => false,
            },
            Instruction::Not { input, output } => match input.evaluate(heap, frame, &mut held) {
                Eval::Done(x) => match apply_not(x) {
                    Ok(_) => output.can_write(heap, frame),
                    Err(_) => true,
                },
                Eval::Fail(_) => true,
                Eval::Stuck => false,
            },
            Instruction::Return { .. } => {
                let n = self.previous_frames.len();
                if n == 0 {
                    return true;
                }
                let caller = &self.previous_frames[n - 1];
                proof {
                    assert(self@.previous.last() == (caller.0, values_of(caller.1@), caller.2));
                }
                match &caller.2 {
                    Some(y) => y.can_write(heap, &caller.1),
                    None => true,
                }
            },
            Instruction::Call { arguments, .. } => all_readable(arguments, heap, frame),
            Instruction::JmpIfNot { condition, .. } => match condition.evaluate(heap, frame, &mut held) {
                Eval::Stuck => false,
                _ => true,
            },
            Instruction::Write { to_write } => match to_write.evaluate(heap, frame, &mut held) {
                Eval::Stuck => false,
                _ => true,
            },
            Instruction::WriteLn { to_write } => match to_write.evaluate(heap, frame, &mut held) {
                Eval::Stuck => false,
                _ => true,
            },
            _ => true,
        }
    }
}

} // verus!
