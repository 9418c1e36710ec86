use bios::interpreter::{
    apply_not, apply_operator, compare_strings, divides_by_zero, jumps_on, HeapValue, Instruction, Machine, MachineError,
    Operand, Operator, Order, StepEvent, Variable,
};

fn run_until_event(m: &mut Machine) -> Result<StepEvent, MachineError> {
    loop {
        let ev = m.step()?;
        match ev {
            StepEvent::Continue => {
                if m.halted {
                    return Ok(StepEvent::Continue);
                }
            }
            other => return Ok(other),
        }
    }
}

fn string_of(v: &Variable) -> String {
    match v {
        Variable::String(s) => s.clone(),
        _ => panic!("not a string"),
    }
}

#[test]
fn adds_numbers_and_joins_strings() {
    let list = vec![
        Instruction::BeginStackFrame { variable_count: 16 },
        Instruction::Move { to: Operand::StackVariable { v: 0 }, from: Operand::ConstantSigned(10) },
        Instruction::Move { to: Operand::StackVariable { v: 1 }, from: Operand::ConstantSigned(15) },
        Instruction::BinaryOperator {
            op: Operator::Add,
            left: Operand::StackVariable { v: 0 },
            right: Operand::StackVariable { v: 1 },
            output: Operand::StackVariable { v: 2 },
        },
        Instruction::WriteLn { to_write: Operand::StackVariable { v: 2 } },
        Instruction::Move {
            to: Operand::StackVariable { v: 3 },
            from: Operand::ConstantString("hi toast,".to_string()),
        },
        Instruction::Move {
            to: Operand::StackVariable { v: 4 },
            from: Operand::ConstantString(" i love you <3".to_string()),
        },
        Instruction::BinaryOperator {
            op: Operator::Add,
            left: Operand::StackVariable { v: 3 },
            right: Operand::StackVariable { v: 4 },
            output: Operand::StackVariable { v: 5 },
        },
        Instruction::WriteLn { to_write: Operand::StackVariable { v: 5 } },
        Instruction::Halt,
    ];
    let mut m = Machine::new(list, 0);
    assert_eq!(m.data.heap.len(), 4096);
    match run_until_event(&mut m).unwrap() {
        StepEvent::Print { value: Variable::Signed(25), newline: true } => {}
        other => panic!("unexpected {:?}", other),
    }
    assert_eq!(m.current_frame.len(), 16);
    match run_until_event(&mut m).unwrap() {
        StepEvent::Print { value, newline: true } => assert_eq!(string_of(&value), "hi toast, i love you <3"),
        other => panic!("unexpected {:?}", other),
    }
    assert!(matches!(run_until_event(&mut m).unwrap(), StepEvent::Continue));
    assert!(m.halted);
    assert_eq!(m.instruction_pointer, 10);
}

#[test]
fn every_refusal_has_its_error() {
    let cases: Vec<(Instruction, MachineError)> = vec![
        (
            Instruction::BinaryOperator {
                op: Operator::Add,
                left: Operand::NullPtr,
                right: Operand::NullPtr,
                output: Operand::StackVariable { v: 0 },
            },
            MachineError::IncompatibleOperation,
        ),
        (
            Instruction::BinaryOperator {
                op: Operator::Add,
                left: Operand::ConstantUnsigned(1),
                right: Operand::ConstantSigned(1),
                output: Operand::StackVariable { v: 0 },
            },
            MachineError::IncompatibleTypes,
        ),
        (
            Instruction::Not { input: Operand::ConstantString("x".to_string()), output: Operand::StackVariable { v: 0 } },
            MachineError::NotOfString,
        ),
        (Instruction::Return { to_return: Variable::Bool(true) }, MachineError::ReturnFromBase),
        (
            Instruction::Move { to: Operand::StackVariable { v: 0 }, from: Operand::FieldAccess { v: 5, of: 0 } },
            MachineError::MissingHeapObject,
        ),
        (
            Instruction::Move { to: Operand::ConstantSigned(3), from: Operand::ConstantSigned(4) },
            MachineError::WriteToConstant,
        ),
        (Instruction::Move { to: Operand::NullPtr, from: Operand::ConstantSigned(4) }, MachineError::WriteToNull),
    ];
    for (ins, err) in cases {
        let mut m = Machine::new(vec![Instruction::BeginStackFrame { variable_count: 1 }, ins], 0);
        m.step().unwrap();
        assert_eq!(m.step().err(), Some(err));
        assert_eq!(m.instruction_pointer, 2);
    }
}

#[test]
fn array_index_must_be_an_integer() {
    let mut m = Machine::new(
        vec![Instruction::Move {
            to: Operand::StackVariable { v: 0 },
            from: Operand::ArrayAccess { v: 1, of: Box::new(Operand::NullPtr) },
        }],
        0,
    );
    m.current_frame.push(Variable::Bool(false));
    m.data.heap[1] = Some(HeapValue {
        gc_is_reachable: true,
        is_array: true,
        field_names: vec![],
        fields: vec![Variable::Unsigned(7)],
    });
    assert_eq!(m.step().err(), Some(MachineError::InvalidIndex));
}

#[test]
fn heap_arrays_give_back_what_was_written() {
    let mut m = Machine::new(
        vec![
            Instruction::Move {
                to: Operand::ArrayAccess { v: 2, of: Box::new(Operand::ConstantSigned(1)) },
                from: Operand::ConstantUnsigned(99),
            },
            Instruction::Move {
                to: Operand::StackVariable { v: 0 },
                from: Operand::ArrayAccess { v: 2, of: Box::new(Operand::ConstantUnsigned(1)) },
            },
            Instruction::Move { to: Operand::FieldAccess { v: 2, of: 0 }, from: Operand::ConstantFloat(1.5f64.to_bits()) },
        ],
        0,
    );
    m.current_frame.push(Variable::Pointer(0));
    m.data.heap[2] = Some(HeapValue {
        gc_is_reachable: false,
        is_array: true,
        field_names: vec![],
        fields: vec![Variable::Bool(false), Variable::Bool(false)],
    });
    m.step().unwrap();
    m.step().unwrap();
    assert!(matches!(m.current_frame[0], Variable::Unsigned(99)));
    m.step().unwrap();
    let fields = &m.data.heap[2].as_ref().unwrap().fields;
    assert!(matches!(fields[0], Variable::Float(b) if b == 1.5f64.to_bits()));
}

#[test]
fn call_then_return_restores_the_caller() {
    let mut m = Machine::new(
        vec![
            Instruction::BeginStackFrame { variable_count: 2 },
            Instruction::Call { to_call: 3, arguments: vec![Operand::ConstantSigned(1)], output: Some(Operand::StackVariable { v: 1 }) },
            Instruction::Halt,
            Instruction::Return { to_return: Variable::Unsigned(42) },
        ],
        0,
    );
    m.step().unwrap();
    m.step().unwrap();
    assert_eq!(m.instruction_pointer, 3);
    assert_eq!(m.current_frame.len(), 0);
    assert_eq!(m.previous_frames.len(), 1);
    m.step().unwrap();
    assert_eq!(m.instruction_pointer, 2);
    assert_eq!(m.current_frame.len(), 2);
    assert!(matches!(m.current_frame[1], Variable::Unsigned(42)));
    assert!(matches!(m.current_frame[0], Variable::Pointer(0)));
    assert_eq!(m.previous_frames.len(), 0);
}

#[test]
fn jumps_follow_the_condition() {
    assert!(jumps_on(&Variable::Bool(false)));
    assert!(!jumps_on(&Variable::Bool(true)));
    assert!(!jumps_on(&Variable::Unsigned(0)));
    assert!(jumps_on(&Variable::Signed(-1)));
    assert!(!jumps_on(&Variable::Float((-0.0f64).to_bits())));
    assert!(jumps_on(&Variable::Float(f64::NAN.to_bits())));
    assert!(jumps_on(&Variable::Float(0.5f64.to_bits())));
    assert!(!jumps_on(&Variable::String(String::new())));
    assert!(jumps_on(&Variable::String("a".to_string())));
    let mut m = Machine::new(
        vec![Instruction::JmpIfNot { to_jump_to: 7, condition: Operand::NullPtr }, Instruction::Jmp { to_jump_to: 9 }],
        0,
    );
    m.step().unwrap();
    assert_eq!(m.instruction_pointer, 1);
    m.step().unwrap();
    assert_eq!(m.instruction_pointer, 9);
}

#[test]
fn integer_arithmetic_wraps_and_truncates() {
    let u = |a: u64, b: u64, op| match apply_operator(op, Variable::Unsigned(a), Variable::Unsigned(b)) {
        Ok(Some(Variable::Unsigned(x))) => x,
        _ => panic!(),
    };
    let s = |a: i64, b: i64, op| match apply_operator(op, Variable::Signed(a), Variable::Signed(b)) {
        Ok(Some(Variable::Signed(x))) => x,
        _ => panic!(),
    };
    assert_eq!(u(u64::MAX, 1, Operator::Add), 0);
    assert_eq!(u(0, 1, Operator::Sub), u64::MAX);
    assert_eq!(u(7, 2, Operator::Div), 3);
    assert_eq!(u(7, 2, Operator::Rem), 1);
    assert_eq!(u(0b1100, 0b1010, Operator::Xor), 0b0110);
    assert_eq!(s(-7, 2, Operator::Div), -3);
    assert_eq!(s(-7, 2, Operator::Rem), -1);
    assert_eq!(s(7, -2, Operator::Rem), 1);
    assert_eq!(s(i64::MIN, -1, Operator::Div), i64::MIN);
    assert_eq!(s(i64::MIN, -1, Operator::Rem), 0);
    assert_eq!(s(i64::MAX, 2, Operator::Mul), -2);
    assert!(matches!(apply_operator(Operator::CmpL, Variable::Signed(-1), Variable::Signed(0)), Ok(Some(Variable::Bool(true)))));
    assert!(matches!(
        apply_operator(Operator::Xor, Variable::Pointer(3), Variable::Pointer(0)),
        Ok(Some(Variable::Bool(true)))
    ));
    assert!(matches!(
        apply_operator(Operator::CmpE, Variable::Pointer(3), Variable::Pointer(3)),
        Ok(Some(Variable::Bool(true)))
    ));
}

#[test]
fn float_arithmetic_is_handed_to_the_driver() {
    let a = 1.5f64.to_bits();
    let b = 2.25f64.to_bits();
    assert!(matches!(apply_operator(Operator::Add, Variable::Float(a), Variable::Float(b)), Ok(None)));
    assert!(matches!(
        apply_operator(Operator::And, Variable::Float(a), Variable::Float(b)),
        Ok(Some(Variable::Float(x))) if x == a & b
    ));
    let mut m = Machine::new(
        vec![Instruction::BinaryOperator {
            op: Operator::Mul,
            left: Operand::ConstantFloat(a),
            right: Operand::ConstantFloat(b),
            output: Operand::StackVariable { v: 0 },
        }],
        0,
    );
    m.current_frame.push(Variable::Pointer(0));
    match m.step().unwrap() {
        StepEvent::FloatOperation { op: Operator::Mul, left, right, output } => {
            assert_eq!((left, right), (a, b));
            let r = f64::from_bits(left) * f64::from_bits(right);
            m.store(&output, Variable::Float(r.to_bits())).unwrap();
        }
        other => panic!("unexpected {:?}", other),
    }
    assert!(matches!(m.current_frame[0], Variable::Float(x) if f64::from_bits(x) == 3.375));
}

#[test]
fn read_asks_for_a_line() {
    let mut m = Machine::new(vec![Instruction::Read { to_write_to: Operand::StackVariable { v: 0 } }], 0);
    m.current_frame.push(Variable::Pointer(0));
    match m.step().unwrap() {
        StepEvent::ReadLine { target } => m.store(&target, Variable::String("line\n".to_string())).unwrap(),
        other => panic!("unexpected {:?}", other),
    }
    assert_eq!(string_of(&m.current_frame[0]), "line\n");
}

#[test]
fn strings_order_by_code_point() {
    let s = |x: &str| x.to_string();
    assert_eq!(compare_strings(&s("abc"), &s("abd")), Order::Less);
    assert_eq!(compare_strings(&s("ab"), &s("abc")), Order::Less);
    assert_eq!(compare_strings(&s("abc"), &s("abc")), Order::Equal);
    assert_eq!(compare_strings(&s("\u{e9}"), &s("z")), Order::Greater);
    assert_eq!(compare_strings(&s(""), &s("")), Order::Equal);
    assert!(s("\u{e9}") > s("z"));
    assert!(matches!(
        apply_operator(Operator::CmpGe, Variable::String(s("b")), Variable::String(s("a"))),
        Ok(Some(Variable::Bool(true)))
    ));
    assert!(matches!(
        apply_operator(Operator::Sub, Variable::String(s("b")), Variable::String(s("a"))),
        Err(MachineError::IncompatibleOperation)
    ));
}

#[test]
fn not_undoes_itself() {
    for v in [Variable::Unsigned(5), Variable::Signed(-9), Variable::Float(2.0f64.to_bits()), Variable::Bool(true)] {
        let back = apply_not(apply_not(v.clone()).unwrap()).unwrap();
        assert_eq!(format!("{:?}", back), format!("{:?}", v));
    }
    assert!(matches!(apply_not(Variable::Pointer(0)), Ok(Variable::Bool(true))));
    assert!(matches!(apply_not(Variable::Pointer(4)), Ok(Variable::Bool(false))));
    assert!(matches!(apply_not(Variable::Unsigned(0)), Ok(Variable::Unsigned(u64::MAX))));
}

#[test]
fn undefined_steps_are_detected_before_they_run() {
    let list = vec![
        Instruction::BeginStackFrame { variable_count: 2 },
        Instruction::Move { to: Operand::StackVariable { v: 5 }, from: Operand::ConstantSigned(1) },
        Instruction::Move { to: Operand::StackVariable { v: 0 }, from: Operand::StackVariable { v: 9 } },
        Instruction::BinaryOperator {
            op: Operator::Div,
            left: Operand::ConstantUnsigned(4),
            right: Operand::ConstantUnsigned(0),
            output: Operand::StackVariable { v: 1 },
        },
        Instruction::BinaryOperator {
            op: Operator::Add,
            left: Operand::ConstantFloat(0),
            right: Operand::ConstantFloat(0),
            output: Operand::StackVariable { v: 7 },
        },
        Instruction::Move { to: Operand::ConstantSigned(3), from: Operand::ConstantSigned(1) },
        Instruction::Call { to_call: 0, arguments: vec![Operand::StackVariable { v: 4 }], output: None },
        Instruction::Halt,
    ];
    let mut m = Machine::new(list, 0);
    assert!(m.can_step());
    m.step().unwrap();
    // writing past the frame panics
    assert!(!m.can_step());
    m.instruction_pointer = 2;
    // reading past the frame panics
    assert!(!m.can_step());
    m.instruction_pointer = 3;
    // integer division by zero panics
    assert!(!m.can_step());
    m.instruction_pointer = 4;
    // float arithmetic is handed out without writing, so it is defined
    assert!(m.can_step());
    m.instruction_pointer = 5;
    // a refused write is defined: it is an error
    assert!(m.can_step());
    assert_eq!(m.step().err(), Some(MachineError::WriteToConstant));
    // an argument that cannot be read makes the call undefined
    assert!(!m.can_step());
    m.instruction_pointer = 7;
    assert!(m.can_step());
    m.instruction_pointer = 8;
    // past the last instruction
    assert!(!m.can_step());
    assert!(m.can_store(&Operand::StackVariable { v: 1 }));
    assert!(!m.can_store(&Operand::StackVariable { v: 2 }));
    assert!(m.can_store(&Operand::NullPtr));
}

#[test]
fn array_reads_that_lock_their_own_slot_are_undefined() {
    let mut heap: Vec<Option<HeapValue>> = vec![None; 4];
    heap[1] = Some(HeapValue {
        gc_is_reachable: true,
        is_array: true,
        field_names: vec![],
        fields: vec![Variable::Unsigned(0), Variable::Unsigned(7)],
    });
    let stack: Vec<Variable> = vec![Variable::Unsigned(1)];
    let ok = Operand::ArrayAccess { v: 1, of: Box::new(Operand::StackVariable { v: 0 }) };
    assert!(ok.can_read(&heap, &stack));
    assert!(ok.can_write(&heap, &stack));
    let nested = Operand::ArrayAccess {
        v: 1,
        of: Box::new(Operand::ArrayAccess { v: 1, of: Box::new(Operand::ConstantUnsigned(0)) }),
    };
    assert!(!nested.can_read(&heap, &stack));
    let out_of_range = Operand::ArrayAccess { v: 1, of: Box::new(Operand::ConstantUnsigned(2)) };
    assert!(!out_of_range.can_read(&heap, &stack));
    assert!(!out_of_range.can_write(&heap, &stack));
    let bad_index = Operand::ArrayAccess { v: 1, of: Box::new(Operand::ConstantString("x".to_string())) };
    assert!(bad_index.can_read(&heap, &stack));
    assert_eq!(bad_index.read(&heap, &stack).err(), Some(MachineError::InvalidIndex));
    let missing = Operand::FieldAccess { v: 2, of: 0 };
    assert!(missing.can_read(&heap, &stack));
    assert!(!Operand::FieldAccess { v: 9, of: 0 }.can_read(&heap, &stack));
}

#[test]
fn integer_division_by_zero_is_flagged() {
    assert!(divides_by_zero(Operator::Div, &Variable::Unsigned(3), &Variable::Unsigned(0)));
    assert!(divides_by_zero(Operator::Rem, &Variable::Signed(3), &Variable::Signed(0)));
    assert!(!divides_by_zero(Operator::Add, &Variable::Signed(3), &Variable::Signed(0)));
    assert!(!divides_by_zero(Operator::Div, &Variable::Float(3), &Variable::Float(0)));
    assert!(!divides_by_zero(Operator::Div, &Variable::Signed(3), &Variable::Unsigned(0)));
}
