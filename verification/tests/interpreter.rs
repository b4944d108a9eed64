use rusty_jvm::jvm::class::constant::{ConstantPool, ConstantPoolEntry};
use rusty_jvm::jvm::class::Class;
use rusty_jvm::jvm::interpreter::jvm_opcodes;
use rusty_jvm::jvm::interpreter::{
    execute, ClassRegistry, Interpreter, JRTError, JRTObject, JRTVar, RunState, Stack, Step,
};

fn it_utf8(out: &mut Vec<u8>, s: &str) {
    out.push(1);
    out.extend_from_slice(&(s.len() as u16).to_be_bytes());
    out.extend_from_slice(s.as_bytes());
}

fn it_code_attribute(out: &mut Vec<u8>, code: &[u8]) {
    out.extend_from_slice(&[0, 3]);
    out.extend_from_slice(&((code.len() + 12) as u32).to_be_bytes());
    out.extend_from_slice(&[0, 4, 0, 0]);
    out.extend_from_slice(&(code.len() as u32).to_be_bytes());
    out.extend_from_slice(code);
    out.extend_from_slice(&[0, 0, 0, 0]);
}

/// A class named `name` whose methods are `m0`, `m1`, ..., each with the
/// given code, or without a `Code` attribute where the code is `None`.
///
/// Pool: 1 Utf8 name, 2 Class, 3 Utf8 "Code", 4 Utf8 "()V", 5 Integer
/// 0x7FFFFFFF, 6 Float 1.5, 7-8 Long -5, 9-10 Double 2.0, 11 String, then
/// the method names from 12 on.
fn it_class(name: &str, methods: &[Option<&[u8]>]) -> Class {
    let mut out = vec![0xCA, 0xFE, 0xBA, 0xBE, 0, 0, 0, 0x34];
    out.extend_from_slice(&((12 + methods.len()) as u16).to_be_bytes());
    it_utf8(&mut out, name);
    out.extend_from_slice(&[7, 0, 1]);
    it_utf8(&mut out, "Code");
    it_utf8(&mut out, "()V");
    out.extend_from_slice(&[3, 0x7F, 0xFF, 0xFF, 0xFF]);
    out.push(4);
    out.extend_from_slice(&1.5f32.to_bits().to_be_bytes());
    out.push(5);
    out.extend_from_slice(&(-5i64).to_be_bytes());
    out.push(6);
    out.extend_from_slice(&2.0f64.to_bits().to_be_bytes());
    out.extend_from_slice(&[8, 0, 1]);
    for i in 0..methods.len() {
        it_utf8(&mut out, &format!("m{}", i));
    }
    out.extend_from_slice(&[0, 0x21, 0, 2, 0, 0, 0, 0, 0, 0]);
    out.extend_from_slice(&(methods.len() as u16).to_be_bytes());
    for (i, code) in methods.iter().enumerate() {
        out.extend_from_slice(&[0, 9]);
        out.extend_from_slice(&((12 + i) as u16).to_be_bytes());
        out.extend_from_slice(&[0, 4]);
        match code {
            Some(code) => {
                out.extend_from_slice(&[0, 1]);
                it_code_attribute(&mut out, code);
            }
            None => out.extend_from_slice(&[0, 0]),
        }
    }
    out.extend_from_slice(&[0, 0]);
    Class::new(&out).unwrap()
}

fn it_run(code: &[u8]) -> (Result<JRTVar, JRTError>, Interpreter) {
    let mut interpreter = Interpreter::new();
    interpreter.insert_class(it_class("T", &[Some(code)]));
    let r = interpreter.run_static_method("T", "m0", &[]);
    (r, interpreter)
}

fn it_stack(values: &[JRTVar]) -> Stack {
    let mut stack = Stack::new();
    for v in values {
        stack.push(*v);
    }
    stack
}

fn it_contents(stack: &Stack) -> Vec<JRTVar> {
    let mut out = Vec::new();
    let mut depth = stack.len();
    while depth > 0 {
        depth -= 1;
        out.push(stack.peek(depth).unwrap());
    }
    out
}

#[test]
fn return_gives_void_and_leaves_the_stack_empty() {
    let (r, interpreter) = it_run(&[0xB1]);
    assert_eq!(r, Ok(JRTVar::Void));
    assert_eq!(interpreter.state(), RunState::Returned(JRTVar::Void));
    assert_eq!(interpreter.stack().len(), 0);
    assert_eq!(interpreter.pc(), 0);
}

#[test]
fn unrecognized_opcode_faults_at_once() {
    // 0xCB names no instruction; the return behind it is never reached.
    let (r, interpreter) = it_run(&[0xCB, 0xB1]);
    assert_eq!(r, Err(JRTError::UnsupportedOpcode(0xCB)));
    assert_eq!(interpreter.state(), RunState::Faulted(JRTError::UnsupportedOpcode(0xCB)));
    assert_eq!(interpreter.pc(), 0);
    assert_eq!(interpreter.stack().len(), 0);
}

#[test]
fn unsupported_opcode_behind_others_faults_where_it_stands() {
    let (r, interpreter) = it_run(&[0x04, 0x00, 0xB6, 0x00, 0x01, 0xB1]);
    assert_eq!(r, Err(JRTError::UnsupportedOpcode(jvm_opcodes::INVOKEVIRTUAL)));
    assert_eq!(interpreter.pc(), 2);
    assert_eq!(it_contents(interpreter.stack()), vec![JRTVar::Int(1)]);
}

#[test]
fn instructions_outside_the_base_core_are_unsupported() {
    for op in [
        jvm_opcodes::ACONST_NULL,
        jvm_opcodes::POP,
        jvm_opcodes::DUP,
        jvm_opcodes::SWAP,
        jvm_opcodes::GOTO,
        jvm_opcodes::PUTSTATIC,
        jvm_opcodes::INVOKESTATIC,
        jvm_opcodes::NEW,
        jvm_opcodes::ATHROW,
        jvm_opcodes::WIDE,
        jvm_opcodes::BREAKPOINT,
        jvm_opcodes::IMPDEP2,
        0x15,
        0x62,
    ] {
        let (r, _) = it_run(&[op, 0, 0, 0xB1]);
        assert_eq!(r, Err(JRTError::UnsupportedOpcode(op)));
    }
}

#[test]
fn nop_does_nothing() {
    let (r, interpreter) = it_run(&[0x00, 0x00, 0x00, 0xB1]);
    assert_eq!(r, Ok(JRTVar::Void));
    assert_eq!(interpreter.pc(), 3);
    assert_eq!(interpreter.stack().len(), 0);
}

#[test]
fn int_constants() {
    assert_eq!(it_run(&[0x02, 0xAC]).0, Ok(JRTVar::Int(-1)));
    assert_eq!(it_run(&[0x03, 0xAC]).0, Ok(JRTVar::Int(0)));
    assert_eq!(it_run(&[0x04, 0xAC]).0, Ok(JRTVar::Int(1)));
    assert_eq!(it_run(&[0x08, 0xAC]).0, Ok(JRTVar::Int(5)));
    assert_eq!(it_run(&[0x10, 0x7F, 0xAC]).0, Ok(JRTVar::Int(127)));
    assert_eq!(it_run(&[0x10, 0x80, 0xAC]).0, Ok(JRTVar::Int(-128)));
    assert_eq!(it_run(&[0x10, 0xFF, 0xAC]).0, Ok(JRTVar::Int(-1)));
    assert_eq!(it_run(&[0x11, 0x7F, 0xFF, 0xAC]).0, Ok(JRTVar::Int(32767)));
    assert_eq!(it_run(&[0x11, 0x80, 0x00, 0xAC]).0, Ok(JRTVar::Int(-32768)));
    assert_eq!(it_run(&[0x11, 0x01, 0x02, 0xAC]).0, Ok(JRTVar::Int(258)));
}

#[test]
fn long_float_and_double_constants() {
    assert_eq!(it_run(&[0x09, 0xAD]).0, Ok(JRTVar::Long(0)));
    assert_eq!(it_run(&[0x0A, 0xAD]).0, Ok(JRTVar::Long(1)));
    assert_eq!(it_run(&[0x0B, 0xAE]).0, Ok(JRTVar::Float(0.0f32.to_bits())));
    assert_eq!(it_run(&[0x0C, 0xAE]).0, Ok(JRTVar::Float(1.0f32.to_bits())));
    assert_eq!(it_run(&[0x0D, 0xAE]).0, Ok(JRTVar::Float(2.0f32.to_bits())));
    assert_eq!(it_run(&[0x0E, 0xAF]).0, Ok(JRTVar::Double(0.0f64.to_bits())));
    assert_eq!(it_run(&[0x0F, 0xAF]).0, Ok(JRTVar::Double(1.0f64.to_bits())));
}

#[test]
fn constants_load_by_their_kind() {
    for op in [0x12u8, 0x13, 0x14, 0xB2] {
        assert_eq!(it_run(&[op, 0, 5, 0xAC]).0, Ok(JRTVar::Int(0x7FFF_FFFF)));
        assert_eq!(it_run(&[op, 0, 6, 0xAE]).0, Ok(JRTVar::Float(1.5f32.to_bits())));
        assert_eq!(it_run(&[op, 0, 7, 0xAD]).0, Ok(JRTVar::Long(-5)));
        assert_eq!(it_run(&[op, 0, 9, 0xAF]).0, Ok(JRTVar::Double(2.0f64.to_bits())));
    }
}

#[test]
fn bad_constant_references_fault() {
    for op in [0x12u8, 0x13, 0x14, 0xB2] {
        // index 0, an index past the pool, and the placeholders behind the wide entries
        for index in [0u16, 13, 0xFFFF, 8, 10] {
            let b = index.to_be_bytes();
            let (r, interpreter) = it_run(&[0x04, op, b[0], b[1], 0xB1]);
            assert_eq!(r, Err(JRTError::InvalidConstantPoolReference));
            assert_eq!(interpreter.pc(), 1);
            assert_eq!(it_contents(interpreter.stack()), vec![JRTVar::Int(1)]);
        }
    }
}

#[test]
fn constants_that_need_a_heap_are_a_named_gap() {
    for op in [0x12u8, 0x13, 0x14, 0xB2] {
        // a String, a Class and a Utf8 entry
        for index in [11u8, 2, 1] {
            assert_eq!(it_run(&[op, 0, index, 0xB1]).0, Err(JRTError::UnsupportedOpcode(op)));
        }
    }
}

#[test]
fn int_arithmetic() {
    assert_eq!(it_run(&[0x05, 0x06, 0x60, 0xAC]).0, Ok(JRTVar::Int(5)));
    assert_eq!(it_run(&[0x05, 0x06, 0x64, 0xAC]).0, Ok(JRTVar::Int(-1)));
    assert_eq!(it_run(&[0x08, 0x07, 0x64, 0xAC]).0, Ok(JRTVar::Int(1)));
    assert_eq!(it_run(&[0x08, 0x07, 0x68, 0xAC]).0, Ok(JRTVar::Int(20)));
    assert_eq!(it_run(&[0x08, 0x74, 0xAC]).0, Ok(JRTVar::Int(-5)));
    assert_eq!(it_run(&[0x02, 0x74, 0xAC]).0, Ok(JRTVar::Int(1)));
}

#[test]
fn int_arithmetic_wraps() {
    // MAX + 1
    assert_eq!(it_run(&[0x12, 0, 5, 0x04, 0x60, 0xAC]).0, Ok(JRTVar::Int(i32::MIN)));
    // -1 - MAX - MAX = 1 after two wraps of the intermediate
    assert_eq!(
        it_run(&[0x02, 0x12, 0, 5, 0x64, 0x12, 0, 5, 0x64, 0xAC]).0,
        Ok(JRTVar::Int((-1i32).wrapping_sub(i32::MAX).wrapping_sub(i32::MAX)))
    );
    // MAX * MAX
    assert_eq!(
        it_run(&[0x12, 0, 5, 0x12, 0, 5, 0x68, 0xAC]).0,
        Ok(JRTVar::Int(i32::MAX.wrapping_mul(i32::MAX)))
    );
    assert_eq!(i32::MAX.wrapping_mul(i32::MAX), 1);
    // -(MIN) = MIN
    assert_eq!(it_run(&[0x12, 0, 5, 0x04, 0x60, 0x74, 0xAC]).0, Ok(JRTVar::Int(i32::MIN)));
}

#[test]
fn long_arithmetic() {
    assert_eq!(it_run(&[0x14, 0, 7, 0x0A, 0x61, 0xAD]).0, Ok(JRTVar::Long(-4)));
    assert_eq!(it_run(&[0x14, 0, 7, 0x0A, 0x65, 0xAD]).0, Ok(JRTVar::Long(-6)));
    assert_eq!(it_run(&[0x0A, 0x14, 0, 7, 0x65, 0xAD]).0, Ok(JRTVar::Long(6)));
    assert_eq!(it_run(&[0x14, 0, 7, 0x14, 0, 7, 0x69, 0xAD]).0, Ok(JRTVar::Long(25)));
    assert_eq!(it_run(&[0x14, 0, 7, 0x75, 0xAD]).0, Ok(JRTVar::Long(5)));
}

#[test]
fn long_comparison_pushes_an_int() {
    assert_eq!(it_run(&[0x09, 0x0A, 0x94, 0xAC]).0, Ok(JRTVar::Int(-1)));
    assert_eq!(it_run(&[0x0A, 0x0A, 0x94, 0xAC]).0, Ok(JRTVar::Int(0)));
    assert_eq!(it_run(&[0x0A, 0x09, 0x94, 0xAC]).0, Ok(JRTVar::Int(1)));
    assert_eq!(it_run(&[0x14, 0, 7, 0x09, 0x94, 0xAC]).0, Ok(JRTVar::Int(-1)));
}

#[test]
fn operands_of_the_wrong_kind_fault() {
    // iadd on a long and an int
    let (r, interpreter) = it_run(&[0x0A, 0x04, 0x60, 0xAC]);
    assert_eq!(r, Err(JRTError::MalformedCode));
    assert_eq!(interpreter.pc(), 2);
    assert_eq!(it_contents(interpreter.stack()), vec![JRTVar::Long(1), JRTVar::Int(1)]);
    // ladd on two ints, lcmp on ints, ineg on a long, lneg on an int
    assert_eq!(it_run(&[0x04, 0x04, 0x61, 0xB1]).0, Err(JRTError::MalformedCode));
    assert_eq!(it_run(&[0x04, 0x04, 0x94, 0xB1]).0, Err(JRTError::MalformedCode));
    assert_eq!(it_run(&[0x0A, 0x74, 0xB1]).0, Err(JRTError::MalformedCode));
    assert_eq!(it_run(&[0x04, 0x75, 0xB1]).0, Err(JRTError::MalformedCode));
    // floats have no arithmetic here
    assert_eq!(it_run(&[0x0C, 0x0C, 0x60, 0xB1]).0, Err(JRTError::MalformedCode));
}

#[test]
fn missing_operands_fault() {
    assert_eq!(it_run(&[0x60]).0, Err(JRTError::MalformedCode));
    assert_eq!(it_run(&[0x04, 0x60]).0, Err(JRTError::MalformedCode));
    assert_eq!(it_run(&[0x74]).0, Err(JRTError::MalformedCode));
    assert_eq!(it_run(&[0xAC]).0, Err(JRTError::MalformedCode));
}

#[test]
fn returns_are_typed_by_their_opcode() {
    assert_eq!(it_run(&[0x04, 0xAD]).0, Err(JRTError::MalformedCode));
    assert_eq!(it_run(&[0x0A, 0xAC]).0, Err(JRTError::MalformedCode));
    assert_eq!(it_run(&[0x0B, 0xAF]).0, Err(JRTError::MalformedCode));
    assert_eq!(it_run(&[0x0E, 0xAE]).0, Err(JRTError::MalformedCode));
    assert_eq!(it_run(&[0x04, 0xB0]).0, Err(JRTError::MalformedCode));
    // a typed return takes its value off the stack; return leaves the stack alone
    let (r, interpreter) = it_run(&[0x03, 0x04, 0xAC]);
    assert_eq!(r, Ok(JRTVar::Int(1)));
    assert_eq!(it_contents(interpreter.stack()), vec![JRTVar::Int(0)]);
    let (r, interpreter) = it_run(&[0x03, 0x04, 0xB1]);
    assert_eq!(r, Ok(JRTVar::Void));
    assert_eq!(it_contents(interpreter.stack()), vec![JRTVar::Int(0), JRTVar::Int(1)]);
}

#[test]
fn code_that_ends_without_a_return_faults() {
    let (r, interpreter) = it_run(&[0x00, 0x04]);
    assert_eq!(r, Err(JRTError::MalformedCode));
    assert_eq!(interpreter.pc(), 2);
    assert_eq!(it_run(&[]).0, Err(JRTError::MalformedCode));
}

#[test]
fn operands_cut_short_fault() {
    assert_eq!(it_run(&[0x10]).0, Err(JRTError::MalformedCode));
    assert_eq!(it_run(&[0x11, 0x01]).0, Err(JRTError::MalformedCode));
    assert_eq!(it_run(&[0x12, 0x00]).0, Err(JRTError::MalformedCode));
    assert_eq!(it_run(&[0xB2]).0, Err(JRTError::MalformedCode));
}

#[test]
fn class_method_and_code_must_exist() {
    let mut interpreter = Interpreter::new();
    assert_eq!(interpreter.run_static_method("T", "m0", &[]), Err(JRTError::ClassNotFound));
    interpreter.insert_class(it_class("T", &[Some(&[0xB1]), None]));
    assert_eq!(interpreter.run_static_method("U", "m0", &[]), Err(JRTError::ClassNotFound));
    assert_eq!(interpreter.run_static_method("", "m0", &[]), Err(JRTError::ClassNotFound));
    assert_eq!(interpreter.run_static_method("T", "m2", &[]), Err(JRTError::MethodNotFound));
    assert_eq!(interpreter.run_static_method("T", "Code", &[]), Err(JRTError::MethodNotFound));
    assert_eq!(interpreter.run_static_method("T", "m1", &[]), Err(JRTError::MethodHasNoCode));
    // none of these touched the frame
    assert_eq!(interpreter.state(), RunState::Init);
    assert_eq!(interpreter.run_static_method("T", "m0", &[]), Ok(JRTVar::Void));
}

#[test]
fn a_failed_lookup_leaves_the_last_result_in_place() {
    let mut interpreter = Interpreter::new();
    interpreter.insert_class(it_class("T", &[Some(&[0x08, 0xAC])]));
    assert_eq!(interpreter.run_static_method("T", "m0", &[]), Ok(JRTVar::Int(5)));
    assert_eq!(interpreter.run_static_method("T", "nope", &[]), Err(JRTError::MethodNotFound));
    assert_eq!(interpreter.state(), RunState::Returned(JRTVar::Int(5)));
    assert_eq!(interpreter.pc(), 1);
}

#[test]
fn a_class_registered_later_takes_the_name_over() {
    let mut interpreter = Interpreter::new();
    interpreter.insert_class(it_class("T", &[Some(&[0x04, 0xAC])]));
    interpreter.insert_class(it_class("U", &[Some(&[0x05, 0xAC])]));
    interpreter.insert_class(it_class("T", &[Some(&[0x06, 0xAC])]));
    assert_eq!(interpreter.classes().len(), 3);
    assert_eq!(interpreter.classes().find_class("T"), Some(2));
    assert_eq!(interpreter.classes().find_class("U"), Some(1));
    assert_eq!(interpreter.classes().find_class("V"), None);
    assert_eq!(interpreter.run_static_method("T", "m0", &[]), Ok(JRTVar::Int(3)));
    assert_eq!(interpreter.run_static_method("U", "m0", &[]), Ok(JRTVar::Int(2)));
}

#[test]
fn registry_keeps_classes_in_order() {
    let registry = ClassRegistry::new();
    assert_eq!(registry.len(), 0);
    assert!(registry.get(0).is_none());
    let registry = registry.with_class(it_class("A", &[])).with_class(it_class("B", &[]));
    assert_eq!(registry.len(), 2);
    let first = registry.get(0).unwrap();
    assert_eq!(first.constant_pool.get_class_name(first.this_class), Some("A"));
    let second = registry.get(1).unwrap();
    assert_eq!(second.constant_pool.get_class_name(second.this_class), Some("B"));
    assert!(registry.get(2).is_none());
    assert_eq!(registry.find_class("A"), Some(0));
    assert_eq!(registry.find_class("B"), Some(1));
    assert_eq!(registry.find_class("a"), None);
}

#[test]
fn arguments_do_not_change_the_result() {
    let mut interpreter = Interpreter::new();
    interpreter.insert_class(it_class("T", &[Some(&[0x07, 0x08, 0x68, 0xAC])]));
    let a = interpreter.run_static_method("T", "m0", &[]);
    let b = interpreter.run_static_method("T", "m0", &[JRTVar::Int(9), JRTVar::Long(1)]);
    let c = interpreter.run_static_method("T", "m0", &[]);
    assert_eq!(a, Ok(JRTVar::Int(20)));
    assert_eq!(a, b);
    assert_eq!(a, c);
}

#[test]
fn a_new_interpreter_has_no_class_to_run_in() {
    let mut interpreter = Interpreter::new();
    assert_eq!(interpreter.state(), RunState::Init);
    assert_eq!(interpreter.pc(), 0);
    assert_eq!(interpreter.stack().len(), 0);
    assert_eq!(interpreter.run(), Err(JRTError::MalformedCode));
    assert_eq!(interpreter.state(), RunState::Faulted(JRTError::MalformedCode));
}

#[test]
fn loading_sets_up_a_fresh_frame() {
    let mut interpreter = Interpreter::new();
    interpreter.insert_class(it_class("T", &[Some(&[0x04, 0x05, 0xB1]), None]));
    assert_eq!(interpreter.run_static_method("T", "m0", &[]), Ok(JRTVar::Void));
    assert_eq!(interpreter.stack().len(), 2);
    assert_eq!(interpreter.load_method("T", "m0"), Ok(()));
    assert_eq!(interpreter.state(), RunState::Init);
    assert_eq!(interpreter.pc(), 0);
    assert_eq!(interpreter.stack().len(), 0);
    assert_eq!(interpreter.load_method("X", "m0"), Err(JRTError::ClassNotFound));
    assert_eq!(interpreter.load_method("T", "m9"), Err(JRTError::MethodNotFound));
    assert_eq!(interpreter.load_method("T", "m1"), Err(JRTError::MethodHasNoCode));
    assert_eq!(interpreter.state(), RunState::Init);
}

#[test]
fn init_executing_returned() {
    let mut interpreter = Interpreter::new();
    interpreter.insert_class(it_class("T", &[Some(&[0x00, 0x08, 0xAC])]));
    assert_eq!(interpreter.load_method("T", "m0"), Ok(()));
    assert_eq!(interpreter.state(), RunState::Init);
    assert_eq!(interpreter.step(), RunState::Executing);
    assert_eq!(interpreter.pc(), 1);
    assert_eq!(interpreter.step(), RunState::Executing);
    assert_eq!(interpreter.pc(), 2);
    assert_eq!(it_contents(interpreter.stack()), vec![JRTVar::Int(5)]);
    assert_eq!(interpreter.step(), RunState::Returned(JRTVar::Int(5)));
    assert_eq!(interpreter.state(), RunState::Returned(JRTVar::Int(5)));
    assert_eq!(interpreter.pc(), 2);
    assert_eq!(interpreter.stack().len(), 0);
}

#[test]
fn init_faulted() {
    let mut interpreter = Interpreter::new();
    interpreter.insert_class(it_class("T", &[Some(&[0xFE, 0xB1])]));
    assert_eq!(interpreter.load_method("T", "m0"), Ok(()));
    assert_eq!(interpreter.step(), RunState::Faulted(JRTError::UnsupportedOpcode(0xFE)));
    assert_eq!(interpreter.step(), RunState::Faulted(JRTError::UnsupportedOpcode(0xFE)));
    assert_eq!(interpreter.pc(), 0);
    assert_eq!(interpreter.run(), Err(JRTError::UnsupportedOpcode(0xFE)));
}

#[test]
fn stepping_walks_through_the_states() {
    let mut interpreter = Interpreter::new();
    interpreter.insert_class(it_class("T", &[Some(&[0xB1])]));
    assert_eq!(interpreter.run_static_method("T", "m0", &[]), Ok(JRTVar::Void));
    // a stopped frame stays stopped
    assert_eq!(interpreter.step(), RunState::Returned(JRTVar::Void));
    assert_eq!(interpreter.run(), Ok(JRTVar::Void));
    assert_eq!(interpreter.pc(), 0);
    let mut fresh = Interpreter::new();
    assert_eq!(fresh.step(), RunState::Faulted(JRTError::MalformedCode));
    assert_eq!(fresh.step(), RunState::Faulted(JRTError::MalformedCode));
    assert_eq!(fresh.run(), Err(JRTError::MalformedCode));
}

#[test]
fn execute_goes_on_behind_the_operands() {
    let code = [0x00u8, 0x10, 0x05, 0x11, 0x01, 0x00, 0xB1];
    let mut stack = Stack::new();
    assert_eq!(execute(&code, 0, &mut stack, None), Step::Continue(1));
    assert_eq!(execute(&code, 1, &mut stack, None), Step::Continue(3));
    assert_eq!(execute(&code, 3, &mut stack, None), Step::Continue(6));
    assert_eq!(it_contents(&stack), vec![JRTVar::Int(5), JRTVar::Int(256)]);
    assert_eq!(execute(&code, 6, &mut stack, None), Step::Return(JRTVar::Void));
    assert_eq!(execute(&code, 7, &mut stack, None), Step::Fault(JRTError::MalformedCode));
    assert_eq!(execute(&code, usize::MAX, &mut stack, None), Step::Fault(JRTError::MalformedCode));
    assert_eq!(stack.len(), 2);
}

#[test]
fn execute_resolves_constants_through_the_given_pool() {
    let pool = ConstantPool::new(vec![
        ConstantPoolEntry::Integer(-7),
        ConstantPoolEntry::Utf8(String::from("x")),
    ]);
    let code = [0x12u8, 0, 1, 0x13, 0, 2, 0x14, 0, 3];
    let mut stack = Stack::new();
    assert_eq!(execute(&code, 0, &mut stack, Some(&pool)), Step::Continue(3));
    assert_eq!(it_contents(&stack), vec![JRTVar::Int(-7)]);
    assert_eq!(
        execute(&code, 3, &mut stack, Some(&pool)),
        Step::Fault(JRTError::UnsupportedOpcode(0x13))
    );
    assert_eq!(
        execute(&code, 6, &mut stack, Some(&pool)),
        Step::Fault(JRTError::InvalidConstantPoolReference)
    );
    // without a class there is no pool to resolve through
    assert_eq!(execute(&code, 0, &mut stack, None), Step::Fault(JRTError::ClassNotFound));
    assert_eq!(it_contents(&stack), vec![JRTVar::Int(-7)]);
}

#[test]
fn execute_returns_objects_with_areturn() {
    let object = JRTVar::Object(JRTObject {});
    let mut stack = it_stack(&[JRTVar::Int(1), object]);
    assert_eq!(execute(&[0xB0], 0, &mut stack, None), Step::Return(object));
    assert_eq!(it_contents(&stack), vec![JRTVar::Int(1)]);
    assert_eq!(execute(&[0xB0], 0, &mut stack, None), Step::Fault(JRTError::MalformedCode));
    assert_eq!(it_contents(&stack), vec![JRTVar::Int(1)]);
}

#[test]
fn stack_pushes_pops_and_peeks() {
    let mut stack = Stack::new();
    assert_eq!(stack.len(), 0);
    assert_eq!(stack.pop(), None);
    assert_eq!(stack.peek(0), None);
    stack.push(JRTVar::Int(1));
    stack.push(JRTVar::Long(2));
    assert_eq!(stack.len(), 2);
    assert_eq!(stack.peek(0), Some(JRTVar::Long(2)));
    assert_eq!(stack.peek(1), Some(JRTVar::Int(1)));
    assert_eq!(stack.peek(2), None);
    assert_eq!(stack.pop(), Some(JRTVar::Long(2)));
    assert_eq!(stack.pop(), Some(JRTVar::Int(1)));
    assert_eq!(stack.pop(), None);
}
