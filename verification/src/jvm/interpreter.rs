//! The interpreter: a registry of loaded classes and one frame that runs the
//! code of a method, instruction by instruction, on an operand stack.

use self::jvm_opcodes::{
    ARETURN, BIPUSH, DCONST_0, DCONST_1, DRETURN, FCONST_0, FCONST_1, FCONST_2, FRETURN,
    GETSTATIC, IADD, ICONST_5, ICONST_M1, IMUL, INEG, IRETURN, ISUB, LADD, LCMP, LCONST_0,
    LCONST_1, LDC, LDC2_W, LDC_W, LMUL, LNEG, LRETURN, LSUB, NOP, RETURN, SIPUSH,
};
use super::class::attribute::{first_code, spec_first_code};
use super::class::constant::{
    spec_class_name, spec_get, ConstantPool, ConstantPoolEntry, ConstantPoolEntryView,
};
use super::class::{be16, has_bytes, spec_method_index, views, Class, ClassView};
use vstd::prelude::*;

pub mod jvm_opcodes;

verus! {

/// An object on the heap. The heap is not modelled yet, so an object carries
/// nothing.
#[derive(Debug, Clone, Copy, PartialEq, Eq, Structural)]
pub struct JRTObject {}

/// A value at run time. `Float` and `Double` hold the IEEE 754 bit pattern
/// of their number.
#[derive(Debug, Clone, Copy, PartialEq, Eq, Structural)]
pub enum JRTVar {
    Void,
    Int(i32),
    Long(i64),
    Float(u32),
    Double(u64),
    Object(JRTObject),
}

/// Why an invocation stopped without a result. Every kind ends the
/// invocation for good.
#[derive(Debug, Clone, Copy, PartialEq, Eq, Structural)]
pub enum JRTError {
    /// No class of that name is registered, or the frame has no class.
    ClassNotFound,
    /// The class declares no method of that name.
    MethodNotFound,
    /// The method has no `Code` attribute.
    MethodHasNoCode,
    /// The instruction is not one that this interpreter executes, or it
    /// needs a constant of a kind that takes a heap or static storage.
    UnsupportedOpcode(u8),
    /// A constant-pool index that names no slot, or names a placeholder.
    InvalidConstantPoolReference,
    /// The code breaks the rules of a frame: the program counter left the
    /// code, an operand is cut short by the end of the code, or the stack
    /// does not hold the operands that the instruction takes.
    MalformedCode,
}

/// What executing one instruction leads to.
#[derive(Debug, Clone, Copy, PartialEq, Eq, Structural)]
pub enum Step {
    /// Go on at this program counter.
    Continue(usize),
    /// The method returns this value.
    Return(JRTVar),
    /// The method stops with this error.
    Fault(JRTError),
}

/// The `i32` that is congruent to `x` modulo 2^32.
pub open spec fn wrap_i32(x: int) -> i32 {
    if x % 0x1_0000_0000 >= 0x8000_0000 {
        (x % 0x1_0000_0000 - 0x1_0000_0000) as i32
    } else {
        (x % 0x1_0000_0000) as i32
    }
}

/// The `i64` that is congruent to `x` modulo 2^64.
pub open spec fn wrap_i64(x: int) -> i64 {
    if x % 0x1_0000_0000_0000_0000 >= 0x8000_0000_0000_0000 {
        (x % 0x1_0000_0000_0000_0000 - 0x1_0000_0000_0000_0000) as i64
    } else {
        (x % 0x1_0000_0000_0000_0000) as i64
    }
}

/// The value that an instruction without stack operands pushes, if `op` is
/// one: the small constants, and the one- and two-byte immediates, taken as
/// signed numbers.
pub open spec fn spec_pushed_constant(op: u8, code: Seq<u8>, pc: int) -> Option<(JRTVar, int)> {
    if ICONST_M1 <= op <= ICONST_5 {
        Some((JRTVar::Int((op - 3) as i32), 1))
    } else if op == LCONST_0 {
        Some((JRTVar::Long(0), 1))
    } else if op == LCONST_1 {
        Some((JRTVar::Long(1), 1))
    } else if op == FCONST_0 {
        Some((JRTVar::Float(0), 1))
    } else if op == FCONST_1 {
        Some((JRTVar::Float(0x3F80_0000), 1))
    } else if op == FCONST_2 {
        Some((JRTVar::Float(0x4000_0000), 1))
    } else if op == DCONST_0 {
        Some((JRTVar::Double(0), 1))
    } else if op == DCONST_1 {
        Some((JRTVar::Double(0x3FF0_0000_0000_0000), 1))
    } else if op == BIPUSH && has_bytes(code, pc + 1, 1) {
        Some(
            (
                JRTVar::Int(
                    if code[pc + 1] < 0x80 {
                        code[pc + 1] as i32
                    } else {
                        (code[pc + 1] - 0x100) as i32
                    },
                ),
                2,
            ),
        )
    } else if op == SIPUSH && has_bytes(code, pc + 1, 2) {
        Some(
            (
                JRTVar::Int(
                    if be16(code, pc + 1) < 0x8000 {
                        be16(code, pc + 1) as i32
                    } else {
                        (be16(code, pc + 1) - 0x1_0000) as i32
                    },
                ),
                3,
            ),
        )
    } else {
        None
    }
}

/// Whether `op` loads a constant from the pool of the frame's class.
pub open spec fn is_constant_load(op: u8) -> bool {
    op == LDC || op == LDC_W || op == LDC2_W || op == GETSTATIC
}

/// What loading the constant in slot `index` pushes, or the error: an index
/// without a slot and the placeholder behind a wide entry are bad
/// references; a constant that is no number cannot be loaded by `op`.
pub open spec fn spec_loaded_constant(
    op: u8,
    pool: Seq<ConstantPoolEntryView>,
    index: u16,
) -> Result<JRTVar, JRTError> {
    match spec_get(pool, index) {
        None => Err(JRTError::InvalidConstantPoolReference),
        Some(ConstantPoolEntryView::Empty) => Err(JRTError::InvalidConstantPoolReference),
        Some(ConstantPoolEntryView::Integer(v)) => Ok(JRTVar::Int(v)),
        Some(ConstantPoolEntryView::Float(bits)) => Ok(JRTVar::Float(bits)),
        Some(ConstantPoolEntryView::Long(v)) => Ok(JRTVar::Long(v)),
        Some(ConstantPoolEntryView::Double(bits)) => Ok(JRTVar::Double(bits)),
        Some(_) => Err(JRTError::UnsupportedOpcode(op)),
    }
}

/// Whether `op` takes two operands of one kind and pushes one of that kind.
pub open spec fn is_binary_arithmetic(op: u8) -> bool {
    op == IADD || op == ISUB || op == IMUL || op == LADD || op == LSUB || op == LMUL
}

/// The result of the two-operand instruction `op` on `a` below `b`, where
/// both are of the kind that `op` takes. Sums, differences and products wrap.
pub open spec fn spec_binary(op: u8, a: JRTVar, b: JRTVar) -> Option<JRTVar> {
    match (a, b) {
        (JRTVar::Int(x), JRTVar::Int(y)) => if op == IADD {
            Some(JRTVar::Int(wrap_i32(x + y)))
        } else if op == ISUB {
            Some(JRTVar::Int(wrap_i32(x - y)))
        } else if op == IMUL {
            Some(JRTVar::Int(wrap_i32(x * y)))
        } else {
            None
        },
        (JRTVar::Long(x), JRTVar::Long(y)) => if op == LADD {
            Some(JRTVar::Long(wrap_i64(x + y)))
        } else if op == LSUB {
            Some(JRTVar::Long(wrap_i64(x - y)))
        } else if op == LMUL {
            Some(JRTVar::Long(wrap_i64(x * y)))
        } else if op == LCMP {
            Some(
                JRTVar::Int(
                    if x < y {
                        -1i32
                    } else if x == y {
                        0i32
                    } else {
                        1i32
                    },
                ),
            )
        } else {
            None
        },
        _ => None,
    }
}

/// The result of the one-operand instruction `op` on `a`, where `a` is of
/// the kind that `op` takes. Negation wraps.
pub open spec fn spec_unary(op: u8, a: JRTVar) -> Option<JRTVar> {
    match a {
        JRTVar::Int(x) => if op == INEG {
            Some(JRTVar::Int(wrap_i32(-x)))
        } else {
            None
        },
        JRTVar::Long(x) => if op == LNEG {
            Some(JRTVar::Long(wrap_i64(-x)))
        } else {
            None
        },
        _ => None,
    }
}

/// Whether `op` returns the value on top of the stack, and `v` is of the
/// kind that `op` returns.
pub open spec fn returns_kind(op: u8, v: JRTVar) -> bool {
    ||| op == IRETURN && v is Int
    ||| op == LRETURN && v is Long
    ||| op == FRETURN && v is Float
    ||| op == DRETURN && v is Double
    ||| op == ARETURN && v is Object
}

/// One fetch, decode and execute: what the instruction at `pc` leads to, and
/// the operand stack after it.
///
/// The opcode is fetched at `pc` and its operand bytes are read behind it.
/// An instruction that goes on leaves the counter behind its last operand
/// byte. A fault leaves the stack as it was.
pub open spec fn spec_execute(
    code: Seq<u8>,
    pc: usize,
    stack: Seq<JRTVar>,
    pool: Option<Seq<ConstantPoolEntryView>>,
) -> (Step, Seq<JRTVar>) {
    if pc >= code.len() {
        (Step::Fault(JRTError::MalformedCode), stack)
    } else {
        let op = code[pc as int];
        if op == NOP {
            (Step::Continue((pc + 1) as usize), stack)
        } else if spec_pushed_constant(op, code, pc as int) is Some {
            let (value, width) = spec_pushed_constant(op, code, pc as int)->0;
            (Step::Continue((pc + width) as usize), stack.push(value))
        } else if op == BIPUSH || op == SIPUSH {
            (Step::Fault(JRTError::MalformedCode), stack)
        } else if is_constant_load(op) {
            if !has_bytes(code, pc + 1, 2) {
                (Step::Fault(JRTError::MalformedCode), stack)
            } else {
                match pool {
                    None => (Step::Fault(JRTError::ClassNotFound), stack),
                    Some(pool) => match spec_loaded_constant(
                        op,
                        pool,
                        be16(code, pc + 1) as u16,
                    ) {
                        Ok(value) => (Step::Continue((pc + 3) as usize), stack.push(value)),
                        Err(e) => (Step::Fault(e), stack),
                    },
                }
            }
        } else if is_binary_arithmetic(op) || op == LCMP {
            if stack.len() >= 2 && spec_binary(op, stack[stack.len() - 2], stack.last()) is Some {
                (
                    Step::Continue((pc + 1) as usize),
                    stack.drop_last().drop_last().push(
                        spec_binary(op, stack[stack.len() - 2], stack.last())->0,
                    ),
                )
            } else {
                (Step::Fault(JRTError::MalformedCode), stack)
            }
        } else if op == INEG || op == LNEG {
            if stack.len() >= 1 && spec_unary(op, stack.last()) is Some {
                (
                    Step::Continue((pc + 1) as usize),
                    stack.drop_last().push(spec_unary(op, stack.last())->0),
                )
            } else {
                (Step::Fault(JRTError::MalformedCode), stack)
            }
        } else if op == RETURN {
            (Step::Return(JRTVar::Void), stack)
        } else if IRETURN <= op <= ARETURN {
            if stack.len() >= 1 && returns_kind(op, stack.last()) {
                (Step::Return(stack.last()), stack.drop_last())
            } else {
                (Step::Fault(JRTError::MalformedCode), stack)
            }
        } else {
            (Step::Fault(JRTError::UnsupportedOpcode(op)), stack)
        }
    }
}

/// The operand stack of a frame; the last value is the top.
#[derive(Debug, Default)]
pub struct Stack {
    stack: Vec<JRTVar>,
}

impl View for Stack {
    type V = Seq<JRTVar>;

    closed spec fn view(&self) -> Seq<JRTVar> {
        self.stack@
    }
}

impl Stack {
    /// An empty stack.
    pub fn new() -> (stack: Self)
        ensures
            stack@ == Seq::<JRTVar>::empty(),
    {
        Stack { stack: Vec::new() }
    }

    /// How many values the stack holds.
    pub fn len(&self) -> (n: usize)
        ensures
            n == self@.len(),
    {
        self.stack.len()
    }

    /// Puts `value` on top.
    pub fn push(&mut self, value: JRTVar)
        ensures
            final(self)@ == old(self)@.push(value),
    {
        self.stack.push(value);
    }

    /// Takes the top value off, if there is one.
    pub fn pop(&mut self) -> (top: Option<JRTVar>)
        ensures
            match top {
                Some(v) => old(self)@.len() > 0 && v == old(self)@.last() && final(self)@ == old(
                    self,
                )@.drop_last(),
                None => old(self)@.len() == 0 && final(self)@ == old(self)@,
            },
    {
        self.stack.pop()
    }

    /// The value `depth` places below the top, if the stack is that deep.
    pub fn peek(&self, depth: usize) -> (value: Option<JRTVar>)
        ensures
            value == (if depth < self@.len() {
                Some(self@[self@.len() - 1 - depth])
            } else {
                None
            }),
    {
        if depth < self.stack.len() {
            Some(self.stack[self.stack.len() - 1 - depth])
        } else {
            None
        }
    }
}

/// The entries of the pool, if there is a pool.
pub open spec fn pool_view(pool: Option<&ConstantPool>) -> Option<Seq<ConstantPoolEntryView>> {
    match pool {
        Some(p) => Some(p@),
        None => None,
    }
}

/// The value that loading the constant in slot `index` pushes, or the error.
fn load_constant(op: u8, pool: &ConstantPool, index: u16) -> (r: Result<JRTVar, JRTError>)
    ensures
        r == spec_loaded_constant(op, pool@, index),
{
    match pool.get_constant(index) {
        None => Err(JRTError::InvalidConstantPoolReference),
        Some(entry) => match entry {
            ConstantPoolEntry::Empty => Err(JRTError::InvalidConstantPoolReference),
            ConstantPoolEntry::Integer(v) => Ok(JRTVar::Int(*v)),
            ConstantPoolEntry::Float(bits) => Ok(JRTVar::Float(*bits)),
            ConstantPoolEntry::Long(v) => Ok(JRTVar::Long(*v)),
            ConstantPoolEntry::Double(bits) => Ok(JRTVar::Double(*bits)),
            _ => Err(JRTError::UnsupportedOpcode(op)),
        },
    }
}

/// The result of a two-operand instruction on `a` below `b`, if both are of
/// the kind that it takes.
fn binary(op: u8, a: JRTVar, b: JRTVar) -> (r: Option<JRTVar>)
    ensures
        r == spec_binary(op, a, b),
{
    match (a, b) {
        (JRTVar::Int(x), JRTVar::Int(y)) => {
            if op == IADD {
                Some(JRTVar::Int(x.wrapping_add(y)))
            } else if op == ISUB {
                Some(JRTVar::Int(x.wrapping_sub(y)))
            } else if op == IMUL {
                Some(JRTVar::Int(x.wrapping_mul(y)))
            } else {
                None
            }
        },
        (JRTVar::Long(x), JRTVar::Long(y)) => {
            if op == LADD {
                Some(JRTVar::Long(x.wrapping_add(y)))
            } else if op == LSUB {
                Some(JRTVar::Long(x.wrapping_sub(y)))
            } else if op == LMUL {
                Some(JRTVar::Long(x.wrapping_mul(y)))
            } else if op == LCMP {
                Some(
                    JRTVar::Int(
                        if x < y {
                            -1
                        } else if x == y {
                            0
                        } else {
                            1
                        },
                    ),
                )
            } else {
                None
            }
        },
        _ => None,
    }
}

/// The result of a one-operand instruction on `a`, if `a` is of the kind
/// that it takes.
fn unary(op: u8, a: JRTVar) -> (r: Option<JRTVar>)
    ensures
        r == spec_unary(op, a),
{
    match a {
        JRTVar::Int(x) => {
            if op == INEG {
                let zero: i32 = 0;
                Some(JRTVar::Int(zero.wrapping_sub(x)))
            } else {
                None
            }
        },
        JRTVar::Long(x) => {
            if op == LNEG {
                let zero: i64 = 0;
                Some(JRTVar::Long(zero.wrapping_sub(x)))
            } else {
                None
            }
        },
        _ => None,
    }
}

/// Whether `op` returns a value of the kind of `v`.
fn returns_value(op: u8, v: JRTVar) -> (r: bool)
    ensures
        r == returns_kind(op, v),
{
    match v {
        JRTVar::Int(_) => op == IRETURN,
        JRTVar::Long(_) => op == LRETURN,
        JRTVar::Float(_) => op == FRETURN,
        JRTVar::Double(_) => op == DRETURN,
        JRTVar::Object(_) => op == ARETURN,
        JRTVar::Void => false,
    }
}

/// The value that an instruction without stack operands pushes, and how many
/// bytes the instruction takes.
fn pushed_constant(op: u8, code: &[u8], pc: usize) -> (r: Option<(JRTVar, usize)>)
    requires
        pc < code@.len(),
    ensures
        match r {
            Some((value, width)) => spec_pushed_constant(op, code@, pc as int) == Some(
                (value, width as int),
            ),
            None => spec_pushed_constant(op, code@, pc as int) is None,
        },
{
    if ICONST_M1 <= op && op <= ICONST_5 {
        Some((JRTVar::Int(op as i32 - 3), 1))
    } else if op == LCONST_0 {
        Some((JRTVar::Long(0), 1))
    } else if op == LCONST_1 {
        Some((JRTVar::Long(1), 1))
    } else if op == FCONST_0 {
        Some((JRTVar::Float(0), 1))
    } else if op == FCONST_1 {
        Some((JRTVar::Float(0x3F80_0000), 1))
    } else if op == FCONST_2 {
        Some((JRTVar::Float(0x4000_0000), 1))
    } else if op == DCONST_0 {
        Some((JRTVar::Double(0), 1))
    } else if op == DCONST_1 {
        Some((JRTVar::Double(0x3FF0_0000_0000_0000), 1))
    } else if op == BIPUSH && code.len() - pc > 1 {
        let b: u8 = code[pc + 1];
        let v: i32 = if b < 0x80 {
            b as i32
        } else {
            b as i32 - 0x100
        };
        Some((JRTVar::Int(v), 2))
    } else if op == SIPUSH && code.len() - pc > 2 {
        let u: i32 = code[pc + 1] as i32 * 0x100 + code[pc + 2] as i32;
        let v: i32 = if u < 0x8000 {
            u
        } else {
            u - 0x1_0000
        };
        Some((JRTVar::Int(v), 3))
    } else {
        None
    }
}

/// Executes the instruction at `pc` of `code` on `stack`, with the constants
/// of `pool`: one fetch, decode and execute.
pub fn execute(code: &[u8], pc: usize, stack: &mut Stack, pool: Option<&ConstantPool>) -> (step:
    Step)
    ensures
        (step, final(stack)@) == spec_execute(code@, pc, old(stack)@, pool_view(pool)),
{
    if pc >= code.len() {
        return Step::Fault(JRTError::MalformedCode);
    }
    let op: u8 = code[pc];
    if op == NOP {
        return Step::Continue(pc + 1);
    }
    if let Some((value, width)) = pushed_constant(op, code, pc) {
        stack.push(value);
        return Step::Continue(pc + width);
    }
    if op == BIPUSH || op == SIPUSH {
        return Step::Fault(JRTError::MalformedCode);
    }
    if op == LDC || op == LDC_W || op == LDC2_W || op == GETSTATIC {
        if code.len() - pc < 3 {
            return Step::Fault(JRTError::MalformedCode);
        }
        let index: u16 = code[pc + 1] as u16 * 0x100 + code[pc + 2] as u16;
        return match pool {
            None => Step::Fault(JRTError::ClassNotFound),
            Some(pool) => match load_constant(op, pool, index) {
                Ok(value) => {
                    stack.push(value);
                    Step::Continue(pc + 3)
                },
                Err(e) => Step::Fault(e),
            },
        };
    }
    if op == IADD || op == ISUB || op == IMUL || op == LADD || op == LSUB || op == LMUL || op
        == LCMP {
        let n: usize = stack.stack.len();
        if n >= 2 {
            if let Some(value) = binary(op, stack.stack[n - 2], stack.stack[n - 1]) {
                stack.stack.pop();
                stack.stack.pop();
                stack.stack.push(value);
                return Step::Continue(pc + 1);
            }
        }
        return Step::Fault(JRTError::MalformedCode);
    }
    if op == INEG || op == LNEG {
        let n: usize = stack.stack.len();
        if n >= 1 {
            if let Some(value) = unary(op, stack.stack[n - 1]) {
                stack.stack.pop();
                stack.stack.push(value);
                return Step::Continue(pc + 1);
            }
        }
        return Step::Fault(JRTError::MalformedCode);
    }
    if op == RETURN {
        return Step::Return(JRTVar::Void);
    }
    if IRETURN <= op && op <= ARETURN {
        let n: usize = stack.stack.len();
        if n >= 1 {
            let top: JRTVar = stack.stack[n - 1];
            if returns_value(op, top) {
                stack.stack.pop();
                return Step::Return(top);
            }
        }
        return Step::Fault(JRTError::MalformedCode);
    }
    Step::Fault(JRTError::UnsupportedOpcode(op))
}

/// Where the frame stands: `Init` until the first instruction is fetched,
/// `Executing` while instructions go on, and then `Returned` or `Faulted`
/// for good.
#[derive(Debug, Clone, Copy, PartialEq, Eq, Structural, Default)]
pub enum RunState {
    #[default]
    Init,
    Executing,
    Returned(JRTVar),
    Faulted(JRTError),
}

/// The code of the frame: the bytes, the program counter and the index of
/// the class that the code belongs to.
#[derive(Debug, Default)]
pub struct Code {
    pc: usize,
    method_class: usize,
    raw: Vec<u8>,
}

/// The heap. Objects are not modelled yet, so it holds nothing.
#[derive(Debug, Default)]
pub struct Heap {}

/// The loaded classes, each kept with the name that was resolved for it
/// when it was registered.
#[derive(Debug, Default)]
pub struct ClassRegistry {
    class_list: Vec<Class>,
    class_names: Vec<String>,
}

/// The registry of loaded classes together with the one frame that runs.
#[derive(Debug, Default)]
pub struct Interpreter {
    classes: ClassRegistry,
    stack: Stack,
    heap: Heap,
    code: Code,
    state: RunState,
}

/// The mathematical value of an [`Interpreter`]: the registered classes in
/// the order of their registration, and the frame.
pub struct InterpreterView {
    pub classes: Seq<ClassView>,
    pub code: Seq<u8>,
    pub pc: usize,
    pub method_class: usize,
    pub stack: Seq<JRTVar>,
    pub state: RunState,
}

/// The name under which a class is registered: the name that its pool gives
/// for `this_class`.
pub open spec fn class_name(class: ClassView) -> Option<Seq<char>> {
    spec_class_name(class.constant_pool, class.this_class)
}

/// The index of the class registered last as `name` among the first `upto`
/// classes.
pub open spec fn spec_class_index_upto(classes: Seq<ClassView>, name: Seq<char>, upto: int) -> Option<
    int,
>
    decreases upto,
{
    if upto <= 0 || upto > classes.len() {
        None
    } else if class_name(classes[upto - 1]) == Some(name) {
        Some(upto - 1)
    } else {
        spec_class_index_upto(classes, name, upto - 1)
    }
}

/// The index of the class that `name` stands for: of the classes registered
/// under that name, the one registered last.
pub open spec fn spec_find_class(classes: Seq<ClassView>, name: Seq<char>) -> Option<int> {
    spec_class_index_upto(classes, name, classes.len() as int)
}

/// The code of the method `name` of `class`: that of the first `Code`
/// attribute of the first method that the class declares under that name.
pub open spec fn spec_method_code(class: ClassView, name: Seq<char>) -> Result<Seq<u8>, JRTError> {
    match spec_method_index(class, name) {
        None => Err(JRTError::MethodNotFound),
        Some(i) => match spec_first_code(class.method_info[i].attributes) {
            None => Err(JRTError::MethodHasNoCode),
            Some(code) => Ok(code),
        },
    }
}

/// The interpreter with a fresh frame for the method `method` of the class
/// `class`: the method's code, the counter at 0, an empty stack, state
/// `Init`. The registry stays as it is.
pub open spec fn spec_load(m: InterpreterView, class: Seq<char>, method: Seq<char>) -> Result<
    InterpreterView,
    JRTError,
> {
    match spec_find_class(m.classes, class) {
        None => Err(JRTError::ClassNotFound),
        Some(i) => match spec_method_code(m.classes[i], method) {
            Err(e) => Err(e),
            Ok(code) => Ok(
                InterpreterView {
                    classes: m.classes,
                    code,
                    pc: 0,
                    method_class: i as usize,
                    stack: Seq::empty(),
                    state: RunState::Init,
                },
            ),
        },
    }
}

/// Whether the frame has stopped for good.
pub open spec fn is_terminal(state: RunState) -> bool {
    state is Returned || state is Faulted
}

/// The pool that the frame resolves constants through: that of the class
/// that the code belongs to, if the registry holds it.
pub open spec fn owning_pool(m: InterpreterView) -> Option<Seq<ConstantPoolEntryView>> {
    if m.method_class < m.classes.len() {
        Some(m.classes[m.method_class as int].constant_pool)
    } else {
        None
    }
}

/// The interpreter after one step. A frame that has stopped stays as it is.
/// Otherwise the instruction at the counter is executed: the frame goes on
/// in state `Executing`, or stops in `Returned` or in `Faulted`, where the
/// counter stays at the instruction.
pub open spec fn spec_step(m: InterpreterView) -> InterpreterView {
    if is_terminal(m.state) {
        m
    } else {
        let (step, stack) = spec_execute(m.code, m.pc, m.stack, owning_pool(m));
        match step {
            Step::Continue(pc) => InterpreterView { pc, stack, state: RunState::Executing, ..m },
            Step::Return(value) => InterpreterView { stack, state: RunState::Returned(value), ..m },
            Step::Fault(e) => InterpreterView { stack, state: RunState::Faulted(e), ..m },
        }
    }
}

/// A bound on the steps that the frame can still take.
pub open spec fn steps_left(m: InterpreterView) -> nat {
    if is_terminal(m.state) {
        0
    } else if m.pc >= m.code.len() {
        1
    } else {
        (m.code.len() - m.pc + 1) as nat
    }
}

/// The interpreter after running the frame until it stops.
pub open spec fn spec_run(m: InterpreterView) -> InterpreterView
    decreases steps_left(m),
{
    if is_terminal(m.state) {
        m
    } else if steps_left(spec_step(m)) < steps_left(m) {
        spec_run(spec_step(m))
    } else {
        m
    }
}

/// Every step of a frame that has not stopped brings it closer to stopping:
/// an instruction that goes on moves the counter forward and keeps it in
/// the code or at its end.
pub proof fn lemma_step_progress(m: InterpreterView)
    requires
        !is_terminal(m.state),
        m.code.len() <= usize::MAX,
    ensures
        steps_left(spec_step(m)) < steps_left(m),
        spec_run(m) == spec_run(spec_step(m)),
        spec_step(m).code == m.code,
{
}

/// Running always ends in `Returned` or `Faulted`, and leaves the registry
/// and the code as they were.
pub proof fn lemma_run_stops(m: InterpreterView)
    requires
        m.code.len() <= usize::MAX,
    ensures
        is_terminal(spec_run(m).state),
        spec_run(m).classes == m.classes,
        spec_run(m).code == m.code,
        spec_run(m).method_class == m.method_class,
    decreases steps_left(m),
{
    if !is_terminal(m.state) {
        lemma_step_progress(m);
        lemma_run_stops(spec_step(m));
    }
}

/// Whether `op` is an instruction that this interpreter executes.
pub open spec fn is_executed(op: u8) -> bool {
    ||| op == NOP
    ||| ICONST_M1 <= op <= SIPUSH
    ||| is_constant_load(op)
    ||| is_binary_arithmetic(op)
    ||| op == LCMP
    ||| op == INEG
    ||| op == LNEG
    ||| IRETURN <= op <= RETURN
}

/// A frame that stands at `return` stops there: it ends in `Returned` with
/// `Void`, and its stack and its counter stay as they were.
pub proof fn lemma_return_gives_void(m: InterpreterView)
    requires
        !is_terminal(m.state),
        m.pc < m.code.len() <= usize::MAX,
        m.code[m.pc as int] == RETURN,
    ensures
        spec_run(m) == (InterpreterView { state: RunState::Returned(JRTVar::Void), ..m }),
{
    lemma_step_progress(m);
    assert(spec_run(spec_step(m)) == spec_step(m));
}

/// A frame that stands at a byte that is no executed instruction stops
/// there: it ends in `Faulted` with `UnsupportedOpcode` of that byte, and
/// nothing behind the byte is executed.
pub proof fn lemma_unsupported_opcode_faults(m: InterpreterView)
    requires
        !is_terminal(m.state),
        m.pc < m.code.len() <= usize::MAX,
        !is_executed(m.code[m.pc as int]),
    ensures
        spec_run(m) == (InterpreterView {
            state: RunState::Faulted(JRTError::UnsupportedOpcode(m.code[m.pc as int])),
            ..m
        }),
{
    lemma_step_progress(m);
    assert(spec_run(spec_step(m)) == spec_step(m));
}

impl View for ClassRegistry {
    type V = Seq<ClassView>;

    closed spec fn view(&self) -> Seq<ClassView> {
        views(self.class_list@)
    }
}

impl ClassRegistry {
    #[verifier::type_invariant]
    spec fn names_resolved(self) -> bool {
        &&& self.class_names@.len() == self.class_list@.len()
        &&& forall|i: int|
            0 <= i < self.class_list@.len() ==> class_name(self.class_list@[i]@) == Some(
                (#[trigger] self.class_names@[i])@,
            )
    }

    /// A registry without classes.
    pub fn new() -> (registry: Self)
        ensures
            registry@ == Seq::<ClassView>::empty(),
    {
        let registry = ClassRegistry { class_list: Vec::new(), class_names: Vec::new() };
        assert(views(registry.class_list@) =~= Seq::empty());
        registry
    }

    /// This registry with `class` added under the name that its pool gives
    /// for `this_class`, resolved here once.
    pub fn with_class(self, class: Class) -> (registry: Self)
        requires
            class_name(class@) is Some,
        ensures
            registry@ == self@.push(class@),
    {
        proof {
            use_type_invariant(&self);
        }
        let name: String = match class.constant_pool.get_class_name(class.this_class) {
            Some(name) => name.to_owned(),
            None => String::new(),
        };
        let ghost before = views(self.class_list@);
        let ClassRegistry { class_list, class_names } = self;
        let mut class_list: Vec<Class> = class_list;
        let mut class_names: Vec<String> = class_names;
        class_names.push(name);
        class_list.push(class);
        assert(views(class_list@) =~= before.push(class@));
        ClassRegistry { class_list, class_names }
    }

    /// How many classes are registered.
    pub fn len(&self) -> (n: usize)
        ensures
            n == self@.len(),
    {
        self.class_list.len()
    }

    /// The class registered as number `index`.
    pub fn get(&self, index: usize) -> (r: Option<&Class>)
        ensures
            match r {
                Some(class) => index < self@.len() && class@ == self@[index as int],
                None => index >= self@.len(),
            },
    {
        if index < self.class_list.len() {
            Some(&self.class_list[index])
        } else {
            None
        }
    }

    /// The index of the class that `name` stands for: of the classes
    /// registered under that name, the one registered last.
    pub fn find_class(&self, name: &str) -> (r: Option<usize>)
        ensures
            match r {
                Some(i) => spec_find_class(self@, name@) == Some(i as int) && i < self@.len(),
                None => spec_find_class(self@, name@) is None,
            },
    {
        proof {
            use_type_invariant(self);
        }
        let mut i: usize = self.class_names.len();
        while i > 0
            invariant
                i <= self.class_names@.len(),
                self.class_names@.len() == self.class_list@.len(),
                forall|k: int|
                    0 <= k < self.class_list@.len() ==> class_name(self.class_list@[k]@) == Some(
                        (#[trigger] self.class_names@[k])@,
                    ),
                spec_find_class(self@, name@) == spec_class_index_upto(self@, name@, i as int),
            decreases i,
        {
            i = i - 1;
            if self.class_names[i].as_str().eq(name) {
                return Some(i);
            }
        }
        None
    }
}

impl View for Interpreter {
    type V = InterpreterView;

    closed spec fn view(&self) -> InterpreterView {
        InterpreterView {
            classes: self.classes@,
            code: self.code.raw@,
            pc: self.code.pc,
            method_class: self.code.method_class,
            stack: self.stack@,
            state: self.state,
        }
    }
}

impl Interpreter {
    /// An interpreter without classes, with an empty frame in state `Init`.
    pub fn new() -> (interpreter: Self)
        ensures
            interpreter@ == (InterpreterView {
                classes: Seq::empty(),
                code: Seq::empty(),
                pc: 0,
                method_class: 0,
                stack: Seq::empty(),
                state: RunState::Init,
            }),
    {
        Interpreter {
            classes: ClassRegistry::new(),
            stack: Stack::new(),
            heap: Heap {  },
            code: Code { pc: 0, method_class: 0, raw: Vec::new() },
            state: RunState::Init,
        }
    }

    /// Registers `class` under the name that its pool gives for
    /// `this_class`. A class registered later under the same name takes the
    /// name over. The frame is not touched.
    pub fn insert_class(&mut self, class: Class)
        requires
            class_name(class@) is Some,
        ensures
            final(self)@ == (InterpreterView {
                classes: old(self)@.classes.push(class@),
                ..old(self)@
            }),
    {
        let mut classes: ClassRegistry = ClassRegistry::new();
        core::mem::swap(&mut classes, &mut self.classes);
        self.classes = classes.with_class(class);
    }

    /// The registry of this interpreter.
    pub fn classes(&self) -> (classes: &ClassRegistry)
        ensures
            classes@ == self@.classes,
    {
        &self.classes
    }

    /// Gives the frame the code of the method `method_name` of the class
    /// `class`: the counter at 0, an empty stack, state `Init`.
    ///
    /// The class is the one registered last under that name; only the methods
    /// that it declares itself are looked at, and the code is that of the
    /// method's first `Code` attribute. Where the class, the method or its
    /// code is missing, the interpreter is left as it was.
    pub fn load_method(&mut self, class: &str, method_name: &str) -> (r: Result<(), JRTError>)
        ensures
            match spec_load(old(self)@, class@, method_name@) {
                Err(e) => r == Err::<(), _>(e) && final(self)@ == old(self)@,
                Ok(loaded) => r == Ok::<(), JRTError>(()) && final(self)@ == loaded,
            },
    {
        let class_iid: usize = match self.classes.find_class(class) {
            Some(i) => i,
            None => { return Err(JRTError::ClassNotFound); },
        };
        let class_ref: &Class = match self.classes.get(class_iid) {
            Some(c) => c,
            None => { return Err(JRTError::ClassNotFound); },
        };
        let method_index: usize = match class_ref.method_entry_index_from_name(method_name) {
            Some(i) => i,
            None => { return Err(JRTError::MethodNotFound); },
        };
        let code: &Vec<u8> = match first_code(&class_ref.method_info[method_index].attributes) {
            Some(code) => code,
            None => { return Err(JRTError::MethodHasNoCode); },
        };
        let mut raw: Vec<u8> = Vec::new();
        let mut i: usize = 0;
        while i < code.len()
            invariant
                i <= code@.len(),
                raw@ == code@.subrange(0, i as int),
            decreases code@.len() - i,
        {
            raw.push(code[i]);
            i = i + 1;
        }
        assert(raw@ =~= code@);
        self.code = Code { pc: 0, method_class: class_iid, raw };
        self.stack = Stack::new();
        self.state = RunState::Init;
        Ok(())
    }

    /// Loads the method `method_name` of the class `class` into the frame
    /// and runs it until it stops.
    ///
    /// The frame has no local variables yet, so `arguments` is not read.
    /// Where the class, the method or its code is missing, the interpreter
    /// is left as it was.
    #[allow(unused_variables)]
    pub fn run_static_method(
        &mut self,
        class: &str,
        method_name: &str,
        arguments: &[JRTVar],
    ) -> (r: Result<JRTVar, JRTError>)
        ensures
            match spec_load(old(self)@, class@, method_name@) {
                Err(e) => r == Err::<JRTVar, _>(e) && final(self)@ == old(self)@,
                Ok(loaded) => final(self)@ == spec_run(loaded) && (match final(self)@.state {
                    RunState::Returned(value) => r == Ok::<_, JRTError>(value),
                    RunState::Faulted(e) => r == Err::<JRTVar, _>(e),
                    _ => false,
                }),
            },
    {
        match self.load_method(class, method_name) {
            Ok(()) => self.run(),
            Err(e) => Err(e),
        }
    }

    /// Where the frame stands.
    pub fn state(&self) -> (state: RunState)
        ensures
            state == self@.state,
    {
        self.state
    }

    /// The operand stack of the frame.
    pub fn stack(&self) -> (stack: &Stack)
        ensures
            stack@ == self@.stack,
    {
        &self.stack
    }

    /// The program counter of the frame.
    pub fn pc(&self) -> (pc: usize)
        ensures
            pc == self@.pc,
    {
        self.code.pc
    }

    /// Takes one step: fetches the instruction at the counter, decodes its
    /// operands and executes it. A frame that has stopped stays as it is.
    pub fn step(&mut self) -> (state: RunState)
        ensures
            final(self)@ == spec_step(old(self)@),
            state == final(self)@.state,
    {
        match self.state {
            RunState::Returned(_) => { return self.state; },
            RunState::Faulted(_) => { return self.state; },
            _ => {},
        }
        let pool: Option<&ConstantPool> = match self.classes.get(self.code.method_class) {
            Some(class) => Some(&class.constant_pool),
            None => None,
        };
        let step: Step = execute(self.code.raw.as_slice(), self.code.pc, &mut self.stack, pool);
        match step {
            Step::Continue(pc) => {
                self.code.pc = pc;
                self.state = RunState::Executing;
            },
            Step::Return(value) => {
                self.state = RunState::Returned(value);
            },
            Step::Fault(e) => {
                self.state = RunState::Faulted(e);
            },
        }
        self.state
    }

    /// Runs the frame until it stops, and gives the value that it returned
    /// or the error that it stopped with.
    pub fn run(&mut self) -> (r: Result<JRTVar, JRTError>)
        ensures
            final(self)@ == spec_run(old(self)@),
            match final(self)@.state {
                RunState::Returned(value) => r == Ok::<_, JRTError>(value),
                RunState::Faulted(e) => r == Err::<JRTVar, _>(e),
                _ => false,
            },
    {
        assert(self.code.raw@.len() == self.code.raw.len());
        loop
            invariant
                spec_run(self@) == spec_run(old(self)@),
                self@.code.len() <= usize::MAX,
            decreases steps_left(self@),
        {
            match self.state {
                RunState::Returned(value) => { return Ok(value); },
                RunState::Faulted(e) => { return Err(e); },
                _ => {},
            }
            proof {
                lemma_step_progress(self@);
            }
            self.step();
        }
    }
}

} // verus!
