use vstd::prelude::*;
use crate::bytecode::{Address, BinaryOperation, ByteCode, Closure, Program, Register, UnaryOperation};
use crate::number::{Number, SIGN_MASK};
use crate::position::{Located, Position};
use crate::value::{Function, Value};

verus! {

/// A user-level failure of a running program.
#[derive(Debug)]
pub enum RunTimeError {
    Binary { left: &'static str, right: &'static str },
    Unary { right: &'static str },
    CannotCall(&'static str),
    Custom(String),
}

pub enum ErrorView {
    Binary { left: Seq<char>, right: Seq<char> },
    Unary { right: Seq<char> },
    CannotCall(Seq<char>),
    Custom(Seq<char>),
}

impl View for RunTimeError {
    type V = ErrorView;

    open spec fn view(&self) -> ErrorView {
        match self {
            RunTimeError::Binary { left, right } => ErrorView::Binary { left: left@, right: right@ },
            RunTimeError::Unary { right } => ErrorView::Unary { right: right@ },
            RunTimeError::CannotCall(t) => ErrorView::CannotCall(t@),
            RunTimeError::Custom(m) => ErrorView::Custom(m@),
        }
    }
}

impl RunTimeError {
    /// The message shown to a user.
    pub fn message(&self) -> String {
        match self {
            RunTimeError::Binary { left, right } => {
                let mut s = String::from_str("cannot perform binary operation on ");
                s.append(left);
                s.append(" with ");
                s.append(right);
                s
            },
            RunTimeError::Unary { right } => {
                let mut s = String::from_str("cannot perform unary operation on ");
                s.append(right);
                s
            },
            RunTimeError::CannotCall(t) => {
                let mut s = String::from_str("cannot call ");
                s.append(t);
                s
            },
            RunTimeError::Custom(m) => m.clone(),
        }
    }
}

// ---------------------------------------------------------------------------
// Well-formed bytecode
// ---------------------------------------------------------------------------

/// Every operand of `bc` is in range for unit `c` of a program with `n` templates.
pub open spec fn instr_fits(c: Closure, bc: ByteCode, n: nat) -> bool {
    let regs = c.registers as int;
    match bc {
        ByteCode::Nop => true,
        ByteCode::Jump { addr } => addr < c.code.len(),
        ByteCode::JumpIf { not: _, cond, addr } => cond < regs && addr < c.code.len(),
        ByteCode::Call { func, offset, args_len, dst } => func < regs && offset + args_len <= regs
            && match dst {
            Some(d) => d < regs,
            None => true,
        },
        ByteCode::Return { src } => match src {
            Some(s) => s < regs,
            None => true,
        },
        ByteCode::Move { dst, src } => dst < regs && src < regs,
        ByteCode::String { dst, addr } => dst < regs && addr < c.strings.len(),
        ByteCode::Number { dst, addr } => dst < regs && addr < c.numbers.len(),
        ByteCode::Closure { dst, addr } => dst < regs && addr < c.closures.len() && c.closures@[addr as int] < n,
        ByteCode::Global { dst, addr } => dst < regs && addr < c.strings.len(),
        ByteCode::SetGlobal { addr, src } => addr < c.strings.len() && src < regs,
        ByteCode::Binary { op: _, dst, left, right } => dst < regs && left < regs && right < regs,
        ByteCode::Unary { op: _, dst, src } => dst < regs && src < regs,
    }
}

/// A unit ends in `Return` and every instruction's operands are in range.
pub open spec fn template_wf(c: Closure, n: nat) -> bool {
    &&& 0 < c.code.len() <= crate::bytecode::ADDRESS_LIMIT
    &&& c.code@.last().value is Return
    &&& forall|i: int| 0 <= i < c.code.len() ==> instr_fits(c, #[trigger] c.code@[i].value, n)
}

pub open spec fn program_wf(p: Program) -> bool {
    &&& p.entry < p.templates.len()
    &&& forall|i: int| 0 <= i < p.templates.len() ==> template_wf(#[trigger] p.templates@[i], p.templates.len() as nat)
}

fn instr_ok(c: &Closure, bc: ByteCode, n: usize) -> (r: bool)
    ensures
        r == instr_fits(*c, bc, n as nat),
{
    let regs = c.registers as usize;
    match bc {
        ByteCode::Nop => true,
        ByteCode::Jump { addr } => (addr as usize) < c.code.len(),
        ByteCode::JumpIf { not: _, cond, addr } => (cond as usize) < regs && (addr as usize) < c.code.len(),
        ByteCode::Call { func, offset, args_len, dst } => (func as usize) < regs && offset as usize
            + args_len as usize <= regs && match dst {
            Some(d) => (d as usize) < regs,
            None => true,
        },
        ByteCode::Return { src } => match src {
            Some(s) => (s as usize) < regs,
            None => true,
        },
        ByteCode::Move { dst, src } => (dst as usize) < regs && (src as usize) < regs,
        ByteCode::String { dst, addr } => (dst as usize) < regs && (addr as usize) < c.strings.len(),
        ByteCode::Number { dst, addr } => (dst as usize) < regs && (addr as usize) < c.numbers.len(),
        ByteCode::Closure { dst, addr } => (dst as usize) < regs && (addr as usize) < c.closures.len()
            && (c.closures[addr as usize] as usize) < n,
        ByteCode::Global { dst, addr } => (dst as usize) < regs && (addr as usize) < c.strings.len(),
        ByteCode::SetGlobal { addr, src } => (addr as usize) < c.strings.len() && (src as usize) < regs,
        ByteCode::Binary { op: _, dst, left, right } => (dst as usize) < regs && (left as usize) < regs
            && (right as usize) < regs,
        ByteCode::Unary { op: _, dst, src } => (dst as usize) < regs && (src as usize) < regs,
    }
}

fn template_ok(c: &Closure, n: usize) -> (r: bool)
    ensures
        r == template_wf(*c, n as nat),
{
    let len = c.code.len();
    if len == 0 || len > crate::bytecode::ADDRESS_LIMIT {
        return false;
    }
    if !matches!(c.code[len - 1].value, ByteCode::Return { .. }) {
        return false;
    }
    let mut i: usize = 0;
    while i < len
        invariant
            len == c.code.len(),
            i <= len,
            forall|j: int| 0 <= j < i ==> instr_fits(*c, #[trigger] c.code@[j].value, n as nat),
        decreases len - i,
    {
        if !instr_ok(c, c.code[i].value, n) {
            return false;
        }
        i += 1;
    }
    true
}

impl Program {
    /// Checks that the program can be run: its entry exists, every unit ends in
    /// `Return`, and every register, pool address, jump target and template id
    /// is in range.
    pub fn validate(&self) -> (r: bool)
        ensures
            r == program_wf(*self),
    {
        if (self.entry as usize) >= self.templates.len() {
            return false;
        }
        let n = self.templates.len();
        let mut i: usize = 0;
        while i < n
            invariant
                n == self.templates.len(),
                i <= n,
                forall|j: int| 0 <= j < i ==> template_wf(#[trigger] self.templates@[j], n as nat),
            decreases n - i,
        {
            if !template_ok(&self.templates[i], n) {
                return false;
            }
            i += 1;
        }
        true
    }
}

// ---------------------------------------------------------------------------
// Machine state and the step rule
// ---------------------------------------------------------------------------

/// One active call: the template it runs, the next instruction, its register
/// file, and where the caller wants the return value.
#[derive(Debug)]
pub struct CallFrame {
    pub closure: Address,
    pub ip: Address,
    pub stack: Vec<Value>,
    pub dst: Option<Register>,
}

pub struct FrameState {
    pub closure: Address,
    pub ip: Address,
    pub stack: Seq<Value>,
    pub dst: Option<Register>,
}

impl View for CallFrame {
    type V = FrameState;

    open spec fn view(&self) -> FrameState {
        FrameState { closure: self.closure, ip: self.ip, stack: self.stack@, dst: self.dst }
    }
}

pub struct MachineState {
    pub frames: Seq<FrameState>,
    pub globals: Seq<(String, Value)>,
    pub pending: Option<Register>,
}

/// What one step did, or what it asks of the host.
#[derive(Debug)]
pub enum Step {
    /// An instruction ran; step again.
    Continue,
    /// The outermost call returned, with this value.
    Finished(Option<Value>),
    /// Both operands of an arithmetic operator are numbers: the host computes
    /// the double result and hands it to `resume`.
    Arithmetic { op: BinaryOperation, left: Number, right: Number },
    /// A native function is called: the host runs it and hands its result to
    /// `resume`, or reports its error at `pos`.
    Native { name: String, args: Vec<Value>, pos: Position },
    /// A call reached a function id that the program does not hold.
    Fault,
}

pub enum Outcome {
    Continue,
    Finished(Option<Value>),
    Arithmetic { op: BinaryOperation, left: Number, right: Number },
    Native { name: Seq<char>, args: Seq<Value>, pos: Position },
    Fault,
    Error(ErrorView, Position),
}

pub open spec fn outcome_of(r: Result<Step, Located<RunTimeError>>) -> Outcome {
    match r {
        Ok(Step::Continue) => Outcome::Continue,
        Ok(Step::Finished(v)) => Outcome::Finished(v),
        Ok(Step::Arithmetic { op, left, right }) => Outcome::Arithmetic { op, left, right },
        Ok(Step::Native { name, args, pos }) => Outcome::Native { name: name@, args: args@, pos },
        Ok(Step::Fault) => Outcome::Fault,
        Err(e) => Outcome::Error(e.value@, e.pos),
    }
}

/// The first global below `n` named `name`.
pub open spec fn find_global(g: Seq<(String, Value)>, name: Seq<char>, n: int) -> Option<int>
    decreases n,
{
    if n <= 0 {
        None
    } else {
        match find_global(g, name, n - 1) {
            Some(i) => Some(i),
            None => if g[n - 1].0@ == name { Some(n - 1) } else { None },
        }
    }
}

pub proof fn lemma_find_global_extends(g: Seq<(String, Value)>, name: Seq<char>, m: int, n: int)
    requires
        m <= n,
        find_global(g, name, m) is Some,
    ensures
        find_global(g, name, n) == find_global(g, name, m),
    decreases n - m,
{
    if n > m {
        lemma_find_global_extends(g, name, m, n - 1);
    }
}

/// The value of a global; a missing global reads as null.
pub open spec fn global_value(g: Seq<(String, Value)>, name: Seq<char>) -> Value {
    match find_global(g, name, g.len() as int) {
        Some(i) => g[i].1,
        None => Value::Null,
    }
}

/// Sets a global, replacing an existing entry of that name.
pub open spec fn set_global_spec(g: Seq<(String, Value)>, name: String, v: Value) -> Seq<(String, Value)> {
    match find_global(g, name@, g.len() as int) {
        Some(i) => g.update(i, (name, v)),
        None => g.push((name, v)),
    }
}

/// Arguments followed by nulls up to the frame size.
pub open spec fn padded(args: Seq<Value>, size: int) -> Seq<Value> {
    if args.len() >= size {
        args
    } else {
        args + Seq::new((size - args.len()) as nat, |i: int| Value::Null)
    }
}

pub enum Evaluated {
    Value(Value),
    Host(Number, Number),
    Mismatch,
}

pub open spec fn is_number(v: Value) -> bool {
    v is Number
}

pub open spec fn number_of(v: Value) -> Number {
    match v {
        Value::Number(n) => n,
        _ => Number { bits: 0 },
    }
}

/// A binary operation on two operand values: arithmetic on numbers goes to
/// the host; ordering needs numbers; equality and the logical operators take anything.
pub open spec fn binary_spec(op: BinaryOperation, l: Value, r: Value) -> Evaluated {
    let both = is_number(l) && is_number(r);
    let (a, b) = (number_of(l), number_of(r));
    match op {
        BinaryOperation::EQ => Evaluated::Value(Value::Boolean(l.same(r))),
        BinaryOperation::NE => Evaluated::Value(Value::Boolean(!l.same(r))),
        BinaryOperation::And => Evaluated::Value(Value::Boolean(l.truthy() && r.truthy())),
        BinaryOperation::Or => Evaluated::Value(Value::Boolean(l.truthy() || r.truthy())),
        _ => if !both {
            Evaluated::Mismatch
        } else {
            match op {
                BinaryOperation::LT => Evaluated::Value(Value::Boolean(a.num_lt(b))),
                BinaryOperation::GT => Evaluated::Value(Value::Boolean(b.num_lt(a))),
                BinaryOperation::LE => Evaluated::Value(Value::Boolean(a.num_le(b))),
                BinaryOperation::GE => Evaluated::Value(Value::Boolean(b.num_le(a))),
                _ => Evaluated::Host(a, b),
            }
        },
    }
}

pub open spec fn unary_spec(op: UnaryOperation, v: Value) -> Evaluated {
    match op {
        UnaryOperation::Neg => match v {
            Value::Number(n) => Evaluated::Value(Value::Number(Number { bits: n.bits ^ SIGN_MASK })),
            _ => Evaluated::Mismatch,
        },
        UnaryOperation::Not => Evaluated::Value(Value::Boolean(!v.truthy())),
    }
}

/// The instruction the topmost call is about to run.
pub open spec fn current(p: Program, m: MachineState) -> Located<ByteCode> {
    let f = m.frames.last();
    p.templates@[f.closure as int].code@[f.ip as int]
}

pub open spec fn with_top(m: MachineState, f: FrameState) -> MachineState {
    MachineState { frames: m.frames.update(m.frames.len() - 1, f), ..m }
}

pub open spec fn store(f: FrameState, dst: Register, v: Value) -> FrameState {
    FrameState { stack: f.stack.update(dst as int, v), ..f }
}

/// One fetch-decode-execute step of the topmost call.
pub open spec fn step_spec(p: Program, m: MachineState) -> (MachineState, Outcome) {
    let m = MachineState { pending: None, ..m };
    let f = m.frames.last();
    let c = p.templates@[f.closure as int];
    let instr = c.code@[f.ip as int];
    let pos = instr.pos;
    let next = FrameState { ip: (f.ip + 1) as Address, ..f };
    let m1 = with_top(m, next);
    match instr.value {
        ByteCode::Nop => (m1, Outcome::Continue),
        ByteCode::Jump { addr } => (with_top(m, FrameState { ip: addr, ..f }), Outcome::Continue),
        ByteCode::JumpIf { not, cond, addr } => if f.stack[cond as int].truthy() != not {
            (with_top(m, FrameState { ip: addr, ..f }), Outcome::Continue)
        } else {
            (m1, Outcome::Continue)
        },
        ByteCode::Call { func, offset, args_len, dst } => {
            let args = f.stack.subrange(offset as int, offset + args_len);
            match f.stack[func as int] {
                Value::Function(Function::Native(name)) => (
                    MachineState { pending: dst, ..m1 },
                    Outcome::Native { name: name@, args, pos },
                ),
                Value::Function(Function::Compiled(id)) => if id < p.templates.len() {
                    let size = p.templates@[id as int].registers + 1;
                    let callee = FrameState { closure: id, ip: 0, stack: padded(args, size), dst };
                    (MachineState { frames: m1.frames.push(callee), ..m1 }, Outcome::Continue)
                } else {
                    (m1, Outcome::Fault)
                },
                v => (m1, Outcome::Error(ErrorView::CannotCall(v.kind_name()), pos)),
            }
        },
        ByteCode::Return { src } => {
            let value = match src {
                Some(s) => Some(f.stack[s as int]),
                None => None,
            };
            let rest = m.frames.drop_last();
            if rest.len() == 0 {
                (MachineState { frames: rest, ..m }, Outcome::Finished(value))
            } else {
                let caller = rest.last();
                let delivered = match f.dst {
                    Some(d) => store(
                        caller,
                        d,
                        match value {
                            Some(v) => v,
                            None => Value::Null,
                        },
                    ),
                    None => caller,
                };
                (MachineState { frames: rest.update(rest.len() - 1, delivered), ..m }, Outcome::Continue)
            }
        },
        ByteCode::Move { dst, src } => (with_top(m, store(next, dst, f.stack[src as int])), Outcome::Continue),
        ByteCode::String { dst, addr } => (
            with_top(m, store(next, dst, Value::String(c.strings@[addr as int]))),
            Outcome::Continue,
        ),
        ByteCode::Number { dst, addr } => (
            with_top(m, store(next, dst, Value::Number(c.numbers@[addr as int]))),
            Outcome::Continue,
        ),
        ByteCode::Closure { dst, addr } => (
            with_top(m, store(next, dst, Value::Function(Function::Compiled(c.closures@[addr as int])))),
            Outcome::Continue,
        ),
        ByteCode::Global { dst, addr } => (
            with_top(m, store(next, dst, global_value(m.globals, c.strings@[addr as int]@))),
            Outcome::Continue,
        ),
        ByteCode::SetGlobal { addr, src } => (
            MachineState {
                globals: set_global_spec(m.globals, c.strings@[addr as int], f.stack[src as int]),
                ..m1
            },
            Outcome::Continue,
        ),
        ByteCode::Binary { op, dst, left, right } => {
            let (l, r) = (f.stack[left as int], f.stack[right as int]);
            match binary_spec(op, l, r) {
                Evaluated::Value(v) => (with_top(m, store(next, dst, v)), Outcome::Continue),
                Evaluated::Host(a, b) => (
                    MachineState { pending: Some(dst), ..m1 },
                    Outcome::Arithmetic { op, left: a, right: b },
                ),
                Evaluated::Mismatch => (
                    m1,
                    Outcome::Error(ErrorView::Binary { left: l.kind_name(), right: r.kind_name() }, pos),
                ),
            }
        },
        ByteCode::Unary { op, dst, src } => {
            let v = f.stack[src as int];
            match unary_spec(op, v) {
                Evaluated::Value(w) => (with_top(m, store(next, dst, w)), Outcome::Continue),
                _ => (m1, Outcome::Error(ErrorView::Unary { right: v.kind_name() }, pos)),
            }
        },
    }
}

pub open spec fn frame_fits(p: Program, f: FrameState) -> bool {
    &&& f.closure < p.templates.len()
    &&& f.ip < p.templates@[f.closure as int].code.len()
    &&& f.stack.len() >= p.templates@[f.closure as int].registers + 1
}

/// The return slot a call frame names lies in its caller's register file.
pub open spec fn dst_fits(f: FrameState, caller: FrameState) -> bool {
    match f.dst {
        Some(d) => d < caller.stack.len(),
        None => true,
    }
}

/// Every call frame fits its template, and names a return slot inside its caller.
pub open spec fn frames_wf(p: Program, frames: Seq<FrameState>) -> bool {
    &&& forall|i: int| 0 <= i < frames.len() ==> frame_fits(p, #[trigger] frames[i])
    &&& forall|i: int| 1 <= i < frames.len() ==> dst_fits(#[trigger] frames[i], frames[i - 1])
}

proof fn lemma_replace_top(p: Program, fs: Seq<FrameState>, t: FrameState)
    requires
        frames_wf(p, fs),
        fs.len() > 0,
        frame_fits(p, t),
        t.dst == fs.last().dst,
        t.stack.len() == fs.last().stack.len(),
    ensures
        frames_wf(p, fs.update(fs.len() - 1, t)),
        fs.drop_last().push(t) == fs.update(fs.len() - 1, t),
{
    let u = fs.update(fs.len() - 1, t);
    assert forall|i: int| 1 <= i < u.len() implies dst_fits(#[trigger] u[i], u[i - 1]) by {
        assert(dst_fits(fs[i], fs[i - 1]));
    }
    assert(fs.drop_last().push(t) =~= u);
}

proof fn lemma_push(p: Program, fs: Seq<FrameState>, t: FrameState)
    requires
        frames_wf(p, fs),
        frame_fits(p, t),
        fs.len() > 0 ==> dst_fits(t, fs.last()),
    ensures
        frames_wf(p, fs.push(t)),
{
    let u = fs.push(t);
    assert forall|i: int| 1 <= i < u.len() implies dst_fits(#[trigger] u[i], u[i - 1]) by {
        if i < fs.len() {
            assert(dst_fits(fs[i], fs[i - 1]));
        }
    }
}

proof fn lemma_pop(p: Program, fs: Seq<FrameState>)
    requires
        frames_wf(p, fs),
        fs.len() > 0,
    ensures
        frames_wf(p, fs.drop_last()),
{
    let u = fs.drop_last();
    assert forall|i: int| 1 <= i < u.len() implies dst_fits(#[trigger] u[i], u[i - 1]) by {
        assert(dst_fits(fs[i], fs[i - 1]));
    }
}

/// Where a host result goes: into the pending register of the topmost call.
pub open spec fn resume_spec(m: MachineState, v: Value) -> MachineState {
    match m.pending {
        Some(d) => MachineState { pending: None, ..with_top(m, store(m.frames.last(), d, v)) },
        None => m,
    }
}

/// Binds a global in a table, replacing an existing binding of that name.
pub fn set_global_in(globals: &mut Vec<(String, Value)>, name: String, value: Value)
    ensures
        final(globals)@ == set_global_spec(old(globals)@, name, value),
{
    let mut i: usize = 0;
    while i < globals.len()
        invariant
            i <= globals.len(),
            globals@ == old(globals)@,
            find_global(globals@, name@, i as int) is None,
        decreases globals.len() - i,
    {
        if globals[i].0 == name {
            proof {
                lemma_find_global_extends(globals@, name@, i + 1, globals@.len() as int);
            }
            globals.set(i, (name, value));
            return;
        }
        i += 1;
    }
    globals.push((name, value));
}

/// The table of builtins: `print`, a native function of that name.
pub open spec fn is_builtins(g: Seq<(String, Value)>) -> bool {
    &&& g.len() == 1
    &&& g[0].0@ == "print"@
    &&& match g[0].1 {
        Value::Function(Function::Native(n)) => n@ == "print"@,
        _ => false,
    }
}

fn print_name() -> (r: String)
    ensures
        r@ == "print"@,
{
    String::from_str("print")
}

/// The builtin globals: `print` names the native function of that name.
pub fn std_globals() -> (r: Vec<(String, Value)>)
    ensures
        is_builtins(r@),
{
    let mut globals: Vec<(String, Value)> = Vec::new();
    globals.push((print_name(), Value::Function(Function::Native(print_name()))));
    globals
}

/// The first call: the entry unit, no arguments, all registers null.
pub open spec fn initial_frame(p: Program) -> FrameState {
    FrameState {
        closure: p.entry,
        ip: 0,
        stack: Seq::new((p.templates@[p.entry as int].registers + 1) as nat, |i: int| Value::Null),
        dst: None,
    }
}

/// The virtual machine: the program it runs, the call stack, the global
/// table, and the register awaiting a result from the host.
#[derive(Debug)]
pub struct Interpreter {
    pub program: Program,
    pub call_stack: Vec<CallFrame>,
    pub globals: Vec<(String, Value)>,
    pub pending: Option<Register>,
}

fn arguments(stack: &Vec<Value>, offset: Register, n: u8) -> (r: Vec<Value>)
    requires
        offset + n <= stack.len(),
    ensures
        r@ == stack@.subrange(offset as int, offset + n),
{
    let mut r: Vec<Value> = Vec::new();
    let mut i: usize = offset as usize;
    let end: usize = offset as usize + n as usize;
    while i < end
        invariant
            offset <= i <= end,
            end == offset + n,
            end <= stack.len(),
            r@ == stack@.subrange(offset as int, i as int),
        decreases end - i,
    {
        r.push(stack[i].duplicate());
        assert(r@ =~= stack@.subrange(offset as int, i + 1));
        i += 1;
    }
    r
}

fn pad(args: Vec<Value>, size: usize) -> (r: Vec<Value>)
    ensures
        r@ == padded(args@, size as int),
{
    let mut r = args;
    let ghost a = r@;
    while r.len() < size
        invariant
            a.len() <= r.len(),
            r@.subrange(0, a.len() as int) == a,
            forall|j: int| a.len() <= j < r.len() ==> r@[j] == Value::Null,
            a.len() < size ==> r.len() <= size,
            a.len() >= size ==> r.len() == a.len(),
        decreases size - r.len(),
    {
        r.push(Value::Null);
        assert(r@.subrange(0, a.len() as int) =~= a);
    }
    proof {
        if a.len() < size {
            assert(r@ =~= padded(a, size as int));
        } else {
            assert(r@ =~= a);
        }
    }
    r
}

/// The exec counterpart of `binary_spec`.
pub fn eval_binary(op: BinaryOperation, l: &Value, r: &Value) -> (e: Evaluated)
    ensures
        e == binary_spec(op, *l, *r),
{
    match op {
        BinaryOperation::EQ => Evaluated::Value(Value::Boolean(l.equals(r))),
        BinaryOperation::NE => Evaluated::Value(Value::Boolean(!l.equals(r))),
        BinaryOperation::And => Evaluated::Value(Value::Boolean(l.is_truthy() && r.is_truthy())),
        BinaryOperation::Or => Evaluated::Value(Value::Boolean(l.is_truthy() || r.is_truthy())),
        _ => match (l, r) {
            (Value::Number(a), Value::Number(b)) => match op {
                BinaryOperation::LT => Evaluated::Value(Value::Boolean(a.less_than(b))),
                BinaryOperation::GT => Evaluated::Value(Value::Boolean(b.less_than(a))),
                BinaryOperation::LE => Evaluated::Value(Value::Boolean(a.less_equal(b))),
                BinaryOperation::GE => Evaluated::Value(Value::Boolean(b.less_equal(a))),
                _ => Evaluated::Host(*a, *b),
            },
            _ => Evaluated::Mismatch,
        },
    }
}

/// The exec counterpart of `unary_spec`.
pub fn eval_unary(op: UnaryOperation, v: &Value) -> (e: Evaluated)
    ensures
        e == unary_spec(op, *v),
{
    match op {
        UnaryOperation::Neg => match v {
            Value::Number(n) => Evaluated::Value(Value::Number(n.negate())),
            _ => Evaluated::Mismatch,
        },
        UnaryOperation::Not => Evaluated::Value(Value::Boolean(!v.is_truthy())),
    }
}

impl Interpreter {
    pub open spec fn state(&self) -> MachineState {
        MachineState {
            frames: self.call_stack@.map_values(|f: CallFrame| f@),
            globals: self.globals@,
            pending: self.pending,
        }
    }

    pub open spec fn wf(&self) -> bool {
        let frames = self.state().frames;
        &&& program_wf(self.program)
        &&& frames_wf(self.program, frames)
        &&& self.pending is Some ==> frames.len() > 0 && self.pending.unwrap() < frames.last().stack.len()
    }

    /// The value of a global; null when there is none.
    pub fn global(&self, name: &String) -> (r: Value)
        ensures
            r == global_value(self.globals@, name@),
    {
        let mut i: usize = 0;
        while i < self.globals.len()
            invariant
                i <= self.globals.len(),
                find_global(self.globals@, name@, i as int) is None,
            decreases self.globals.len() - i,
        {
            if self.globals[i].0 == *name {
                proof {
                    lemma_find_global_extends(self.globals@, name@, i + 1, self.globals@.len() as int);
                }
                return self.globals[i].1.duplicate();
            }
            i += 1;
        }
        Value::Null
    }

    /// Binds a global, replacing an existing binding of that name.
    pub fn set_global(&mut self, name: String, value: Value)
        ensures
            final(self).globals@ == set_global_spec(old(self).globals@, name, value),
            final(self).program == old(self).program,
            final(self).call_stack == old(self).call_stack,
            final(self).pending == old(self).pending,
    {
        set_global_in(&mut self.globals, name, value);
    }

    /// Validates a program and prepares to run it: the builtins are bound and
    /// the entry unit is called with no arguments.
    pub fn new(program: Program) -> (r: Option<Interpreter>)
        ensures
            r is Some <==> program_wf(program),
            match r {
                Some(vm) => {
                    &&& vm.program == program
                    &&& vm.wf()
                    &&& vm.state() == (MachineState {
                        frames: seq![initial_frame(program)],
                        globals: vm.globals@,
                        pending: None,
                    })
                    &&& is_builtins(vm.globals@)
                },
                None => true,
            },
    {
        if !program.validate() {
            return None;
        }
        let globals = std_globals();
        let entry = program.entry;
        let size = program.templates[entry as usize].registers as usize + 1;
        let stack = pad(Vec::new(), size);
        let frame = CallFrame { closure: entry, ip: 0, stack, dst: None };
        let mut call_stack: Vec<CallFrame> = Vec::new();
        call_stack.push(frame);
        let vm = Interpreter { program, call_stack, globals, pending: None };
        proof {
            assert(template_wf(program.templates@[entry as int], program.templates.len() as nat));
            assert(vm.state().frames =~= seq![initial_frame(program)]);
            assert(padded(Seq::<Value>::empty(), size as int) =~= initial_frame(program).stack);
        }
        Some(vm)
    }

    /// Executes one instruction of the topmost call, as `step_spec` says.
    #[verifier::rlimit(50)]
    pub fn step(&mut self) -> (r: Result<Step, Located<RunTimeError>>)
        requires
            old(self).wf(),
            old(self).call_stack.len() > 0,
        ensures
            (final(self).state(), outcome_of(r)) == step_spec(old(self).program, old(self).state()),
            final(self).program == old(self).program,
            final(self).wf(),
    {
        let ghost frames0 = old(self).state().frames;
        let ghost p = self.program;
        self.pending = None;
        let mut frame = self.call_stack.pop().unwrap();
        proof {
            assert(self.state().frames =~= frames0.drop_last());
            assert(frame@ == frames0.last());
            assert(frame_fits(p, frames0[frames0.len() - 1]));
            lemma_pop(p, frames0);
        }
        let c = &self.program.templates[frame.closure as usize];
        let ip = frame.ip;
        let instr = c.code[ip as usize];
        let pos = instr.pos;
        proof {
            assert(template_wf(p.templates@[frame.closure as int], p.templates.len() as nat));
            assert(instr_fits(*c, instr.value, p.templates.len() as nat));
            if ip + 1 >= c.code.len() {
                assert(instr == c.code@.last());
            }
        }
        frame.ip = ip + 1;
        let result: Result<Step, Located<RunTimeError>> = match instr.value {
            ByteCode::Nop => Ok(Step::Continue),
            ByteCode::Jump { addr } => {
                frame.ip = addr;
                Ok(Step::Continue)
            },
            ByteCode::JumpIf { not, cond, addr } => {
                if frame.stack[cond as usize].is_truthy() != not {
                    frame.ip = addr;
                }
                Ok(Step::Continue)
            },
            ByteCode::Call { func, offset, args_len, dst } => {
                let args = arguments(&frame.stack, offset, args_len);
                match &frame.stack[func as usize] {
                    Value::Function(Function::Native(name)) => {
                        let name = name.clone();
                        self.pending = dst;
                        Ok(Step::Native { name, args, pos })
                    },
                    Value::Function(Function::Compiled(id)) => {
                        let id = *id;
                        if (id as usize) < self.program.templates.len() {
                            let size = self.program.templates[id as usize].registers as usize + 1;
                            let stack = pad(args, size);
                            let callee = CallFrame { closure: id, ip: 0, stack, dst };
                            proof {
                                assert(template_wf(p.templates@[id as int], p.templates.len() as nat));
                                lemma_push(p, self.state().frames, frame@);
                                lemma_push(p, self.state().frames.push(frame@), callee@);
                            }
                            self.call_stack.push(frame);
                            self.call_stack.push(callee);
                            proof {
                                assert(self.state().frames =~= frames0.drop_last().push(frame@).push(callee@));
                                lemma_replace_top(p, frames0, frame@);
                            }
                            return Ok(Step::Continue);
                        } else {
                            Ok(Step::Fault)
                        }
                    },
                    v => Err(Located::new(RunTimeError::CannotCall(v.typ()), pos)),
                }
            },
            ByteCode::Return { src } => {
                let value = match src {
                    Some(s) => Some(frame.stack[s as usize].duplicate()),
                    None => None,
                };
                if self.call_stack.len() == 0 {
                    return Ok(Step::Finished(value));
                }
                let mut caller = self.call_stack.pop().unwrap();
                let ghost rest = frames0.drop_last();
                proof {
                    assert(self.state().frames =~= rest.drop_last());
                    assert(caller@ == rest.last());
                    assert(dst_fits(frames0[frames0.len() - 1], frames0[frames0.len() - 2]));
                    assert(frame_fits(p, rest[rest.len() - 1]));
                }
                if let Some(d) = frame.dst {
                    let delivered = match value {
                        Some(v) => v,
                        None => Value::Null,
                    };
                    caller.stack.set(d as usize, delivered);
                }
                proof {
                    lemma_replace_top(p, rest, caller@);
                }
                self.call_stack.push(caller);
                proof {
                    assert(self.state().frames =~= rest.update(rest.len() - 1, caller@));
                }
                return Ok(Step::Continue);
            },
            ByteCode::Move { dst, src } => {
                let v = frame.stack[src as usize].duplicate();
                frame.stack.set(dst as usize, v);
                Ok(Step::Continue)
            },
            ByteCode::String { dst, addr } => {
                let v = Value::String(c.strings[addr as usize].clone());
                frame.stack.set(dst as usize, v);
                Ok(Step::Continue)
            },
            ByteCode::Number { dst, addr } => {
                let v = Value::Number(c.numbers[addr as usize]);
                frame.stack.set(dst as usize, v);
                Ok(Step::Continue)
            },
            ByteCode::Closure { dst, addr } => {
                let v = Value::Function(Function::Compiled(c.closures[addr as usize]));
                frame.stack.set(dst as usize, v);
                Ok(Step::Continue)
            },
            ByteCode::Global { dst, addr } => {
                let v = self.global(&c.strings[addr as usize]);
                frame.stack.set(dst as usize, v);
                Ok(Step::Continue)
            },
            ByteCode::SetGlobal { addr, src } => {
                let name = c.strings[addr as usize].clone();
                let v = frame.stack[src as usize].duplicate();
                self.set_global(name, v);
                Ok(Step::Continue)
            },
            ByteCode::Binary { op, dst, left, right } => {
                let l = frame.stack[left as usize].duplicate();
                let r = frame.stack[right as usize].duplicate();
                match eval_binary(op, &l, &r) {
                    Evaluated::Value(v) => {
                        frame.stack.set(dst as usize, v);
                        Ok(Step::Continue)
                    },
                    Evaluated::Host(a, b) => {
                        self.pending = Some(dst);
                        Ok(Step::Arithmetic { op, left: a, right: b })
                    },
                    Evaluated::Mismatch => Err(
                        Located::new(RunTimeError::Binary { left: l.typ(), right: r.typ() }, pos),
                    ),
                }
            },
            ByteCode::Unary { op, dst, src } => {
                let v = frame.stack[src as usize].duplicate();
                match eval_unary(op, &v) {
                    Evaluated::Value(w) => {
                        frame.stack.set(dst as usize, w);
                        Ok(Step::Continue)
                    },
                    _ => Err(Located::new(RunTimeError::Unary { right: v.typ() }, pos)),
                }
            },
        };
        proof {
            lemma_replace_top(p, frames0, frame@);
        }
        self.call_stack.push(frame);
        proof {
            assert(self.state().frames =~= frames0.update(frames0.len() - 1, frame@));
        }
        result
    }

    /// Delivers a host result into the register that the last step left pending.
    pub fn resume(&mut self, value: Value)
        requires
            old(self).wf(),
        ensures
            final(self).state() == resume_spec(old(self).state(), value),
            final(self).program == old(self).program,
            final(self).wf(),
    {
        let ghost frames0 = old(self).state().frames;
        if let Some(d) = self.pending {
            let mut frame = self.call_stack.pop().unwrap();
            proof {
                assert(frame@ == frames0.last());
                assert(frame_fits(self.program, frames0[frames0.len() - 1]));
            }
            frame.stack.set(d as usize, value);
            proof {
                lemma_replace_top(self.program, frames0, frame@);
            }
            self.call_stack.push(frame);
            self.pending = None;
            proof {
                assert(self.state().frames =~= frames0.update(frames0.len() - 1, frame@));
            }
        }
    }
}

// ---------------------------------------------------------------------------
// Laws of the step rule
// ---------------------------------------------------------------------------

/// NaN is unequal to itself, so `==` on two NaN values yields false.
pub proof fn lemma_nan_value_unequal(n: Number)
    requires
        n.is_nan(),
    ensures
        !Value::Number(n).same(Value::Number(n)),
        binary_spec(BinaryOperation::EQ, Value::Number(n), Value::Number(n))
            == Evaluated::Value(Value::Boolean(false)),
{
}

/// An arithmetic or ordering operator with an operand that is not a number
/// fails, naming both operand kinds, at the operator's own position.
pub proof fn lemma_binary_needs_numbers(
    p: Program,
    m: MachineState,
    op: BinaryOperation,
    dst: Register,
    left: Register,
    right: Register,
)
    requires
        m.frames.len() > 0,
        current(p, m).value == (ByteCode::Binary { op, dst, left, right }),
        op != BinaryOperation::EQ && op != BinaryOperation::NE,
        op != BinaryOperation::And && op != BinaryOperation::Or,
        !is_number(m.frames.last().stack[left as int]) || !is_number(m.frames.last().stack[right as int]),
    ensures
        step_spec(p, m).1 == Outcome::Error(
            ErrorView::Binary {
                left: m.frames.last().stack[left as int].kind_name(),
                right: m.frames.last().stack[right as int].kind_name(),
            },
            current(p, m).pos,
        ),
{
}

/// Negating a value that is not a number fails, naming its kind, at the
/// operator's own position.
pub proof fn lemma_negate_needs_number(p: Program, m: MachineState, dst: Register, src: Register)
    requires
        m.frames.len() > 0,
        current(p, m).value == (ByteCode::Unary { op: UnaryOperation::Neg, dst, src }),
        !is_number(m.frames.last().stack[src as int]),
    ensures
        step_spec(p, m).1 == Outcome::Error(
            ErrorView::Unary { right: m.frames.last().stack[src as int].kind_name() },
            current(p, m).pos,
        ),
{
}

/// A conditional branch continues at exactly one place: its target when the
/// condition's truthiness differs from `not`, the next instruction otherwise;
/// nothing else changes.
pub proof fn lemma_branch_goes_one_way(p: Program, m: MachineState, not: bool, cond: Register, addr: Address)
    requires
        m.frames.len() > 0,
        current(p, m).value == (ByteCode::JumpIf { not, cond, addr }),
    ensures
        step_spec(p, m).1 == Outcome::Continue,
        step_spec(p, m).0.frames.len() == m.frames.len(),
        step_spec(p, m).0.frames.last().ip == if m.frames.last().stack[cond as int].truthy() != not {
            addr
        } else {
            (m.frames.last().ip + 1) as Address
        },
        step_spec(p, m).0.frames.last().stack == m.frames.last().stack,
{
}

/// Call convention, machine side: a call hands over the `args_len` registers
/// from `offset` on, in order: to a native function as its argument list, to
/// a compiled one as the first registers of its new frame.
pub proof fn lemma_call_passes_block(
    p: Program,
    m: MachineState,
    func: Register,
    offset: Register,
    args_len: u8,
    dst: Option<Register>,
)
    requires
        m.frames.len() > 0,
        current(p, m).value == (ByteCode::Call { func, offset, args_len, dst }),
        offset + args_len <= m.frames.last().stack.len(),
    ensures
        match m.frames.last().stack[func as int] {
            Value::Function(Function::Native(name)) => step_spec(p, m).1 == Outcome::Native {
                name: name@,
                args: m.frames.last().stack.subrange(offset as int, offset + args_len),
                pos: current(p, m).pos,
            },
            Value::Function(Function::Compiled(id)) => id < p.templates.len() ==> {
                let callee = step_spec(p, m).0.frames.last();
                &&& step_spec(p, m).0.frames.len() == m.frames.len() + 1
                &&& forall|j: int| 0 <= j < args_len ==> #[trigger] callee.stack[j] == m.frames.last().stack[offset + j]
            },
            _ => true,
        },
{
    let f = m.frames.last();
    let args = f.stack.subrange(offset as int, offset + args_len);
    if let Value::Function(Function::Compiled(id)) = f.stack[func as int] {
        if id < p.templates.len() {
            let size = p.templates@[id as int].registers + 1;
            assert forall|j: int| 0 <= j < args_len implies #[trigger] padded(args, size)[j] == f.stack[offset + j] by {
                if args.len() < size {
                    assert((args + Seq::new((size - args.len()) as nat, |i: int| Value::Null))[j] == args[j]);
                }
            }
        }
    }
}

} // verus!
