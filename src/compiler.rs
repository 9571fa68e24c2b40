use vstd::prelude::*;
use crate::ast::{Atom, Block, Chunk, Expression, Statement};
use crate::bytecode::{
    binary_operation, unary_operation, Address, BinaryOperation, ByteCode, Closure, ClosureView,
    CompileError, Program, ProgramView, Register, UnaryOperation, ADDRESS_LIMIT,
};
use crate::position::{Located, Position};

verus! {

/// The largest register cursor a frame may reach.
pub const REGISTER_LIMIT: u16 = 0xFFFF;

/// The most arguments one call may pass.
pub const ARGUMENT_LIMIT: usize = 0xFF;

// ---------------------------------------------------------------------------
// Model
// ---------------------------------------------------------------------------

/// The first index below `n` whose identifier is `name`.
pub open spec fn find_local(locals: Seq<(Seq<char>, Register)>, name: Seq<char>, n: int) -> Option<int>
    decreases n,
{
    if n <= 0 {
        None
    } else {
        match find_local(locals, name, n - 1) {
            Some(i) => Some(i),
            None => if locals[n - 1].0 == name { Some(n - 1) } else { None },
        }
    }
}

pub proof fn lemma_find_local_extends(locals: Seq<(Seq<char>, Register)>, name: Seq<char>, m: int, n: int)
    requires
        m <= n,
        find_local(locals, name, m) is Some,
    ensures
        find_local(locals, name, n) == find_local(locals, name, m),
    decreases n - m,
{
    if n > m {
        lemma_find_local_extends(locals, name, m, n - 1);
    }
}

pub struct ScopeView {
    pub locals: Seq<(Seq<char>, Register)>,
    pub offset: Register,
}

impl ScopeView {
    pub open spec fn get(self, name: Seq<char>) -> Option<Register> {
        match find_local(self.locals, name, self.locals.len() as int) {
            Some(i) => Some(self.locals[i].1),
            None => None,
        }
    }

    /// Binds `name`, replacing an earlier binding of it in this scope.
    pub open spec fn insert(self, name: Seq<char>, reg: Register) -> ScopeView {
        match find_local(self.locals, name, self.locals.len() as int) {
            Some(i) => ScopeView { locals: self.locals.update(i, (name, reg)), ..self },
            None => ScopeView { locals: self.locals.push((name, reg)), ..self },
        }
    }
}

/// The register bound to `name` in the innermost of the first `n` scopes that binds it.
pub open spec fn lookup(scopes: Seq<ScopeView>, name: Seq<char>, n: int) -> Option<Register>
    decreases n,
{
    if n <= 0 {
        None
    } else {
        match scopes[n - 1].get(name) {
            Some(r) => Some(r),
            None => lookup(scopes, name, n - 1),
        }
    }
}

pub struct FrameView {
    pub closure: ClosureView,
    pub registers: Register,
    pub scopes: Seq<ScopeView>,
}

impl FrameView {
    /// The frame of a function body about to be compiled: no registers, one empty scope.
    pub open spec fn fresh() -> FrameView {
        FrameView {
            closure: ClosureView::empty(),
            registers: 0,
            scopes: seq![ScopeView { locals: Seq::empty(), offset: 0 }],
        }
    }

    pub open spec fn wf(self) -> bool {
        self.scopes.len() >= 1 && self.closure.bounded()
    }

    pub open spec fn resolve(self, name: Seq<char>) -> Option<Register> {
        lookup(self.scopes, name, self.scopes.len() as int)
    }

    pub open spec fn with_closure(self, c: ClosureView) -> FrameView {
        FrameView { closure: c, ..self }
    }

    /// Takes the register at the cursor and raises the high-water mark.
    pub open spec fn new_register(self) -> Result<(FrameView, Register), CompileError> {
        if self.registers < REGISTER_LIMIT {
            let n = (self.registers + 1) as Register;
            let high = if self.closure.registers < n { n } else { self.closure.registers };
            Ok((
                FrameView {
                    registers: n,
                    closure: ClosureView { registers: high, ..self.closure },
                    ..self
                },
                self.registers,
            ))
        } else {
            Err(CompileError::TooManyRegisters)
        }
    }

    /// Takes `n` contiguous registers starting at the cursor.
    pub open spec fn reserve(self, n: int) -> Result<(FrameView, Register), CompileError> {
        if n > ARGUMENT_LIMIT {
            Err(CompileError::TooManyArguments)
        } else if self.registers + n > REGISTER_LIMIT {
            Err(CompileError::TooManyRegisters)
        } else {
            let end = (self.registers + n) as Register;
            let high = if self.closure.registers < end { end } else { self.closure.registers };
            Ok((
                FrameView {
                    registers: end,
                    closure: ClosureView { registers: high, ..self.closure },
                    ..self
                },
                self.registers,
            ))
        }
    }

    pub open spec fn bind(self, name: Seq<char>, reg: Register) -> FrameView {
        FrameView {
            scopes: self.scopes.update(
                self.scopes.len() - 1,
                self.scopes[self.scopes.len() - 1].insert(name, reg),
            ),
            ..self
        }
    }

    pub open spec fn new_local(self, name: Seq<char>) -> Result<(FrameView, Register), CompileError> {
        match self.new_register() {
            Ok((f, r)) => Ok((f.bind(name, r), r)),
            Err(e) => Err(e),
        }
    }

    /// The register of a visible local, or a fresh one loaded with the global of that name.
    pub open spec fn local(self, name: Seq<char>, pos: Position) -> Result<(FrameView, Register), CompileError> {
        match self.resolve(name) {
            Some(r) => Ok((self, r)),
            None => match self.new_register() {
                Err(e) => Err(e),
                Ok((f1, r)) => match f1.closure.add_string(name) {
                    Err(e) => Err(e),
                    Ok((c2, addr)) => match c2.emit(ByteCode::Global { dst: r, addr }, pos) {
                        Err(e) => Err(e),
                        Ok((c3, _)) => Ok((f1.with_closure(c3), r)),
                    },
                },
            },
        }
    }

    pub open spec fn push_scope(self) -> FrameView {
        FrameView {
            scopes: self.scopes.push(ScopeView { locals: Seq::empty(), offset: self.registers }),
            ..self
        }
    }

    /// Drops the innermost scope and frees the registers taken since it opened.
    pub open spec fn pop_scope(self) -> FrameView {
        if self.scopes.len() > 0 {
            FrameView {
                registers: self.scopes[self.scopes.len() - 1].offset,
                scopes: self.scopes.drop_last(),
                ..self
            }
        } else {
            self
        }
    }
}

/// What compilation has produced so far: the frame being compiled, the
/// finished function templates, and the first limit exceeded, if any.
/// Once `error` is set every further step leaves the state as it is.
pub struct CompileState {
    pub frame: FrameView,
    pub templates: Seq<ClosureView>,
    pub error: Option<CompileError>,
}

impl CompileState {
    pub open spec fn failed(self) -> bool {
        self.error is Some
    }

    pub open spec fn fail(self, e: CompileError) -> CompileState {
        CompileState { error: Some(e), ..self }
    }

    pub open spec fn with_closure(self, c: ClosureView) -> CompileState {
        CompileState { frame: self.frame.with_closure(c), ..self }
    }

    pub open spec fn apply<T>(self, r: Result<(FrameView, T), CompileError>, default: T) -> (CompileState, T) {
        if self.failed() {
            (self, default)
        } else {
            match r {
                Ok((f, v)) => (CompileState { frame: f, ..self }, v),
                Err(e) => (self.fail(e), default),
            }
        }
    }

    pub open spec fn apply_closure(self, r: Result<(ClosureView, Address), CompileError>) -> (CompileState, Address) {
        if self.failed() {
            (self, 0)
        } else {
            match r {
                Ok((c, a)) => (self.with_closure(c), a),
                Err(e) => (self.fail(e), 0),
            }
        }
    }

    pub open spec fn new_register(self) -> (CompileState, Register) {
        self.apply(self.frame.new_register(), 0)
    }

    pub open spec fn reserve(self, n: int) -> (CompileState, Register) {
        self.apply(self.frame.reserve(n), 0)
    }

    pub open spec fn new_local(self, name: Seq<char>) -> (CompileState, Register) {
        self.apply(self.frame.new_local(name), 0)
    }

    pub open spec fn local(self, name: Seq<char>, pos: Position) -> (CompileState, Register) {
        self.apply(self.frame.local(name, pos), 0)
    }

    pub open spec fn add_string(self, s: Seq<char>) -> (CompileState, Address) {
        self.apply_closure(self.frame.closure.add_string(s))
    }

    pub open spec fn add_number(self, n: crate::number::Number) -> (CompileState, Address) {
        self.apply_closure(self.frame.closure.add_number(n))
    }

    pub open spec fn add_closure(self, id: Address) -> (CompileState, Address) {
        self.apply_closure(self.frame.closure.add_closure(id))
    }

    pub open spec fn emit(self, bc: ByteCode, pos: Position) -> (CompileState, Address) {
        self.apply_closure(self.frame.closure.emit(bc, pos))
    }

    pub open spec fn patch(self, addr: int, bc: ByteCode) -> CompileState {
        if self.failed() {
            self
        } else {
            self.with_closure(self.frame.closure.patch(addr, bc))
        }
    }

    pub open spec fn push_scope(self) -> CompileState {
        if self.failed() {
            self
        } else {
            CompileState { frame: self.frame.push_scope(), ..self }
        }
    }

    pub open spec fn pop_scope(self) -> CompileState {
        if self.failed() {
            self
        } else {
            CompileState { frame: self.frame.pop_scope(), ..self }
        }
    }

    pub open spec fn code_len(self) -> int {
        self.frame.closure.code.len() as int
    }
}

// ---------------------------------------------------------------------------
// Emission rules
// ---------------------------------------------------------------------------

/// An expression: its code is appended, and its value ends up in the returned register.
pub open spec fn expression_spec(st: CompileState, e: Located<Expression>) -> (CompileState, Register)
    decreases e, 0int,
{
    if st.failed() {
        (st, 0)
    } else {
        match e.value {
            Expression::Atom(a) => atom_spec(st, a, e.pos),
            Expression::Binary { op, left, right } => {
                let (s1, dst) = st.new_register();
                if s1.failed() {
                    (s1, 0)
                } else {
                    let (s2, l) = expression_spec(s1, *left);
                    if s2.failed() {
                        (s2, 0)
                    } else {
                        let (s3, r) = expression_spec(s2, *right);
                        if s3.failed() {
                            (s3, 0)
                        } else {
                            let op = binary_operation(op);
                            (s3.emit(ByteCode::Binary { op, dst, left: l, right: r }, e.pos).0, dst)
                        }
                    }
                }
            },
            Expression::Unary { op, right } => {
                let (s1, dst) = st.new_register();
                if s1.failed() {
                    (s1, 0)
                } else {
                    let (s2, src) = expression_spec(s1, *right);
                    if s2.failed() {
                        (s2, 0)
                    } else {
                        (s2.emit(ByteCode::Unary { op: unary_operation(op), dst, src }, e.pos).0, dst)
                    }
                }
            },
            Expression::Call { head, args } => {
                let (s1, dst) = st.new_register();
                if s1.failed() {
                    (s1, 0)
                } else {
                    let (s2, func) = expression_spec(s1, *head);
                    if s2.failed() {
                        (s2, 0)
                    } else {
                        let (s3, offset) = s2.reserve(args@.len() as int);
                        if s3.failed() {
                            (s3, 0)
                        } else {
                            let s4 = arguments_spec(s3, args@, offset, 0);
                            if s4.failed() {
                                (s4, 0)
                            } else {
                                let call = ByteCode::Call {
                                    func,
                                    offset,
                                    args_len: args@.len() as u8,
                                    dst: Some(dst),
                                };
                                (s4.emit(call, e.pos).0, dst)
                            }
                        }
                    }
                }
            },
        }
    }
}

pub open spec fn atom_spec(st: CompileState, a: Atom, pos: Position) -> (CompileState, Register)
    decreases a, 0int,
{
    if st.failed() {
        (st, 0)
    } else {
        match a {
            Atom::Ident(name) => st.local(name@, pos),
            Atom::Number(n) => {
                let (s1, addr) = st.add_number(n);
                let (s2, dst) = s1.new_register();
                (s2.emit(ByteCode::Number { dst, addr }, pos).0, dst)
            },
            Atom::String(s) => {
                let (s1, addr) = st.add_string(s@);
                let (s2, dst) = s1.new_register();
                (s2.emit(ByteCode::String { dst, addr }, pos).0, dst)
            },
            Atom::Expression(inner) => expression_spec(st, *inner),
        }
    }
}

/// Arguments `i..` of a call: each is compiled and moved into register `offset + its index`.
pub open spec fn arguments_spec(
    st: CompileState,
    args: Seq<Located<Expression>>,
    offset: Register,
    i: int,
) -> CompileState
    decreases args, args.len() - i,
{
    if st.failed() || i < 0 || i >= args.len() {
        st
    } else {
        let (s1, src) = expression_spec(st, args[i]);
        if s1.failed() {
            s1
        } else {
            let (s2, _) = s1.emit(ByteCode::Move { dst: (offset + i) as Register, src }, args[i].pos);
            if s2.failed() {
                s2
            } else {
                arguments_spec(s2, args, offset, i + 1)
            }
        }
    }
}

/// A block: a scope is opened, statements are compiled until one returns, and the scope is closed.
pub open spec fn block_spec(st: CompileState, b: Block) -> (CompileState, Option<Register>)
    decreases b, 0int,
{
    if st.failed() {
        (st, None)
    } else {
        let (s1, ret) = statements_spec(st.push_scope(), b.0@, 0);
        if s1.failed() {
            (s1, None)
        } else {
            (s1.pop_scope(), ret)
        }
    }
}

/// Statements `i..`; those after a `return` emit nothing.
pub open spec fn statements_spec(
    st: CompileState,
    stmts: Seq<Located<Statement>>,
    i: int,
) -> (CompileState, Option<Register>)
    decreases stmts, stmts.len() - i,
{
    if st.failed() || i < 0 || i >= stmts.len() {
        (st, None)
    } else {
        let (s1, ret) = statement_spec(st, stmts[i]);
        if s1.failed() {
            (s1, None)
        } else {
            match ret {
                Some(r) => (s1, Some(r)),
                None => statements_spec(s1, stmts, i + 1),
            }
        }
    }
}

/// Parameters `i..` become the first locals of a function's frame.
pub open spec fn parameters_spec(st: CompileState, params: Seq<Located<String>>, i: int) -> CompileState
    decreases params.len() - i,
{
    if st.failed() || i < 0 || i >= params.len() {
        st
    } else {
        let s1 = st.new_local(params[i].value@).0;
        if s1.failed() {
            s1
        } else {
            parameters_spec(s1, params, i + 1)
        }
    }
}

/// A function definition: the name is bound in the enclosing frame, the body
/// is compiled in a fresh frame and stored as a template, and a `Closure`
/// instruction materializes it into the bound register.
pub open spec fn definition_spec(
    st: CompileState,
    name: Seq<char>,
    params: Seq<Located<String>>,
    body: Located<Block>,
    pos: Position,
) -> CompileState
    decreases body, 0int,
{
    if st.failed() {
        st
    } else {
        let (s1, reg) = st.new_local(name);
        if s1.failed() {
            s1
        } else {
            let inner = CompileState { frame: FrameView::fresh(), templates: s1.templates, error: None };
            let s2 = parameters_spec(inner, params, 0);
            if s2.failed() {
                s2
            } else {
                let (s3, _) = block_spec(s2, body.value);
                if s3.failed() {
                    s3
                } else {
                    let (s4, _) = s3.emit(ByteCode::Return { src: None }, pos);
                    if s4.failed() {
                        s4
                    } else if s4.templates.len() >= ADDRESS_LIMIT {
                        s1.fail(CompileError::TooManyFunctions)
                    } else {
                        let id = s4.templates.len() as Address;
                        let s5 = CompileState {
                            frame: s1.frame,
                            templates: s4.templates.push(s4.frame.closure),
                            error: None,
                        };
                        let (s6, addr) = s5.add_closure(id);
                        s6.emit(ByteCode::Closure { dst: reg, addr }, pos).0
                    }
                }
            }
        }
    }
}

/// `if`: the condition, a placeholder branch, the `then` block, a placeholder
/// jump, the optional `else` block; then the branch is patched to the `else`
/// address and the jump to the exit.
pub open spec fn if_spec(st: CompileState, s: Located<Statement>) -> CompileState
    decreases s, 0int,
{
    match s.value {
        Statement::If { cond, case, else_case } => {
            let pos = s.pos;
            let (s1, c) = expression_spec(st, cond);
            if s1.failed() {
                s1
            } else {
                let (s2, check) = s1.emit(ByteCode::Nop, pos);
                if s2.failed() {
                    s2
                } else {
                    let (s3, _) = block_spec(s2, case.value);
                    if s3.failed() {
                        s3
                    } else {
                        let (s4, case_exit) = s3.emit(ByteCode::Nop, pos);
                        if s4.failed() {
                            s4
                        } else {
                            let else_addr = s4.code_len();
                            let s5 = match else_case {
                                Some(b) => block_spec(s4, b.value).0,
                                None => s4,
                            };
                            if s5.failed() {
                                s5
                            } else {
                                let exit = s5.code_len();
                                let branch = ByteCode::JumpIf { not: true, cond: c, addr: else_addr as Address };
                                s5.patch(check as int, branch).patch(case_exit as int, ByteCode::Jump { addr: exit as Address })
                            }
                        }
                    }
                }
            }
        },
        _ => st,
    }
}

/// `while`: the condition (re-run on every pass), a placeholder branch, the
/// body, a jump back to the condition; the branch is patched to the exit.
pub open spec fn while_spec(st: CompileState, s: Located<Statement>) -> CompileState
    decreases s, 0int,
{
    match s.value {
        Statement::While { cond, body } => {
            let pos = s.pos;
            let start = st.code_len();
            let (s1, c) = expression_spec(st, cond);
            if s1.failed() {
                s1
            } else {
                let (s2, check) = s1.emit(ByteCode::Nop, pos);
                if s2.failed() {
                    s2
                } else {
                    let (s3, _) = block_spec(s2, body.value);
                    if s3.failed() {
                        s3
                    } else {
                        let (s4, _) = s3.emit(ByteCode::Jump { addr: start as Address }, pos);
                        if s4.failed() {
                            s4
                        } else {
                            let exit = s4.code_len();
                            s4.patch(check as int, ByteCode::JumpIf { not: true, cond: c, addr: exit as Address })
                        }
                    }
                }
            }
        },
        _ => st,
    }
}

/// A call statement: like a call expression, but with no destination.
pub open spec fn call_statement_spec(st: CompileState, s: Located<Statement>) -> CompileState
    decreases s, 0int,
{
    match s.value {
        Statement::Call { ident, args } => {
            let pos = s.pos;
            let args = args@;
            let (s1, func) = st.local(ident.value@, ident.pos);
            if s1.failed() {
                s1
            } else {
                let (s2, offset) = s1.reserve(args.len() as int);
                if s2.failed() {
                    s2
                } else {
                    let s3 = arguments_spec(s2, args, offset, 0);
                    if s3.failed() {
                        s3
                    } else {
                        s3.emit(ByteCode::Call { func, offset, args_len: args.len() as u8, dst: None }, pos).0
                    }
                }
            }
        },
        _ => st,
    }
}

/// `let` binds a new local; assignment resolves the name as an expression does.
/// Either way the value is moved into the name's register.
pub open spec fn binding_spec(st: CompileState, s: Located<Statement>) -> CompileState
    decreases s, 0int,
{
    match s.value {
        Statement::Let { ident, expr } => binding_rule(st, ident, expr, true, s.pos),
        Statement::Assign { ident, expr } => binding_rule(st, ident, expr, false, s.pos),
        _ => st,
    }
}

pub open spec fn binding_rule(
    st: CompileState,
    ident: Located<String>,
    expr: Located<Expression>,
    declare: bool,
    pos: Position,
) -> CompileState
    decreases expr, 1int,
{
    let (s1, reg) = if declare {
        st.new_local(ident.value@)
    } else {
        st.local(ident.value@, ident.pos)
    };
    if s1.failed() {
        s1
    } else {
        let (s2, src) = expression_spec(s1, expr);
        if s2.failed() {
            s2
        } else {
            s2.emit(ByteCode::Move { dst: reg, src }, pos).0
        }
    }
}

/// A statement; the register is `Some` exactly when the statement returned.
pub open spec fn statement_spec(st: CompileState, s: Located<Statement>) -> (CompileState, Option<Register>)
    decreases s, 1int,
{
    if st.failed() {
        (st, None)
    } else {
        match s.value {
            Statement::Block(b) => block_spec(st, b),
            Statement::Let { .. } => (binding_spec(st, s), None),
            Statement::Assign { .. } => (binding_spec(st, s), None),
            Statement::Call { .. } => (call_statement_spec(st, s), None),
            Statement::Def { ident, params, body } => (
                definition_spec(st, ident.value@, params@, body, s.pos),
                None,
            ),
            Statement::If { .. } => (if_spec(st, s), None),
            Statement::While { .. } => (while_spec(st, s), None),
            Statement::Return(expr) => {
                let (s1, src) = expression_spec(st, expr);
                if s1.failed() {
                    (s1, None)
                } else {
                    let (s2, _) = s1.emit(ByteCode::Return { src: Some(src) }, s.pos);
                    if s2.failed() {
                        (s2, None)
                    } else {
                        (s2, Some(src))
                    }
                }
            },
        }
    }
}

/// Top-level statements `i..`; a top-level `return` does not end compilation.
pub open spec fn top_level_spec(st: CompileState, stmts: Seq<Located<Statement>>, i: int) -> CompileState
    decreases stmts.len() - i,
{
    if st.failed() || i < 0 || i >= stmts.len() {
        st
    } else {
        let s1 = statement_spec(st, stmts[i]).0;
        if s1.failed() {
            s1
        } else {
            top_level_spec(s1, stmts, i + 1)
        }
    }
}

/// The state after the whole chunk, its final `Return` included.
pub open spec fn chunk_state(chunk: Located<Chunk>) -> CompileState {
    let start = CompileState { frame: FrameView::fresh(), templates: Seq::empty(), error: None };
    top_level_spec(start, chunk.value.0@, 0).emit(ByteCode::Return { src: None }, chunk.pos).0
}

/// The program compiled from a chunk: the top-level unit is stored after every
/// function template, or compilation reports the first limit it exceeded.
pub open spec fn compiled(chunk: Located<Chunk>) -> Result<ProgramView, CompileError> {
    let st = chunk_state(chunk);
    match st.error {
        Some(e) => Err(e),
        None => if st.templates.len() >= ADDRESS_LIMIT {
            Err(CompileError::TooManyFunctions)
        } else {
            Ok(ProgramView {
                templates: st.templates.push(st.frame.closure),
                entry: st.templates.len() as Address,
            })
        },
    }
}

/// Compilation is a function of the syntax tree: equal trees give equal
/// programs (instructions, positions, pools and frame sizes alike), with
/// constant pools in first-use order.
pub proof fn lemma_compile_deterministic(a: Located<Chunk>, b: Located<Chunk>)
    requires
        a == b,
    ensures
        compiled(a) == compiled(b),
{
}

// ---------------------------------------------------------------------------
// Scopes and frames
// ---------------------------------------------------------------------------

/// The locals declared in one block, and the register cursor when it opened.
#[derive(Debug, Clone)]
pub struct Scope {
    pub locals: Vec<(String, Register)>,
    pub offset: Register,
}

impl View for Scope {
    type V = ScopeView;

    open spec fn view(&self) -> ScopeView {
        ScopeView {
            locals: self.locals@.map_values(|p: (String, Register)| (p.0@, p.1)),
            offset: self.offset,
        }
    }
}

impl Scope {
    pub fn new(offset: Register) -> (r: Scope)
        ensures
            r@ == (ScopeView { locals: Seq::empty(), offset }),
    {
        let r = Scope { locals: Vec::new(), offset };
        assert(r@.locals =~= Seq::empty());
        r
    }

    fn position(&self, name: &String) -> (r: Option<usize>)
        ensures
            match r {
                Some(i) => find_local(self@.locals, name@, self@.locals.len() as int) == Some(i as int)
                    && i < self.locals.len(),
                None => find_local(self@.locals, name@, self@.locals.len() as int) is None,
            },
    {
        let mut i: usize = 0;
        while i < self.locals.len()
            invariant
                i <= self.locals.len(),
                find_local(self@.locals, name@, i as int) is None,
            decreases self.locals.len() - i,
        {
            if self.locals[i].0 == *name {
                proof {
                    lemma_find_local_extends(self@.locals, name@, i + 1, self@.locals.len() as int);
                }
                return Some(i);
            }
            i += 1;
        }
        None
    }

    pub fn get(&self, name: &String) -> (r: Option<Register>)
        ensures
            r == self@.get(name@),
    {
        match self.position(name) {
            Some(i) => Some(self.locals[i].1),
            None => None,
        }
    }

    pub fn insert(&mut self, name: String, reg: Register)
        ensures
            final(self)@ == old(self)@.insert(name@, reg),
    {
        match self.position(&name) {
            Some(i) => {
                self.locals.set(i, (name, reg));
                proof {
                    assert(self@.locals =~= old(self)@.insert(name@, reg).locals);
                }
            },
            None => {
                self.locals.push((name, reg));
                proof {
                    assert(self@.locals =~= old(self)@.insert(name@, reg).locals);
                }
            },
        }
    }
}

/// The compilation context of one function body.
#[derive(Debug, Clone)]
pub struct Frame {
    pub closure: Closure,
    pub registers: Register,
    pub scopes: Vec<Scope>,
}

impl View for Frame {
    type V = FrameView;

    open spec fn view(&self) -> FrameView {
        FrameView {
            closure: self.closure@,
            registers: self.registers,
            scopes: self.scopes@.map_values(|s: Scope| s@),
        }
    }
}

impl Frame {
    pub fn new() -> (r: Frame)
        ensures
            r@ == FrameView::fresh(),
    {
        let r = Frame { closure: Closure::new(), registers: 0, scopes: vec![Scope::new(0)] };
        assert(r@.scopes =~= FrameView::fresh().scopes);
        r
    }

    pub fn push_scope(&mut self)
        ensures
            final(self)@ == old(self)@.push_scope(),
    {
        let scope = Scope::new(self.registers);
        self.scopes.push(scope);
        assert(self@.scopes =~= old(self)@.push_scope().scopes);
    }

    pub fn pop_scope(&mut self)
        ensures
            final(self)@ == old(self)@.pop_scope(),
    {
        if let Some(scope) = self.scopes.pop() {
            self.registers = scope.offset;
            assert(self@.scopes =~= old(self)@.pop_scope().scopes);
        }
    }

    /// The register of the innermost visible local called `name`.
    pub fn resolve(&self, name: &String) -> (r: Option<Register>)
        ensures
            r == self@.resolve(name@),
    {
        let mut n: usize = self.scopes.len();
        while n > 0
            invariant
                n <= self.scopes.len(),
                lookup(self@.scopes, name@, n as int) == self@.resolve(name@),
            decreases n,
        {
            match self.scopes[n - 1].get(name) {
                Some(r) => {
                    return Some(r);
                },
                None => {
                    n -= 1;
                },
            }
        }
        None
    }

    pub fn new_register(&mut self) -> (r: Result<Register, CompileError>)
        ensures
            match old(self)@.new_register() {
                Ok((f, reg)) => r == Ok::<Register, CompileError>(reg) && final(self)@ == f,
                Err(e) => r == Err::<Register, CompileError>(e),
            },
    {
        if self.registers < REGISTER_LIMIT {
            let reg = self.registers;
            self.registers = reg + 1;
            if self.closure.registers < self.registers {
                self.closure.registers = self.registers;
            }
            Ok(reg)
        } else {
            Err(CompileError::TooManyRegisters)
        }
    }

    /// Reserves `n` contiguous registers for call arguments.
    pub fn reserve(&mut self, n: usize) -> (r: Result<Register, CompileError>)
        ensures
            match old(self)@.reserve(n as int) {
                Ok((f, reg)) => r == Ok::<Register, CompileError>(reg) && final(self)@ == f,
                Err(e) => r == Err::<Register, CompileError>(e),
            },
    {
        if n > ARGUMENT_LIMIT {
            Err(CompileError::TooManyArguments)
        } else if self.registers as usize + n > REGISTER_LIMIT as usize {
            Err(CompileError::TooManyRegisters)
        } else {
            let offset = self.registers;
            self.registers = offset + n as Register;
            if self.closure.registers < self.registers {
                self.closure.registers = self.registers;
            }
            Ok(offset)
        }
    }

    pub fn new_local(&mut self, ident: String) -> (r: Result<Register, CompileError>)
        requires
            old(self)@.wf(),
        ensures
            match old(self)@.new_local(ident@) {
                Ok((f, reg)) => r == Ok::<Register, CompileError>(reg) && final(self)@ == f,
                Err(e) => r == Err::<Register, CompileError>(e),
            },
    {
        let reg = self.new_register()?;
        let ghost mid = self@;
        let mut scope = self.scopes.pop().unwrap();
        scope.insert(ident, reg);
        self.scopes.push(scope);
        assert(self@.scopes =~= mid.bind(ident@, reg).scopes);
        Ok(reg)
    }

    /// Resolves an identifier: a visible local, or a new register loaded from the global table.
    pub fn local(&mut self, ident: &String, pos: Position) -> (r: Result<Register, CompileError>)
        requires
            old(self)@.wf(),
        ensures
            match old(self)@.local(ident@, pos) {
                Ok((f, reg)) => r == Ok::<Register, CompileError>(reg) && final(self)@ == f,
                Err(e) => r == Err::<Register, CompileError>(e),
            },
    {
        if let Some(reg) = self.resolve(ident) {
            return Ok(reg);
        }
        let reg = self.new_register()?;
        let addr = self.closure.new_string(ident.clone())?;
        self.closure.write(ByteCode::Global { dst: reg, addr }, pos)?;
        Ok(reg)
    }
}

// ---------------------------------------------------------------------------
// Compiler
// ---------------------------------------------------------------------------


/// Compilation in progress: the current frame, the frames of the functions
/// that enclose it, and every finished function template.
#[derive(Debug)]
pub struct Compiler {
    pub frame: Frame,
    pub enclosing: Vec<Frame>,
    pub templates: Vec<Closure>,
}

/// What a compile step owes: on success, exactly the modelled state and result;
/// on failure, the error the model records.
pub open spec fn follows<T>(after: &Compiler, model: (CompileState, T), r: Result<T, CompileError>) -> bool {
    match r {
        Ok(v) => !model.0.failed() && after.state() == model.0 && v == model.1 && after.wf(),
        Err(e) => model.0.error == Some(e),
    }
}

/// What a compile step leaves in place on success.
pub open spec fn keeps<T>(before: &Compiler, after: &Compiler, r: Result<T, CompileError>) -> bool {
    r is Ok ==> {
        &&& after.enclosing@ == before.enclosing@
        &&& after.frame.scopes.len() == before.frame.scopes.len()
        &&& after.frame.closure.code.len() >= before.frame.closure.code.len()
    }
}

impl Compiler {
    pub open spec fn state(&self) -> CompileState {
        CompileState {
            frame: self.frame@,
            templates: self.templates@.map_values(|c: Closure| c@),
            error: None,
        }
    }

    pub open spec fn wf(&self) -> bool {
        self.frame@.wf()
    }

    pub fn new() -> (r: Compiler)
        ensures
            r.state() == (CompileState { frame: FrameView::fresh(), templates: Seq::empty(), error: None }),
            r.enclosing@ == Seq::<Frame>::empty(),
            r.wf(),
    {
        let r = Compiler { frame: Frame::new(), enclosing: Vec::new(), templates: Vec::new() };
        assert(r.state().templates =~= Seq::empty());
        r
    }

    /// Starts compiling a nested function body in a fresh frame.
    pub fn push_frame(&mut self)
        ensures
            final(self).frame@ == FrameView::fresh(),
            final(self).enclosing@ == old(self).enclosing@.push(old(self).frame),
            final(self).templates == old(self).templates,
    {
        let mut frame = Frame::new();
        std::mem::swap(&mut frame, &mut self.frame);
        self.enclosing.push(frame);
    }

    /// Ends the current function body: hands its frame back and resumes the enclosing one.
    pub fn pop_frame(&mut self) -> (r: Option<Frame>)
        ensures
            final(self).templates == old(self).templates,
            old(self).enclosing.len() > 0 ==> {
                &&& r == Some(old(self).frame)
                &&& final(self).frame == old(self).enclosing@.last()
                &&& final(self).enclosing@ == old(self).enclosing@.drop_last()
            },
            old(self).enclosing.len() == 0 ==> r is None && final(self).frame == old(self).frame
                && final(self).enclosing@ == old(self).enclosing@,
    {
        match self.enclosing.pop() {
            Some(mut frame) => {
                std::mem::swap(&mut frame, &mut self.frame);
                Some(frame)
            },
            None => None,
        }
    }

    pub fn frame(&self) -> (r: &Frame)
        ensures
            *r == self.frame,
    {
        &self.frame
    }

    pub fn compile_expression(&mut self, e: &Located<Expression>) -> (r: Result<Register, CompileError>)
        requires
            old(self).wf(),
        ensures
            follows(final(self), expression_spec(old(self).state(), *e), r),
            keeps(old(self), final(self), r),
        decreases e, 0int,
    {
        match &e.value {
            Expression::Atom(a) => self.compile_atom(a, e.pos),
            Expression::Binary { op, left, right } => {
                let dst = self.frame.new_register()?;
                let l = self.compile_expression(left)?;
                let r = self.compile_expression(right)?;
                let op = BinaryOperation::from(*op);
                self.frame.closure.write(ByteCode::Binary { op, dst, left: l, right: r }, e.pos)?;
                Ok(dst)
            },
            Expression::Unary { op, right } => {
                let dst = self.frame.new_register()?;
                let src = self.compile_expression(right)?;
                let op = UnaryOperation::from(*op);
                self.frame.closure.write(ByteCode::Unary { op, dst, src }, e.pos)?;
                Ok(dst)
            },
            Expression::Call { head, args } => {
                let dst = self.frame.new_register()?;
                let func = self.compile_expression(head)?;
                let offset = self.frame.reserve(args.len())?;
                self.compile_arguments(args, offset)?;
                self.frame.closure.write(
                    ByteCode::Call { func, offset, args_len: args.len() as u8, dst: Some(dst) },
                    e.pos,
                )?;
                Ok(dst)
            },
        }
    }

    pub fn compile_atom(&mut self, a: &Atom, pos: Position) -> (r: Result<Register, CompileError>)
        requires
            old(self).wf(),
        ensures
            follows(final(self), atom_spec(old(self).state(), *a, pos), r),
            keeps(old(self), final(self), r),
        decreases a, 0int,
    {
        match a {
            Atom::Ident(name) => self.frame.local(name, pos),
            Atom::Number(n) => {
                let addr = self.frame.closure.new_number(*n)?;
                let dst = self.frame.new_register()?;
                self.frame.closure.write(ByteCode::Number { dst, addr }, pos)?;
                Ok(dst)
            },
            Atom::String(s) => {
                let addr = self.frame.closure.new_string(s.clone())?;
                let dst = self.frame.new_register()?;
                self.frame.closure.write(ByteCode::String { dst, addr }, pos)?;
                Ok(dst)
            },
            Atom::Expression(inner) => self.compile_expression(inner),
        }
    }

    /// Compiles each argument and moves it into its slot of the block at `offset`.
    pub fn compile_arguments(&mut self, args: &Vec<Located<Expression>>, offset: Register) -> (r: Result<(), CompileError>)
        requires
            old(self).wf(),
            offset + args.len() <= REGISTER_LIMIT,
        ensures
            follows(final(self), (arguments_spec(old(self).state(), args@, offset, 0), ()), r),
            keeps(old(self), final(self), r),
        decreases args@, args.len() + 1,
    {
        let mut i: usize = 0;
        while i < args.len()
            invariant
                i <= args.len(),
                offset + args.len() <= REGISTER_LIMIT,
                self.wf(),
                arguments_spec(old(self).state(), args@, offset, 0) == arguments_spec(self.state(), args@, offset, i as int),
                self.enclosing@ == old(self).enclosing@,
                self.frame.scopes.len() == old(self).frame.scopes.len(),
                self.frame.closure.code.len() >= old(self).frame.closure.code.len(),
            decreases args.len() - i,
        {
            let arg = &args[i];
            let src = self.compile_expression(arg)?;
            self.frame.closure.write(ByteCode::Move { dst: offset + i as Register, src }, arg.pos)?;
            i += 1;
        }
        Ok(())
    }

    pub fn compile_block(&mut self, b: &Block) -> (r: Result<Option<Register>, CompileError>)
        requires
            old(self).wf(),
        ensures
            follows(final(self), block_spec(old(self).state(), *b), r),
            keeps(old(self), final(self), r),
        decreases b, 0int,
    {
        self.frame.push_scope();
        let ret = self.compile_statements(&b.0)?;
        self.frame.pop_scope();
        Ok(ret)
    }

    /// Compiles statements in order, stopping after the first that returns.
    pub fn compile_statements(&mut self, stmts: &Vec<Located<Statement>>) -> (r: Result<Option<Register>, CompileError>)
        requires
            old(self).wf(),
        ensures
            follows(final(self), statements_spec(old(self).state(), stmts@, 0), r),
            keeps(old(self), final(self), r),
        decreases stmts@, stmts.len() + 1,
    {
        let mut i: usize = 0;
        while i < stmts.len()
            invariant
                i <= stmts.len(),
                self.wf(),
                statements_spec(old(self).state(), stmts@, 0) == statements_spec(self.state(), stmts@, i as int),
                self.enclosing@ == old(self).enclosing@,
                self.frame.scopes.len() == old(self).frame.scopes.len(),
                self.frame.closure.code.len() >= old(self).frame.closure.code.len(),
            decreases stmts.len() - i,
        {
            if let Some(reg) = self.compile_statement(&stmts[i])? {
                return Ok(Some(reg));
            }
            i += 1;
        }
        Ok(None)
    }

    pub fn compile_parameters(&mut self, params: &Vec<Located<String>>) -> (r: Result<(), CompileError>)
        requires
            old(self).wf(),
        ensures
            follows(final(self), (parameters_spec(old(self).state(), params@, 0), ()), r),
            keeps(old(self), final(self), r),
    {
        let mut i: usize = 0;
        while i < params.len()
            invariant
                i <= params.len(),
                self.wf(),
                parameters_spec(old(self).state(), params@, 0) == parameters_spec(self.state(), params@, i as int),
                self.enclosing@ == old(self).enclosing@,
                self.frame.scopes.len() == old(self).frame.scopes.len(),
                self.frame.closure.code.len() >= old(self).frame.closure.code.len(),
            decreases params.len() - i,
        {
            self.frame.new_local(params[i].value.clone())?;
            i += 1;
        }
        Ok(())
    }

    pub fn compile_definition(
        &mut self,
        ident: &String,
        params: &Vec<Located<String>>,
        body: &Located<Block>,
        pos: Position,
    ) -> (r: Result<(), CompileError>)
        requires
            old(self).wf(),
        ensures
            follows(final(self), (definition_spec(old(self).state(), ident@, params@, *body, pos), ()), r),
            keeps(old(self), final(self), r),
        decreases body, 0int,
    {
        let reg = self.frame.new_local(ident.clone())?;
        let ghost outer = self.frame;
        self.push_frame();
        self.compile_parameters(params)?;
        self.compile_block(&body.value)?;
        self.frame.closure.write(ByteCode::Return { src: None }, pos)?;
        let popped = self.pop_frame();
        let inner = match popped {
            Some(f) => f,
            None => {
                proof {
                    assert(false);
                }
                return Ok(());
            },
        };
        assert(self.frame == outer);
        assert(self.enclosing@ =~= old(self).enclosing@);
        assert(outer.closure.code@ == old(self).frame.closure@.code);
        if self.templates.len() >= ADDRESS_LIMIT {
            return Err(CompileError::TooManyFunctions);
        }
        let id = self.templates.len() as Address;
        let ghost before = self.templates@;
        self.templates.push(inner.closure);
        assert(self.templates@.map_values(|c: Closure| c@) =~= before.map_values(|c: Closure| c@).push(inner.closure@));
        let addr = self.frame.closure.new_closure(id)?;
        self.frame.closure.write(ByteCode::Closure { dst: reg, addr }, pos)?;
        Ok(())
    }

    pub fn compile_statement(&mut self, s: &Located<Statement>) -> (r: Result<Option<Register>, CompileError>)
        requires
            old(self).wf(),
        ensures
            follows(final(self), statement_spec(old(self).state(), *s), r),
            keeps(old(self), final(self), r),
        decreases s, 1int,
    {
        match &s.value {
            Statement::Block(b) => self.compile_block(b),
            Statement::Let { .. } | Statement::Assign { .. } => {
                self.compile_binding(s)?;
                Ok(None)
            },
            Statement::Call { .. } => {
                self.compile_call_statement(s)?;
                Ok(None)
            },
            Statement::Def { ident, params, body } => {
                self.compile_definition(&ident.value, params, body, s.pos)?;
                Ok(None)
            },
            Statement::If { .. } => {
                self.compile_if(s)?;
                Ok(None)
            },
            Statement::While { .. } => {
                self.compile_while(s)?;
                Ok(None)
            },
            Statement::Return(expr) => {
                let src = self.compile_expression(expr)?;
                self.frame.closure.write(ByteCode::Return { src: Some(src) }, s.pos)?;
                Ok(Some(src))
            },
        }
    }

    pub fn compile_binding(&mut self, s: &Located<Statement>) -> (r: Result<(), CompileError>)
        requires
            old(self).wf(),
        ensures
            follows(final(self), (binding_spec(old(self).state(), *s), ()), r),
            keeps(old(self), final(self), r),
        decreases s, 0int,
    {
        let (ident, expr, declare) = match &s.value {
            Statement::Let { ident, expr } => (ident, expr, true),
            Statement::Assign { ident, expr } => (ident, expr, false),
            _ => {
                return Ok(());
            },
        };
        let reg = if declare {
            self.frame.new_local(ident.value.clone())?
        } else {
            self.frame.local(&ident.value, ident.pos)?
        };
        let src = self.compile_expression(expr)?;
        self.frame.closure.write(ByteCode::Move { dst: reg, src }, s.pos)?;
        Ok(())
    }

    pub fn compile_call_statement(&mut self, s: &Located<Statement>) -> (r: Result<(), CompileError>)
        requires
            old(self).wf(),
        ensures
            follows(final(self), (call_statement_spec(old(self).state(), *s), ()), r),
            keeps(old(self), final(self), r),
        decreases s, 0int,
    {
        if let Statement::Call { ident, args } = &s.value {
            let func = self.frame.local(&ident.value, ident.pos)?;
            let offset = self.frame.reserve(args.len())?;
            self.compile_arguments(args, offset)?;
            self.frame.closure.write(
                ByteCode::Call { func, offset, args_len: args.len() as u8, dst: None },
                s.pos,
            )?;
        }
        Ok(())
    }

    pub fn compile_if(&mut self, s: &Located<Statement>) -> (r: Result<(), CompileError>)
        requires
            old(self).wf(),
        ensures
            follows(final(self), (if_spec(old(self).state(), *s), ()), r),
            keeps(old(self), final(self), r),
        decreases s, 0int,
    {
        if let Statement::If { cond, case, else_case } = &s.value {
            let c = self.compile_expression(cond)?;
            let check = self.frame.closure.write(ByteCode::Nop, s.pos)?;
            self.compile_block(&case.value)?;
            let case_exit = self.frame.closure.write(ByteCode::Nop, s.pos)?;
            let else_addr = self.frame.closure.code.len() as Address;
            if let Some(b) = else_case {
                self.compile_block(&b.value)?;
            }
            let exit = self.frame.closure.code.len() as Address;
            self.frame.closure.overwrite(check, ByteCode::JumpIf { not: true, cond: c, addr: else_addr });
            self.frame.closure.overwrite(case_exit, ByteCode::Jump { addr: exit });
        }
        Ok(())
    }

    pub fn compile_while(&mut self, s: &Located<Statement>) -> (r: Result<(), CompileError>)
        requires
            old(self).wf(),
        ensures
            follows(final(self), (while_spec(old(self).state(), *s), ()), r),
            keeps(old(self), final(self), r),
        decreases s, 0int,
    {
        if let Statement::While { cond, body } = &s.value {
            let start = self.frame.closure.code.len() as Address;
            let c = self.compile_expression(cond)?;
            let check = self.frame.closure.write(ByteCode::Nop, s.pos)?;
            self.compile_block(&body.value)?;
            self.frame.closure.write(ByteCode::Jump { addr: start }, s.pos)?;
            let exit = self.frame.closure.code.len() as Address;
            self.frame.closure.overwrite(check, ByteCode::JumpIf { not: true, cond: c, addr: exit });
        }
        Ok(())
    }
}

/// Compiles a chunk into a program; the result is exactly the modelled one.
pub fn compile(chunk: &Located<Chunk>) -> (r: Result<Program, CompileError>)
    ensures
        match r {
            Ok(p) => compiled(*chunk) == Ok::<ProgramView, CompileError>(p@),
            Err(e) => compiled(*chunk) == Err::<ProgramView, CompileError>(e),
        },
{
    let mut c = Compiler::new();
    let stmts = &chunk.value.0;
    let ghost start = c.state();
    let mut i: usize = 0;
    while i < stmts.len()
        invariant
            i <= stmts.len(),
            stmts@ == chunk.value.0@,
            start == (CompileState { frame: FrameView::fresh(), templates: Seq::empty(), error: None }),
            c.wf(),
            top_level_spec(start, stmts@, 0) == top_level_spec(c.state(), stmts@, i as int),
        decreases stmts.len() - i,
    {
        c.compile_statement(&stmts[i])?;
        i += 1;
    }
    c.frame.closure.write(ByteCode::Return { src: None }, chunk.pos)?;
    if c.templates.len() >= ADDRESS_LIMIT {
        return Err(CompileError::TooManyFunctions);
    }
    let entry = c.templates.len() as Address;
    let Compiler { frame, enclosing: _, mut templates } = c;
    let ghost before = templates@;
    templates.push(frame.closure);
    let p = Program { templates, entry };
    assert(p@.templates =~= before.map_values(|c: Closure| c@).push(frame.closure@));
    Ok(p)
}

} // verus!
