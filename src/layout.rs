use vstd::prelude::*;
use crate::ast::{Atom, Block, Expression, Statement};
use crate::bytecode::{ByteCode, Register};
use crate::compiler::{
    REGISTER_LIMIT, arguments_spec, atom_spec, binding_rule, binding_spec, block_spec, call_statement_spec,
    definition_spec, expression_spec, if_spec, statement_spec, statements_spec, while_spec,
    CompileState,
};
use crate::position::{Located, Position};

verus! {

/// What a compile step that did not fail leaves in place: every instruction
/// already emitted, the number of open scopes, every scope but the innermost,
/// and the register cursor at which the innermost opened.
pub open spec fn extends(a: CompileState, b: CompileState) -> bool {
    let (ac, bc) = (a.frame.closure.code, b.frame.closure.code);
    let (asc, bsc) = (a.frame.scopes, b.frame.scopes);
    !b.failed() ==> {
        &&& !a.failed()
        &&& ac.len() <= bc.len()
        &&& forall|i: int| 0 <= i < ac.len() ==> #[trigger] bc[i] == ac[i]
        &&& bsc.len() == asc.len()
        &&& forall|i: int| 0 <= i < asc.len() - 1 ==> #[trigger] bsc[i] == asc[i]
        &&& asc.len() > 0 ==> bsc[bsc.len() - 1].offset == asc[asc.len() - 1].offset
    }
}

pub proof fn lemma_extends_trans(a: CompileState, b: CompileState, c: CompileState)
    requires
        extends(a, b),
        extends(b, c),
        !c.failed() ==> !b.failed(),
    ensures
        extends(a, c),
{
    if !c.failed() {
        assert forall|i: int| 0 <= i < a.frame.closure.code.len() implies #[trigger] c.frame.closure.code[i]
            == a.frame.closure.code[i] by {
            assert(c.frame.closure.code[i] == b.frame.closure.code[i]);
        }
        assert forall|i: int| 0 <= i < a.frame.scopes.len() - 1 implies #[trigger] c.frame.scopes[i]
            == a.frame.scopes[i] by {
            assert(c.frame.scopes[i] == b.frame.scopes[i]);
        }
    }
}

pub proof fn lemma_primitives_extend(st: CompileState, name: Seq<char>, pos: Position, n: int, bc: ByteCode)
    requires
        st.frame.scopes.len() > 0,
    ensures
        extends(st, st.new_register().0),
        extends(st, st.reserve(n).0),
        extends(st, st.new_local(name).0),
        extends(st, st.local(name, pos).0),
        extends(st, st.add_string(name).0),
        extends(st, st.add_closure(0).0),
        extends(st, st.emit(bc, pos).0),
        st.new_register().0.frame.scopes.len() > 0,
        st.reserve(n).0.frame.scopes.len() > 0,
        st.new_local(name).0.frame.scopes.len() > 0,
        st.local(name, pos).0.frame.scopes.len() > 0,
        st.emit(bc, pos).0.frame.scopes.len() > 0,
{
}

pub proof fn lemma_number_extends(st: CompileState, x: crate::number::Number)
    ensures
        extends(st, st.add_number(x).0),
        st.add_number(x).0.frame.scopes == st.frame.scopes,
{
}

/// Patching an instruction at or after `from` keeps everything before `from`.
pub proof fn lemma_patch_extends(st: CompileState, addr: int, bc: ByteCode, a: CompileState)
    requires
        extends(a, st),
        !st.failed(),
        addr >= a.frame.closure.code.len(),
    ensures
        extends(a, st.patch(addr, bc)),
        st.patch(addr, bc).frame.closure.code.len() == st.frame.closure.code.len(),
        st.patch(addr, bc).frame.scopes == st.frame.scopes,
{
}

pub proof fn lemma_expression_extends(st: CompileState, e: Located<Expression>)
    requires
        st.frame.scopes.len() > 0,
    ensures
        extends(st, expression_spec(st, e).0),
    decreases e, 0int,
{
    if !st.failed() {
        match e.value {
            Expression::Atom(a) => lemma_atom_extends(st, a, e.pos),
            Expression::Binary { op, left, right } => {
                let (s1, dst) = st.new_register();
                lemma_primitives_extend(st, Seq::empty(), e.pos, 0, ByteCode::Nop);
                if !s1.failed() {
                    let (s2, l) = expression_spec(s1, *left);
                    lemma_expression_extends(s1, *left);
                    lemma_extends_trans(st, s1, s2);
                    if !s2.failed() {
                        let (s3, r) = expression_spec(s2, *right);
                        lemma_expression_extends(s2, *right);
                        lemma_extends_trans(st, s2, s3);
                        if !s3.failed() {
                            let bc = ByteCode::Binary { op: crate::bytecode::binary_operation(op), dst, left: l, right: r };
                            lemma_primitives_extend(s3, Seq::empty(), e.pos, 0, bc);
                            lemma_extends_trans(st, s3, s3.emit(bc, e.pos).0);
                        }
                    }
                }
            },
            Expression::Unary { op, right } => {
                let (s1, dst) = st.new_register();
                lemma_primitives_extend(st, Seq::empty(), e.pos, 0, ByteCode::Nop);
                if !s1.failed() {
                    let (s2, src) = expression_spec(s1, *right);
                    lemma_expression_extends(s1, *right);
                    lemma_extends_trans(st, s1, s2);
                    if !s2.failed() {
                        let bc = ByteCode::Unary { op: crate::bytecode::unary_operation(op), dst, src };
                        lemma_primitives_extend(s2, Seq::empty(), e.pos, 0, bc);
                        lemma_extends_trans(st, s2, s2.emit(bc, e.pos).0);
                    }
                }
            },
            Expression::Call { head, args } => {
                let (s1, dst) = st.new_register();
                lemma_primitives_extend(st, Seq::empty(), e.pos, args@.len() as int, ByteCode::Nop);
                if !s1.failed() {
                    let (s2, func) = expression_spec(s1, *head);
                    lemma_expression_extends(s1, *head);
                    lemma_extends_trans(st, s1, s2);
                    if !s2.failed() {
                        let (s3, offset) = s2.reserve(args@.len() as int);
                        lemma_primitives_extend(s2, Seq::empty(), e.pos, args@.len() as int, ByteCode::Nop);
                        lemma_extends_trans(st, s2, s3);
                        if !s3.failed() {
                            let s4 = arguments_spec(s3, args@, offset, 0);
                            lemma_arguments_extends(s3, args@, offset, 0);
                            lemma_extends_trans(st, s3, s4);
                            if !s4.failed() {
                                let bc = ByteCode::Call { func, offset, args_len: args@.len() as u8, dst: Some(dst) };
                                lemma_primitives_extend(s4, Seq::empty(), e.pos, 0, bc);
                                lemma_extends_trans(st, s4, s4.emit(bc, e.pos).0);
                            }
                        }
                    }
                }
            },
        }
    }
}

pub proof fn lemma_atom_extends(st: CompileState, a: Atom, pos: Position)
    requires
        st.frame.scopes.len() > 0,
    ensures
        extends(st, atom_spec(st, a, pos).0),
    decreases a, 0int,
{
    if !st.failed() {
        match a {
            Atom::Ident(name) => lemma_primitives_extend(st, name@, pos, 0, ByteCode::Nop),
            Atom::Number(n) => {
                let (s1, addr) = st.add_number(n);
                lemma_number_extends(st, n);
                let (s2, dst) = s1.new_register();
                lemma_primitives_extend(s1, Seq::empty(), pos, 0, ByteCode::Number { dst, addr });
                lemma_extends_trans(st, s1, s2);
                lemma_primitives_extend(s2, Seq::empty(), pos, 0, ByteCode::Number { dst, addr });
                lemma_extends_trans(st, s2, s2.emit(ByteCode::Number { dst, addr }, pos).0);
            },
            Atom::String(s) => {
                let (s1, addr) = st.add_string(s@);
                lemma_primitives_extend(st, s@, pos, 0, ByteCode::Nop);
                let (s2, dst) = s1.new_register();
                lemma_primitives_extend(s1, Seq::empty(), pos, 0, ByteCode::String { dst, addr });
                lemma_extends_trans(st, s1, s2);
                lemma_primitives_extend(s2, Seq::empty(), pos, 0, ByteCode::String { dst, addr });
                lemma_extends_trans(st, s2, s2.emit(ByteCode::String { dst, addr }, pos).0);
            },
            Atom::Expression(inner) => lemma_expression_extends(st, *inner),
        }
    }
}

pub proof fn lemma_arguments_extends(st: CompileState, args: Seq<Located<Expression>>, offset: Register, i: int)
    requires
        st.frame.scopes.len() > 0,
    ensures
        extends(st, arguments_spec(st, args, offset, i)),
    decreases args, args.len() - i,
{
    if !(st.failed() || i < 0 || i >= args.len()) {
        let (s1, src) = expression_spec(st, args[i]);
        lemma_expression_extends(st, args[i]);
        if !s1.failed() {
            let bc = ByteCode::Move { dst: (offset + i) as Register, src };
            let (s2, _) = s1.emit(bc, args[i].pos);
            lemma_primitives_extend(s1, Seq::empty(), args[i].pos, 0, bc);
            lemma_extends_trans(st, s1, s2);
            if !s2.failed() {
                lemma_arguments_extends(s2, args, offset, i + 1);
                lemma_extends_trans(st, s2, arguments_spec(s2, args, offset, i + 1));
            }
        }
    }
}

/// A block gives back what it took: afterwards the register cursor and the
/// open scopes are exactly as before, so the registers of its locals are free
/// again for whatever follows, a sibling block included.
pub proof fn lemma_block_extends(st: CompileState, b: Block)
    requires
        st.frame.scopes.len() > 0,
    ensures
        extends(st, block_spec(st, b).0),
        !block_spec(st, b).0.failed() ==> block_spec(st, b).0.frame.registers == st.frame.registers
            && block_spec(st, b).0.frame.scopes == st.frame.scopes,
    decreases b, 0int,
{
    if !st.failed() {
        let p = st.push_scope();
        let (s1, ret) = statements_spec(p, b.0@, 0);
        lemma_statements_extends(p, b.0@, 0);
        if !s1.failed() {
            let r = s1.pop_scope();
            assert(r.frame.scopes =~= st.frame.scopes) by {
                assert forall|i: int| 0 <= i < st.frame.scopes.len() implies r.frame.scopes[i] == st.frame.scopes[i] by {
                    assert(s1.frame.scopes[i] == p.frame.scopes[i]);
                }
            }
        }
    }
}

pub proof fn lemma_statements_extends(st: CompileState, stmts: Seq<Located<Statement>>, i: int)
    requires
        st.frame.scopes.len() > 0,
    ensures
        extends(st, statements_spec(st, stmts, i).0),
    decreases stmts, stmts.len() - i,
{
    if !(st.failed() || i < 0 || i >= stmts.len()) {
        let (s1, ret) = statement_spec(st, stmts[i]);
        lemma_statement_extends(st, stmts[i]);
        if !s1.failed() && ret is None {
            lemma_statements_extends(s1, stmts, i + 1);
            lemma_extends_trans(st, s1, statements_spec(s1, stmts, i + 1).0);
        }
    }
}

pub proof fn lemma_statement_extends(st: CompileState, s: Located<Statement>)
    requires
        st.frame.scopes.len() > 0,
    ensures
        extends(st, statement_spec(st, s).0),
    decreases s, 1int,
{
    if !st.failed() {
        match s.value {
            Statement::Block(b) => lemma_block_extends(st, b),
            Statement::Let { .. } | Statement::Assign { .. } => lemma_binding_extends(st, s),
            Statement::Call { .. } => lemma_call_statement_extends(st, s),
            Statement::Def { ident, params, body } => lemma_definition_extends(st, ident.value@, params@, body, s.pos),
            Statement::If { .. } => lemma_if_extends(st, s),
            Statement::While { .. } => lemma_while_extends(st, s),
            Statement::Return(expr) => {
                let (s1, src) = expression_spec(st, expr);
                lemma_expression_extends(st, expr);
                if !s1.failed() {
                    let bc = ByteCode::Return { src: Some(src) };
                    lemma_primitives_extend(s1, Seq::empty(), s.pos, 0, bc);
                    lemma_extends_trans(st, s1, s1.emit(bc, s.pos).0);
                }
            },
        }
    }
}

pub proof fn lemma_binding_extends(st: CompileState, s: Located<Statement>)
    requires
        st.frame.scopes.len() > 0,
    ensures
        extends(st, binding_spec(st, s)),
    decreases s, 0int,
{
    match s.value {
        Statement::Let { ident, expr } => lemma_binding_rule_extends(st, ident, expr, true, s.pos),
        Statement::Assign { ident, expr } => lemma_binding_rule_extends(st, ident, expr, false, s.pos),
        _ => {},
    }
}

pub proof fn lemma_binding_rule_extends(
    st: CompileState,
    ident: Located<String>,
    expr: Located<Expression>,
    declare: bool,
    pos: Position,
)
    requires
        st.frame.scopes.len() > 0,
    ensures
        extends(st, binding_rule(st, ident, expr, declare, pos)),
    decreases expr, 1int,
{
    lemma_primitives_extend(st, ident.value@, ident.pos, 0, ByteCode::Nop);
    let (s1, reg) = if declare {
        st.new_local(ident.value@)
    } else {
        st.local(ident.value@, ident.pos)
    };
    if !s1.failed() {
        let (s2, src) = expression_spec(s1, expr);
        lemma_expression_extends(s1, expr);
        lemma_extends_trans(st, s1, s2);
        if !s2.failed() {
            let bc = ByteCode::Move { dst: reg, src };
            lemma_primitives_extend(s2, Seq::empty(), pos, 0, bc);
            lemma_extends_trans(st, s2, s2.emit(bc, pos).0);
        }
    }
}

pub proof fn lemma_call_statement_extends(st: CompileState, s: Located<Statement>)
    requires
        st.frame.scopes.len() > 0,
    ensures
        extends(st, call_statement_spec(st, s)),
    decreases s, 0int,
{
    if let Statement::Call { ident, args } = s.value {
        let args = args@;
        let (s1, func) = st.local(ident.value@, ident.pos);
        lemma_primitives_extend(st, ident.value@, ident.pos, 0, ByteCode::Nop);
        if !s1.failed() {
            let (s2, offset) = s1.reserve(args.len() as int);
            lemma_primitives_extend(s1, Seq::empty(), s.pos, args.len() as int, ByteCode::Nop);
            lemma_extends_trans(st, s1, s2);
            if !s2.failed() {
                let s3 = arguments_spec(s2, args, offset, 0);
                lemma_arguments_extends(s2, args, offset, 0);
                lemma_extends_trans(st, s2, s3);
                if !s3.failed() {
                    let bc = ByteCode::Call { func, offset, args_len: args.len() as u8, dst: None };
                    lemma_primitives_extend(s3, Seq::empty(), s.pos, 0, bc);
                    lemma_extends_trans(st, s3, s3.emit(bc, s.pos).0);
                }
            }
        }
    }
}

pub proof fn lemma_definition_extends(
    st: CompileState,
    name: Seq<char>,
    params: Seq<Located<String>>,
    body: Located<Block>,
    pos: Position,
)
    requires
        st.frame.scopes.len() > 0,
    ensures
        extends(st, definition_spec(st, name, params, body, pos)),
    decreases body, 0int,
{
    if !st.failed() {
        let (s1, reg) = st.new_local(name);
        lemma_primitives_extend(st, name, pos, 0, ByteCode::Nop);
        let r = definition_spec(st, name, params, body, pos);
        if !r.failed() {
            let inner = CompileState { frame: crate::compiler::FrameView::fresh(), templates: s1.templates, error: None };
            let s2 = crate::compiler::parameters_spec(inner, params, 0);
            let (s3, _) = block_spec(s2, body.value);
            let (s4, _) = s3.emit(ByteCode::Return { src: None }, pos);
            let id = s4.templates.len() as crate::bytecode::Address;
            let s5 = CompileState { frame: s1.frame, templates: s4.templates.push(s4.frame.closure), error: None };
            let (s6, addr) = s5.add_closure(id);
            lemma_primitives_extend(s5, Seq::empty(), pos, 0, ByteCode::Closure { dst: reg, addr });
            lemma_extends_trans(st, s5, s6);
            lemma_primitives_extend(s6, Seq::empty(), pos, 0, ByteCode::Closure { dst: reg, addr });
            lemma_extends_trans(st, s6, s6.emit(ByteCode::Closure { dst: reg, addr }, pos).0);
        }
    }
}

pub proof fn lemma_if_extends(st: CompileState, s: Located<Statement>)
    requires
        st.frame.scopes.len() > 0,
    ensures
        extends(st, if_spec(st, s)),
    decreases s, 0int,
{
    if let Statement::If { cond, case, else_case } = s.value {
        let pos = s.pos;
        let (s1, c) = expression_spec(st, cond);
        lemma_expression_extends(st, cond);
        if !s1.failed() {
            let (s2, check) = s1.emit(ByteCode::Nop, pos);
            lemma_primitives_extend(s1, Seq::empty(), pos, 0, ByteCode::Nop);
            lemma_extends_trans(st, s1, s2);
            if !s2.failed() {
                let (s3, _) = block_spec(s2, case.value);
                lemma_block_extends(s2, case.value);
                lemma_extends_trans(st, s2, s3);
                if !s3.failed() {
                    let (s4, case_exit) = s3.emit(ByteCode::Nop, pos);
                    lemma_primitives_extend(s3, Seq::empty(), pos, 0, ByteCode::Nop);
                    lemma_extends_trans(st, s3, s4);
                    if !s4.failed() {
                        let else_addr = s4.code_len();
                        let s5 = match else_case {
                            Some(b) => block_spec(s4, b.value).0,
                            None => s4,
                        };
                        if let Some(b) = else_case {
                            lemma_block_extends(s4, b.value);
                        }
                        lemma_extends_trans(st, s4, s5);
                        if !s5.failed() {
                            let exit = s5.code_len();
                            let branch = ByteCode::JumpIf { not: true, cond: c, addr: else_addr as crate::bytecode::Address };
                            lemma_patch_extends(s5, check as int, branch, st);
                            let s6 = s5.patch(check as int, branch);
                            lemma_patch_extends(s6, case_exit as int, ByteCode::Jump { addr: exit as crate::bytecode::Address }, st);
                        }
                    }
                }
            }
        }
    }
}

pub proof fn lemma_while_extends(st: CompileState, s: Located<Statement>)
    requires
        st.frame.scopes.len() > 0,
    ensures
        extends(st, while_spec(st, s)),
    decreases s, 0int,
{
    if let Statement::While { cond, body } = s.value {
        let pos = s.pos;
        let start = st.code_len();
        let (s1, c) = expression_spec(st, cond);
        lemma_expression_extends(st, cond);
        if !s1.failed() {
            let (s2, check) = s1.emit(ByteCode::Nop, pos);
            lemma_primitives_extend(s1, Seq::empty(), pos, 0, ByteCode::Nop);
            lemma_extends_trans(st, s1, s2);
            if !s2.failed() {
                let (s3, _) = block_spec(s2, body.value);
                lemma_block_extends(s2, body.value);
                lemma_extends_trans(st, s2, s3);
                if !s3.failed() {
                    let bc = ByteCode::Jump { addr: start as crate::bytecode::Address };
                    let (s4, _) = s3.emit(bc, pos);
                    lemma_primitives_extend(s3, Seq::empty(), pos, 0, bc);
                    lemma_extends_trans(st, s3, s4);
                    if !s4.failed() {
                        let exit = s4.code_len();
                        let branch = ByteCode::JumpIf { not: true, cond: c, addr: exit as crate::bytecode::Address };
                        lemma_patch_extends(s4, check as int, branch, st);
                    }
                }
            }
        }
    }
}

/// `bc` moves a value into register `r`.
pub open spec fn moves_into(bc: ByteCode, r: int) -> bool {
    match bc {
        ByteCode::Move { dst, src: _ } => dst == r,
        _ => false,
    }
}

/// From index `from` on, `code` holds moves into registers `offset + j`,
/// `offset + j + 1`, ..., `offset + n - 1`, in that order.
pub open spec fn moves_in_order(code: Seq<Located<ByteCode>>, from: int, offset: int, j: int, n: int) -> bool
    decreases n - j,
{
    j >= n || exists|k: int|
        from <= k < code.len() && moves_into(#[trigger] code[k].value, offset + j) && moves_in_order(
            code,
            k + 1,
            offset,
            j + 1,
            n,
        )
}

/// Call convention, compiler side: the arguments of a call are compiled left
/// to right, and argument `j` is moved into register `offset + j` of the
/// contiguous block reserved for them.
pub proof fn lemma_arguments_in_order(st: CompileState, args: Seq<Located<Expression>>, offset: Register, i: int)
    requires
        st.frame.scopes.len() > 0,
        0 <= i <= args.len(),
        offset + args.len() <= REGISTER_LIMIT,
    ensures
        !arguments_spec(st, args, offset, i).failed() ==> moves_in_order(
            arguments_spec(st, args, offset, i).frame.closure.code,
            st.code_len(),
            offset as int,
            i,
            args.len() as int,
        ),
    decreases args.len() - i,
{
    let r = arguments_spec(st, args, offset, i);
    if !r.failed() && i < args.len() {
        let (s1, src) = expression_spec(st, args[i]);
        lemma_expression_extends(st, args[i]);
        let bc = ByteCode::Move { dst: (offset + i) as Register, src };
        let (s2, k) = s1.emit(bc, args[i].pos);
        lemma_arguments_extends(s2, args, offset, i + 1);
        lemma_arguments_in_order(s2, args, offset, i + 1);
        let kk = s1.code_len();
        assert(r.frame.closure.code[kk] == s2.frame.closure.code[kk]);
        assert(moves_into(r.frame.closure.code[kk].value, offset + i));
    }
}

/// `bc` branches to `target` when its condition is falsy.
pub open spec fn branches_if_falsy(bc: ByteCode, target: int) -> bool {
    match bc {
        ByteCode::JumpIf { not, cond: _, addr } => not && addr == target,
        _ => false,
    }
}

/// `if`/`else` layout: after the condition comes a branch that, when the
/// condition is falsy, skips the `then` block and the jump that closes it; that
/// jump goes to the end of the whole construct. With the step rule's branch,
/// control runs exactly one of the two blocks and then reaches the end.
pub proof fn lemma_if_layout(st: CompileState, s: Located<Statement>)
    requires
        st.frame.scopes.len() > 0,
        s.value is If,
        !if_spec(st, s).failed(),
    ensures
        ({
            let code = if_spec(st, s).frame.closure.code;
            exists|check: int, case_exit: int|
                st.code_len() <= check < case_exit < code.len() && branches_if_falsy(
                    #[trigger] code[check].value,
                    case_exit + 1,
                ) && #[trigger] code[case_exit].value == (ByteCode::Jump { addr: code.len() as crate::bytecode::Address })
        }),
{
    if let Statement::If { cond, case, else_case } = s.value {
        let pos = s.pos;
        let (s1, c) = expression_spec(st, cond);
        lemma_expression_extends(st, cond);
        let (s2, check) = s1.emit(ByteCode::Nop, pos);
        lemma_primitives_extend(s1, Seq::empty(), pos, 0, ByteCode::Nop);
        let (s3, _) = block_spec(s2, case.value);
        lemma_block_extends(s2, case.value);
        let (s4, case_exit) = s3.emit(ByteCode::Nop, pos);
        lemma_primitives_extend(s3, Seq::empty(), pos, 0, ByteCode::Nop);
        let else_addr = s4.code_len();
        let s5 = match else_case {
            Some(b) => block_spec(s4, b.value).0,
            None => s4,
        };
        if let Some(b) = else_case {
            lemma_block_extends(s4, b.value);
        }
        let exit = s5.code_len();
        let branch = ByteCode::JumpIf { not: true, cond: c, addr: else_addr as crate::bytecode::Address };
        let s6 = s5.patch(check as int, branch);
        let s7 = s6.patch(case_exit as int, ByteCode::Jump { addr: exit as crate::bytecode::Address });
        assert(s7 == if_spec(st, s));
        assert(s7.frame.closure.code[check as int].value == branch);
        assert(branches_if_falsy(s7.frame.closure.code[check as int].value, case_exit + 1));
        assert(s7.frame.closure.code[case_exit as int].value == ByteCode::Jump { addr: exit as crate::bytecode::Address });
    }
}

/// `while` layout: the loop's code starts with its condition; after it comes a
/// branch that leaves the loop, to the end of the construct, when the
/// condition is falsy; the body ends in a jump back to the condition's first
/// instruction, so the condition is evaluated afresh before every pass.
pub proof fn lemma_while_layout(st: CompileState, s: Located<Statement>)
    requires
        st.frame.scopes.len() > 0,
        s.value is While,
        !while_spec(st, s).failed(),
    ensures
        ({
            let code = while_spec(st, s).frame.closure.code;
            &&& st.code_len() < code.len()
            &&& code[code.len() - 1].value == (ByteCode::Jump { addr: st.code_len() as crate::bytecode::Address })
            &&& exists|check: int|
                st.code_len() <= check < code.len() - 1 && branches_if_falsy(
                    #[trigger] code[check].value,
                    code.len() as int,
                )
        }),
{
    if let Statement::While { cond, body } = s.value {
        let pos = s.pos;
        let start = st.code_len();
        let (s1, c) = expression_spec(st, cond);
        lemma_expression_extends(st, cond);
        let (s2, check) = s1.emit(ByteCode::Nop, pos);
        lemma_primitives_extend(s1, Seq::empty(), pos, 0, ByteCode::Nop);
        let (s3, _) = block_spec(s2, body.value);
        lemma_block_extends(s2, body.value);
        let back = ByteCode::Jump { addr: start as crate::bytecode::Address };
        let (s4, _) = s3.emit(back, pos);
        let exit = s4.code_len();
        let branch = ByteCode::JumpIf { not: true, cond: c, addr: exit as crate::bytecode::Address };
        let s5 = s4.patch(check as int, branch);
        assert(s5 == while_spec(st, s));
        assert(s5.frame.closure.code[check as int].value == branch);
        assert(branches_if_falsy(s5.frame.closure.code[check as int].value, exit));
    }
}

} // verus!
