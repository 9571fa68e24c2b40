use regvm::ast::{Atom, BinaryOperator, Block, Chunk, Expression, Statement, UnaryOperator};
use regvm::bytecode::{BinaryOperation, ByteCode, CompileError, Program};
use regvm::compiler::compile;
use regvm::interpreter::{Interpreter, RunTimeError, Step};
use regvm::number::Number;
use regvm::position::{Located, Position};
use regvm::value::{Function, Value};

fn pos(ln: usize, col: usize) -> Position {
    Position::new(ln, col)
}

fn loc<T>(value: T, ln: usize, col: usize) -> Located<T> {
    Located::new(value, pos(ln, col))
}

fn num(x: f64, ln: usize, col: usize) -> Located<Expression> {
    loc(Expression::Atom(Atom::Number(Number::from_bits(x.to_bits()))), ln, col)
}

fn text(s: &str, ln: usize, col: usize) -> Located<Expression> {
    loc(Expression::Atom(Atom::String(s.to_string())), ln, col)
}

fn var(name: &str, ln: usize, col: usize) -> Located<Expression> {
    loc(Expression::Atom(Atom::Ident(name.to_string())), ln, col)
}

fn bin(op: BinaryOperator, left: Located<Expression>, right: Located<Expression>) -> Located<Expression> {
    let p = left.pos;
    Located::new(Expression::Binary { op, left: Box::new(left), right: Box::new(right) }, p)
}

fn neg(right: Located<Expression>, ln: usize, col: usize) -> Located<Expression> {
    loc(Expression::Unary { op: UnaryOperator::Minus, right: Box::new(right) }, ln, col)
}

fn call(head: Located<Expression>, args: Vec<Located<Expression>>) -> Located<Expression> {
    let p = head.pos;
    Located::new(Expression::Call { head: Box::new(head), args }, p)
}

fn name(s: &str, ln: usize, col: usize) -> Located<String> {
    loc(s.to_string(), ln, col)
}

fn let_(s: &str, expr: Located<Expression>, ln: usize) -> Located<Statement> {
    loc(Statement::Let { ident: name(s, ln, 4), expr }, ln, 0)
}

fn assign(s: &str, expr: Located<Expression>, ln: usize) -> Located<Statement> {
    loc(Statement::Assign { ident: name(s, ln, 0), expr }, ln, 2)
}

fn call_stmt(s: &str, args: Vec<Located<Expression>>, ln: usize) -> Located<Statement> {
    loc(Statement::Call { ident: name(s, ln, 0), args }, ln, 1)
}

fn block(stmts: Vec<Located<Statement>>, ln: usize) -> Located<Block> {
    loc(Block(stmts), ln, 0)
}

fn ret(expr: Located<Expression>, ln: usize) -> Located<Statement> {
    loc(Statement::Return(expr), ln, 0)
}

fn chunk(stmts: Vec<Located<Statement>>) -> Located<Chunk> {
    loc(Chunk(stmts), 0, 0)
}

fn double(n: &Number) -> f64 {
    f64::from_bits(n.to_bits())
}

fn show(v: &Value) -> String {
    match v {
        Value::Null => "null".to_string(),
        Value::Number(n) => format!("{}", double(n)),
        Value::Boolean(b) => format!("{}", b),
        Value::String(s) => s.clone(),
        Value::Function(_) => "function".to_string(),
    }
}

fn arithmetic(op: BinaryOperation, a: f64, b: f64) -> f64 {
    match op {
        BinaryOperation::Add => a + b,
        BinaryOperation::Sub => a - b,
        BinaryOperation::Mul => a * b,
        BinaryOperation::Div => a / b,
        BinaryOperation::Mod => a % b,
        BinaryOperation::Pow => a.powf(b),
        _ => panic!("not an arithmetic operation"),
    }
}

type Outcome = Result<Option<Value>, (RunTimeError, Position)>;

/// Runs a compiled program with `print` writing into the returned string.
fn execute(program: Program) -> (Outcome, String) {
    let mut vm = Interpreter::new(program).expect("compiled programs are well formed");
    let mut out = String::new();
    loop {
        match vm.step() {
            Ok(Step::Continue) => {}
            Ok(Step::Finished(v)) => return (Ok(v), out),
            Ok(Step::Arithmetic { op, left, right }) => {
                let x = arithmetic(op, double(&left), double(&right));
                vm.resume(Value::Number(Number::from_bits(x.to_bits())));
            }
            Ok(Step::Native { name, args, pos: _ }) => {
                assert_eq!(name, "print");
                for a in &args {
                    out.push_str(&show(a));
                }
                out.push('\n');
                vm.resume(Value::Null);
            }
            Ok(Step::Fault) => panic!("fault"),
            Err(e) => return (Err((e.value, e.pos)), out),
        }
    }
}

fn run(c: Located<Chunk>) -> (Outcome, String) {
    execute(compile(&c).expect("compiles"))
}

fn number_result(o: &Outcome) -> f64 {
    match o {
        Ok(Some(Value::Number(n))) => double(n),
        other => panic!("expected a number, got {:?}", other),
    }
}

#[test]
fn sum_of_two_locals_prints_three() {
    let c = chunk(vec![
        let_("x", num(1.0, 0, 8), 0),
        let_("y", num(2.0, 1, 8), 1),
        call_stmt("print", vec![bin(BinaryOperator::Plus, var("x", 2, 6), var("y", 2, 10))], 2),
    ]);
    let (r, out) = run(c);
    assert!(matches!(r, Ok(None)));
    assert_eq!(out, "3\n");
}

#[test]
fn defined_function_adds_its_arguments() {
    let body = block(vec![ret(bin(BinaryOperator::Plus, var("a", 0, 23), var("b", 0, 27)), 0)], 0);
    let def = loc(
        Statement::Def { ident: name("add", 0, 4), params: vec![name("a", 0, 8), name("b", 0, 11)], body },
        0,
        0,
    );
    let c = chunk(vec![
        def,
        call_stmt("print", vec![call(var("add", 1, 6), vec![num(2.0, 1, 10), num(3.0, 1, 13)])], 1),
    ]);
    let (r, out) = run(c);
    assert!(matches!(r, Ok(None)));
    assert_eq!(out, "5\n");
}

#[test]
fn calling_an_undeclared_name_cannot_call_null() {
    let c = chunk(vec![call_stmt("foo", vec![], 3)]);
    let (r, out) = run(c);
    match r {
        Err((RunTimeError::CannotCall(t), p)) => {
            assert_eq!(t, "null");
            assert_eq!(p, pos(3, 1));
        }
        other => panic!("unexpected {:?}", other),
    }
    assert_eq!(out, "");
}

#[test]
fn loop_body_runs_three_times() {
    let body = block(vec![
        assign("i", bin(BinaryOperator::Plus, var("i", 2, 4), num(1.0, 2, 8)), 2),
        call_stmt("print", vec![var("i", 3, 6)], 3),
    ], 1);
    let c = chunk(vec![
        let_("i", num(0.0, 0, 8), 0),
        loc(Statement::While { cond: bin(BinaryOperator::Less, var("i", 1, 6), num(3.0, 1, 10)), body }, 1, 0),
        ret(var("i", 4, 7), 4),
    ]);
    let (r, out) = run(c);
    assert_eq!(number_result(&r), 3.0);
    assert_eq!(out, "1\n2\n3\n");
}

fn branch_program(cond: f64) -> Located<Chunk> {
    chunk(vec![
        loc(
            Statement::If {
                cond: num(cond, 0, 3),
                case: block(vec![call_stmt("print", vec![text("then", 0, 12)], 0)], 0),
                else_case: Some(block(vec![call_stmt("print", vec![text("else", 1, 12)], 1)], 1)),
            },
            0,
            0,
        ),
        call_stmt("print", vec![text("after", 2, 6)], 2),
    ])
}

#[test]
fn if_takes_exactly_one_branch() {
    assert_eq!(run(branch_program(1.0)).1, "then\nafter\n");
    assert_eq!(run(branch_program(0.0)).1, "else\nafter\n");
    assert_eq!(run(branch_program(-0.0)).1, "else\nafter\n");
}

#[test]
fn if_without_else_falls_through() {
    let c = chunk(vec![
        loc(
            Statement::If {
                cond: text("", 0, 3),
                case: block(vec![call_stmt("print", vec![text("then", 0, 12)], 0)], 0),
                else_case: None,
            },
            0,
            0,
        ),
        call_stmt("print", vec![text("after", 1, 6)], 1),
    ]);
    assert_eq!(run(c).1, "after\n");
}

#[test]
fn division_follows_ieee() {
    let c = chunk(vec![ret(bin(BinaryOperator::Slash, num(1.0, 0, 7), num(0.0, 0, 11)), 0)]);
    assert_eq!(number_result(&run(c).0), f64::INFINITY);
    let c = chunk(vec![ret(bin(BinaryOperator::Slash, num(0.0, 0, 7), num(0.0, 0, 11)), 0)]);
    assert!(number_result(&run(c).0).is_nan());
}

#[test]
fn nan_is_not_equal_to_nan() {
    let nan = bin(BinaryOperator::Slash, num(0.0, 0, 7), num(0.0, 0, 11));
    let nan2 = bin(BinaryOperator::Slash, num(0.0, 0, 17), num(0.0, 0, 21));
    let c = chunk(vec![ret(bin(BinaryOperator::EqualEqual, nan, nan2), 0)]);
    assert!(matches!(run(c).0, Ok(Some(Value::Boolean(false)))));
    let n = Value::Number(Number::from_bits(f64::NAN.to_bits()));
    assert!(!n.equals(&n));
    let z = Value::Number(Number::from_bits(0.0f64.to_bits()));
    let nz = Value::Number(Number::from_bits((-0.0f64).to_bits()));
    assert!(z.equals(&nz));
}

#[test]
fn arithmetic_on_a_string_fails_with_both_kinds() {
    let c = chunk(vec![
        let_("s", text("a", 0, 8), 0),
        ret(bin(BinaryOperator::Plus, num(1.0, 1, 7), var("s", 1, 11)), 1),
    ]);
    match run(c).0 {
        Err((RunTimeError::Binary { left, right }, p)) => {
            assert_eq!(left, "number");
            assert_eq!(right, "string");
            assert_eq!(p, pos(1, 7));
        }
        other => panic!("unexpected {:?}", other),
    }
}

#[test]
fn ordering_null_fails() {
    let c = chunk(vec![ret(bin(BinaryOperator::Less, var("missing", 0, 7), num(1.0, 0, 17)), 0)]);
    match run(c).0 {
        Err((RunTimeError::Binary { left, right }, p)) => {
            assert_eq!(left, "null");
            assert_eq!(right, "number");
            assert_eq!(p, pos(0, 7));
        }
        other => panic!("unexpected {:?}", other),
    }
}

#[test]
fn negating_a_string_fails() {
    let c = chunk(vec![ret(neg(text("a", 0, 8), 0, 7), 0)]);
    match run(c).0 {
        Err((RunTimeError::Unary { right }, p)) => {
            assert_eq!(right, "string");
            assert_eq!(p, pos(0, 7));
        }
        other => panic!("unexpected {:?}", other),
    }
}

#[test]
fn negation_flips_the_sign() {
    let c = chunk(vec![ret(neg(num(2.5, 0, 8), 0, 7), 0)]);
    assert_eq!(number_result(&run(c).0), -2.5);
}

#[test]
fn equality_across_kinds_is_false() {
    let c = chunk(vec![ret(bin(BinaryOperator::EqualEqual, num(0.0, 0, 7), text("", 0, 12)), 0)]);
    assert!(matches!(run(c).0, Ok(Some(Value::Boolean(false)))));
    let c = chunk(vec![ret(bin(BinaryOperator::ExclamationEqual, text("a", 0, 7), text("a", 0, 12)), 0)]);
    assert!(matches!(run(c).0, Ok(Some(Value::Boolean(false)))));
}

#[test]
fn logical_operators_evaluate_truthiness() {
    let c = chunk(vec![ret(bin(BinaryOperator::Ampersand, num(2.0, 0, 7), text("x", 0, 11)), 0)]);
    assert!(matches!(run(c).0, Ok(Some(Value::Boolean(true)))));
    let c = chunk(vec![ret(bin(BinaryOperator::Pipe, num(0.0, 0, 7), text("", 0, 11)), 0)]);
    assert!(matches!(run(c).0, Ok(Some(Value::Boolean(false)))));
}

#[test]
fn assigning_a_global_does_not_write_back() {
    let c = chunk(vec![
        assign("g", num(5.0, 0, 4), 0),
        ret(var("g", 1, 7), 1),
    ]);
    // The assignment and the read each load `g` into a register of their own.
    assert!(matches!(run(c).0, Ok(Some(Value::Null))));
}

#[test]
fn nested_function_does_not_see_enclosing_locals() {
    let body = block(vec![ret(var("x", 1, 18), 1)], 1);
    let def = loc(Statement::Def { ident: name("f", 1, 4), params: vec![], body }, 1, 0);
    let c = chunk(vec![
        let_("x", num(5.0, 0, 8), 0),
        def,
        call_stmt("print", vec![call(var("f", 2, 6), vec![])], 2),
    ]);
    assert_eq!(run(c).1, "null\n");
}

#[test]
fn statements_after_return_emit_nothing() {
    let body = block(vec![
        ret(num(1.0, 0, 20), 0),
        call_stmt("print", vec![text("dead", 0, 30)], 0),
    ], 0);
    let def = loc(Statement::Def { ident: name("f", 0, 4), params: vec![], body }, 0, 0);
    let p = compile(&chunk(vec![def])).unwrap();
    // number load, return, implicit return
    assert_eq!(p.templates[0].code.len(), 3);
    assert!(p.templates[0].strings.is_empty());
}

fn sibling_blocks(n: usize) -> Program {
    let mut stmts = vec![];
    for i in 0..n {
        stmts.push(loc(Statement::Block(Block(vec![let_("a", num(1.0, i, 8), i)])), i, 0));
    }
    compile(&chunk(stmts)).unwrap()
}

#[test]
fn sibling_blocks_reuse_registers() {
    let one = sibling_blocks(1);
    let three = sibling_blocks(3);
    assert_eq!(one.templates[one.entry as usize].registers, 2);
    assert_eq!(three.templates[three.entry as usize].registers, 2);
}

#[test]
fn nested_blocks_grow_registers() {
    let inner = loc(Statement::Block(Block(vec![let_("b", num(2.0, 1, 8), 1)])), 1, 0);
    let outer = loc(Statement::Block(Block(vec![let_("a", num(1.0, 0, 8), 0), inner])), 0, 0);
    let p = compile(&chunk(vec![outer])).unwrap();
    assert_eq!(p.templates[p.entry as usize].registers, 4);
}

#[test]
fn call_arguments_fill_contiguous_registers() {
    let c = chunk(vec![
        let_("x", num(1.0, 0, 8), 0),
        let_("y", num(2.0, 1, 8), 1),
        call_stmt("print", vec![var("y", 2, 6), var("x", 2, 9)], 2),
    ]);
    let p = compile(&c).unwrap();
    let code: Vec<ByteCode> = p.templates[p.entry as usize].code.iter().map(|l| l.value).collect();
    let call_at = code.iter().position(|b| matches!(b, ByteCode::Call { .. })).unwrap();
    match code[call_at] {
        ByteCode::Call { func, offset, args_len, dst } => {
            // x and y sit in registers 0 and 2, each followed by its literal
            assert_eq!(func, 4);
            assert_eq!(offset, 5);
            assert_eq!(args_len, 2);
            assert_eq!(dst, None);
            assert_eq!(code[call_at - 2], ByteCode::Move { dst: 5, src: 2 });
            assert_eq!(code[call_at - 1], ByteCode::Move { dst: 6, src: 0 });
        }
        _ => unreachable!(),
    }
    assert_eq!(run(c).1, "21\n");
}

#[test]
fn native_arguments_arrive_in_order() {
    let c = chunk(vec![call_stmt("print", vec![text("a", 0, 6), text("b", 0, 10), num(7.0, 0, 14)], 0)]);
    assert_eq!(run(c).1, "ab7\n");
}

#[test]
fn compiling_twice_gives_identical_programs() {
    let make = || {
        chunk(vec![
            let_("x", num(1.0, 0, 8), 0),
            let_("s", text("hi", 1, 8), 1),
            let_("t", text("hi", 2, 8), 2),
            let_("y", num(1.0, 3, 8), 3),
            call_stmt("print", vec![var("x", 4, 6), var("s", 4, 9)], 4),
        ])
    };
    let c = make();
    let a = compile(&c).unwrap();
    let b = compile(&c).unwrap();
    assert_eq!(format!("{:?}", a), format!("{:?}", b));
    let e = &a.templates[a.entry as usize];
    assert_eq!(e.strings, vec!["hi".to_string(), "print".to_string()]);
    assert_eq!(e.numbers.len(), 1);
}

#[test]
fn too_many_arguments_is_a_compile_error() {
    let args: Vec<Located<Expression>> = (0..256).map(|i| num(i as f64, 0, i)).collect();
    let c = chunk(vec![call_stmt("print", args, 0)]);
    assert!(matches!(compile(&c), Err(CompileError::TooManyArguments)));
    let args: Vec<Located<Expression>> = (0..255).map(|_| num(1.0, 0, 0)).collect();
    let c = chunk(vec![call_stmt("print", args, 0)]);
    assert!(compile(&c).is_ok());
}

#[test]
fn recursion_goes_through_the_global_table() {
    // Inside its own body a function's name is a global, which is null here.
    let body = block(vec![ret(call(var("f", 0, 18), vec![]), 0)], 0);
    let def = loc(Statement::Def { ident: name("f", 0, 4), params: vec![], body }, 0, 0);
    let c = chunk(vec![def, call_stmt("f", vec![], 1)]);
    match run(c).0 {
        Err((RunTimeError::CannotCall(t), p)) => {
            assert_eq!(t, "null");
            assert_eq!(p, pos(0, 18));
        }
        other => panic!("unexpected {:?}", other),
    }
}

#[test]
fn validation_rejects_out_of_range_registers() {
    let mut p = compile(&chunk(vec![let_("x", num(1.0, 0, 8), 0)])).unwrap();
    assert!(p.validate());
    let e = p.entry as usize;
    p.templates[e].code[0] = Located::new(ByteCode::Move { dst: 40, src: 0 }, pos(0, 0));
    assert!(!p.validate());
    assert!(Interpreter::new(p).is_none());
}

#[test]
fn function_values_compare_by_template() {
    let f = Value::Function(Function::Compiled(0));
    let g = Value::Function(Function::Compiled(1));
    assert!(f.equals(&f.duplicate()));
    assert!(!f.equals(&g));
    assert_eq!(f.typ(), "function");
    assert!(f.is_truthy());
    assert!(!Value::String(String::new()).is_truthy());
}

#[test]
fn too_many_registers_is_a_compile_error() {
    let stmts: Vec<Located<Statement>> = (0..40000).map(|i| let_("v", num(1.0, i, 8), i)).collect();
    assert!(matches!(compile(&chunk(stmts)), Err(CompileError::TooManyRegisters)));
}

#[test]
fn calling_an_unknown_template_is_a_fault() {
    let p = compile(&chunk(vec![call_stmt("ghost", vec![], 0)])).unwrap();
    let mut vm = Interpreter::new(p).unwrap();
    vm.set_global("ghost".to_string(), Value::Function(Function::Compiled(99)));
    let mut last = vm.step();
    while matches!(last, Ok(Step::Continue)) {
        last = vm.step();
    }
    assert!(matches!(last, Ok(Step::Fault)));
}

#[test]
fn error_messages() {
    let e = RunTimeError::Binary { left: "number", right: "string" };
    assert_eq!(e.message(), "cannot perform binary operation on number with string");
    assert_eq!(RunTimeError::Unary { right: "null" }.message(), "cannot perform unary operation on null");
    assert_eq!(RunTimeError::CannotCall("null").message(), "cannot call null");
    assert_eq!(RunTimeError::Custom("boom".to_string()).message(), "boom");
}

#[test]
fn builtins_hold_print() {
    let g = regvm::interpreter::std_globals();
    assert_eq!(g.len(), 1);
    assert_eq!(g[0].0, "print");
    assert!(matches!(&g[0].1, Value::Function(Function::Native(n)) if n == "print"));
}
