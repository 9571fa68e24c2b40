use vstd::prelude::*;
use crate::ast::{BinaryOperator, UnaryOperator};
use crate::number::Number;
use crate::position::{Located, Position};

verus! {

/// Index of a value slot in a call frame.
pub type Register = u16;

/// Index of an instruction or of a constant-pool entry.
pub type Address = u32;

/// Pools and instruction sequences never grow past this many entries, so that
/// every index into them fits an `Address`.
pub const ADDRESS_LIMIT: usize = 0xFFFF_FFFF;

/// A compilation limit that a program exceeded.
#[derive(Debug, Clone, Copy, PartialEq, Eq, Structural)]
pub enum CompileError {
    TooManyRegisters,
    TooManyConstants,
    TooManyInstructions,
    TooManyArguments,
    TooManyFunctions,
}

#[derive(Debug, Clone, Copy, PartialEq, Eq, Structural)]
pub enum BinaryOperation {
    Add,
    Sub,
    Mul,
    Div,
    Mod,
    Pow,
    EQ,
    NE,
    LT,
    GT,
    LE,
    GE,
    And,
    Or,
}

#[derive(Debug, Clone, Copy, PartialEq, Eq, Structural)]
pub enum UnaryOperation {
    Neg,
    Not,
}

#[derive(Debug, Clone, Copy, PartialEq, Eq, Structural)]
pub enum ByteCode {
    Nop,
    Jump { addr: Address },
    JumpIf { not: bool, cond: Register, addr: Address },
    Call { func: Register, offset: Register, args_len: u8, dst: Option<Register> },
    Return { src: Option<Register> },
    Move { dst: Register, src: Register },
    String { dst: Register, addr: Address },
    Number { dst: Register, addr: Address },
    Closure { dst: Register, addr: Address },
    Global { dst: Register, addr: Address },
    SetGlobal { addr: Address, src: Register },
    Binary { op: BinaryOperation, dst: Register, left: Register, right: Register },
    Unary { op: UnaryOperation, dst: Register, src: Register },
}

impl Default for ByteCode {
    fn default() -> (r: ByteCode)
        ensures
            r == ByteCode::Nop,
    {
        ByteCode::Nop
    }
}

/// The bytecode operation that a syntax-level binary operator lowers to.
pub open spec fn binary_operation(op: BinaryOperator) -> BinaryOperation {
    match op {
        BinaryOperator::Plus => BinaryOperation::Add,
        BinaryOperator::Minus => BinaryOperation::Sub,
        BinaryOperator::Star => BinaryOperation::Mul,
        BinaryOperator::Slash => BinaryOperation::Div,
        BinaryOperator::Percent => BinaryOperation::Mod,
        BinaryOperator::Exponent => BinaryOperation::Pow,
        BinaryOperator::EqualEqual => BinaryOperation::EQ,
        BinaryOperator::ExclamationEqual => BinaryOperation::NE,
        BinaryOperator::Less => BinaryOperation::LT,
        BinaryOperator::Greater => BinaryOperation::GT,
        BinaryOperator::LessEqual => BinaryOperation::LE,
        BinaryOperator::GreaterEqual => BinaryOperation::GE,
        BinaryOperator::Ampersand => BinaryOperation::And,
        BinaryOperator::Pipe => BinaryOperation::Or,
    }
}

/// The bytecode operation that a syntax-level unary operator lowers to.
pub open spec fn unary_operation(op: UnaryOperator) -> UnaryOperation {
    match op {
        UnaryOperator::Minus => UnaryOperation::Neg,
        UnaryOperator::Exclamation => UnaryOperation::Not,
    }
}

impl From<BinaryOperator> for BinaryOperation {
    fn from(value: BinaryOperator) -> (r: BinaryOperation)
        ensures
            r == binary_operation(value),
    {
        match value {
            BinaryOperator::Plus => BinaryOperation::Add,
            BinaryOperator::Minus => BinaryOperation::Sub,
            BinaryOperator::Star => BinaryOperation::Mul,
            BinaryOperator::Slash => BinaryOperation::Div,
            BinaryOperator::Percent => BinaryOperation::Mod,
            BinaryOperator::Exponent => BinaryOperation::Pow,
            BinaryOperator::EqualEqual => BinaryOperation::EQ,
            BinaryOperator::ExclamationEqual => BinaryOperation::NE,
            BinaryOperator::Less => BinaryOperation::LT,
            BinaryOperator::Greater => BinaryOperation::GT,
            BinaryOperator::LessEqual => BinaryOperation::LE,
            BinaryOperator::GreaterEqual => BinaryOperation::GE,
            BinaryOperator::Ampersand => BinaryOperation::And,
            BinaryOperator::Pipe => BinaryOperation::Or,
        }
    }
}

impl vstd::std_specs::convert::FromSpecImpl<BinaryOperator> for BinaryOperation {
    open spec fn obeys_from_spec() -> bool {
        true
    }

    open spec fn from_spec(v: BinaryOperator) -> BinaryOperation {
        binary_operation(v)
    }
}

impl From<UnaryOperator> for UnaryOperation {
    fn from(value: UnaryOperator) -> (r: UnaryOperation)
        ensures
            r == unary_operation(value),
    {
        match value {
            UnaryOperator::Minus => UnaryOperation::Neg,
            UnaryOperator::Exclamation => UnaryOperation::Not,
        }
    }
}

impl vstd::std_specs::convert::FromSpecImpl<UnaryOperator> for UnaryOperation {
    open spec fn obeys_from_spec() -> bool {
        true
    }

    open spec fn from_spec(v: UnaryOperator) -> UnaryOperation {
        unary_operation(v)
    }
}

/// The first index below `n` whose string equals `x`.
pub open spec fn find_string(s: Seq<Seq<char>>, x: Seq<char>, n: int) -> Option<int>
    decreases n,
{
    if n <= 0 {
        None
    } else {
        match find_string(s, x, n - 1) {
            Some(i) => Some(i),
            None => if s[n - 1] == x { Some(n - 1) } else { None },
        }
    }
}

/// The first index below `n` whose number is numerically equal to `x`.
pub open spec fn find_number(s: Seq<Number>, x: Number, n: int) -> Option<int>
    decreases n,
{
    if n <= 0 {
        None
    } else {
        match find_number(s, x, n - 1) {
            Some(i) => Some(i),
            None => if s[n - 1].num_eq(x) { Some(n - 1) } else { None },
        }
    }
}

/// A match found within a prefix stays the first match of every longer prefix.
pub proof fn lemma_find_string_extends(s: Seq<Seq<char>>, x: Seq<char>, m: int, n: int)
    requires
        m <= n,
        find_string(s, x, m) is Some,
    ensures
        find_string(s, x, n) == find_string(s, x, m),
    decreases n - m,
{
    if n > m {
        lemma_find_string_extends(s, x, m, n - 1);
    }
}

/// A match found within a prefix stays the first match of every longer prefix.
pub proof fn lemma_find_number_extends(s: Seq<Number>, x: Number, m: int, n: int)
    requires
        m <= n,
        find_number(s, x, m) is Some,
    ensures
        find_number(s, x, n) == find_number(s, x, m),
    decreases n - m,
{
    if n > m {
        lemma_find_number_extends(s, x, m, n - 1);
    }
}

/// A compiled unit, seen as sequences.
pub struct ClosureView {
    pub code: Seq<Located<ByteCode>>,
    pub registers: Register,
    pub strings: Seq<Seq<char>>,
    pub numbers: Seq<Number>,
    pub closures: Seq<Address>,
}

impl ClosureView {
    pub open spec fn empty() -> ClosureView {
        ClosureView {
            code: Seq::empty(),
            registers: 0,
            strings: Seq::empty(),
            numbers: Seq::empty(),
            closures: Seq::empty(),
        }
    }

    pub open spec fn bounded(self) -> bool {
        &&& self.code.len() <= ADDRESS_LIMIT
        &&& self.strings.len() <= ADDRESS_LIMIT
        &&& self.numbers.len() <= ADDRESS_LIMIT
        &&& self.closures.len() <= ADDRESS_LIMIT
    }

    /// Interns a string: the address of an equal entry, or of a new last one.
    pub open spec fn add_string(self, s: Seq<char>) -> Result<(ClosureView, Address), CompileError> {
        match find_string(self.strings, s, self.strings.len() as int) {
            Some(i) => Ok((self, i as Address)),
            None => if self.strings.len() < ADDRESS_LIMIT {
                Ok((ClosureView { strings: self.strings.push(s), ..self }, self.strings.len() as Address))
            } else {
                Err(CompileError::TooManyConstants)
            },
        }
    }

    /// Interns a number: the address of a numerically equal entry, or of a new last one.
    pub open spec fn add_number(self, n: Number) -> Result<(ClosureView, Address), CompileError> {
        match find_number(self.numbers, n, self.numbers.len() as int) {
            Some(i) => Ok((self, i as Address)),
            None => if self.numbers.len() < ADDRESS_LIMIT {
                Ok((ClosureView { numbers: self.numbers.push(n), ..self }, self.numbers.len() as Address))
            } else {
                Err(CompileError::TooManyConstants)
            },
        }
    }

    /// Appends a nested-function entry; entries are not shared.
    pub open spec fn add_closure(self, id: Address) -> Result<(ClosureView, Address), CompileError> {
        if self.closures.len() < ADDRESS_LIMIT {
            Ok((ClosureView { closures: self.closures.push(id), ..self }, self.closures.len() as Address))
        } else {
            Err(CompileError::TooManyConstants)
        }
    }

    /// Appends an instruction; its address is the old length.
    pub open spec fn emit(self, bc: ByteCode, pos: Position) -> Result<(ClosureView, Address), CompileError> {
        if self.code.len() < ADDRESS_LIMIT {
            Ok((ClosureView { code: self.code.push(Located { value: bc, pos }), ..self }, self.code.len() as Address))
        } else {
            Err(CompileError::TooManyInstructions)
        }
    }

    /// Replaces the instruction at `addr`, keeping its position.
    pub open spec fn patch(self, addr: int, bc: ByteCode) -> ClosureView {
        if 0 <= addr < self.code.len() {
            ClosureView {
                code: self.code.update(addr, Located { value: bc, pos: self.code[addr].pos }),
                ..self
            }
        } else {
            self
        }
    }
}

/// A compiled unit: instructions with positions, the frame size it needs, and
/// deduplicated pools of strings and numbers; `closures` holds the program-wide
/// ids of the functions defined in it.
#[derive(Debug, Clone)]
pub struct Closure {
    pub code: Vec<Located<ByteCode>>,
    pub registers: Register,
    pub strings: Vec<String>,
    pub numbers: Vec<Number>,
    pub closures: Vec<Address>,
}

impl View for Closure {
    type V = ClosureView;

    open spec fn view(&self) -> ClosureView {
        ClosureView {
            code: self.code@,
            registers: self.registers,
            strings: self.strings@.map_values(|s: String| s@),
            numbers: self.numbers@,
            closures: self.closures@,
        }
    }
}

impl Closure {
    pub fn new() -> (r: Closure)
        ensures
            r@ == ClosureView::empty(),
    {
        let r = Closure {
            code: Vec::new(),
            registers: 0,
            strings: Vec::new(),
            numbers: Vec::new(),
            closures: Vec::new(),
        };
        assert(r@.strings =~= Seq::<Seq<char>>::empty());
        r
    }

    pub fn string(&self, addr: Address) -> (r: Option<&String>)
        ensures
            match r {
                Some(s) => addr < self.strings.len() && *s == self.strings@[addr as int],
                None => addr >= self.strings.len(),
            },
    {
        if (addr as usize) < self.strings.len() {
            Some(&self.strings[addr as usize])
        } else {
            None
        }
    }

    pub fn number(&self, addr: Address) -> (r: Option<&Number>)
        ensures
            match r {
                Some(n) => addr < self.numbers.len() && *n == self.numbers@[addr as int],
                None => addr >= self.numbers.len(),
            },
    {
        if (addr as usize) < self.numbers.len() {
            Some(&self.numbers[addr as usize])
        } else {
            None
        }
    }

    pub fn closure(&self, addr: Address) -> (r: Option<&Address>)
        ensures
            match r {
                Some(id) => addr < self.closures.len() && *id == self.closures@[addr as int],
                None => addr >= self.closures.len(),
            },
    {
        if (addr as usize) < self.closures.len() {
            Some(&self.closures[addr as usize])
        } else {
            None
        }
    }

    pub fn new_string(&mut self, string: String) -> (r: Result<Address, CompileError>)
        requires
            old(self)@.bounded(),
        ensures
            final(self)@.bounded(),
            match old(self)@.add_string(string@) {
                Ok((c, a)) => r == Ok::<Address, CompileError>(a) && final(self)@ == c,
                Err(e) => r == Err::<Address, CompileError>(e),
            },
    {
        let mut i: usize = 0;
        while i < self.strings.len()
            invariant
                i <= self.strings.len(),
                self@ == old(self)@,
                self@.bounded(),
                find_string(self@.strings, string@, i as int) is None,
            decreases self.strings.len() - i,
        {
            if self.strings[i] == string {
                proof {
                    assert(self@.strings[i as int] == string@);
                    lemma_find_string_extends(self@.strings, string@, i + 1, self@.strings.len() as int);
                }
                return Ok(i as Address);
            }
            i += 1;
        }
        if self.strings.len() < ADDRESS_LIMIT {
            let addr = self.strings.len() as Address;
            proof {
                let ghost before = self@;
                assert(before.strings.push(string@) =~= self.strings@.push(string).map_values(|s: String| s@));
            }
            self.strings.push(string);
            Ok(addr)
        } else {
            Err(CompileError::TooManyConstants)
        }
    }

    pub fn new_number(&mut self, number: Number) -> (r: Result<Address, CompileError>)
        requires
            old(self)@.bounded(),
        ensures
            final(self)@.bounded(),
            match old(self)@.add_number(number) {
                Ok((c, a)) => r == Ok::<Address, CompileError>(a) && final(self)@ == c,
                Err(e) => r == Err::<Address, CompileError>(e),
            },
    {
        let mut i: usize = 0;
        while i < self.numbers.len()
            invariant
                i <= self.numbers.len(),
                self@ == old(self)@,
                self@.bounded(),
                find_number(self@.numbers, number, i as int) is None,
            decreases self.numbers.len() - i,
        {
            if self.numbers[i].equals(&number) {
                proof {
                    lemma_find_number_extends(self@.numbers, number, i + 1, self@.numbers.len() as int);
                }
                return Ok(i as Address);
            }
            i += 1;
        }
        if self.numbers.len() < ADDRESS_LIMIT {
            let addr = self.numbers.len() as Address;
            self.numbers.push(number);
            proof {
                assert(self@.strings =~= old(self)@.strings);
            }
            Ok(addr)
        } else {
            Err(CompileError::TooManyConstants)
        }
    }

    pub fn new_closure(&mut self, id: Address) -> (r: Result<Address, CompileError>)
        requires
            old(self)@.bounded(),
        ensures
            final(self)@.bounded(),
            match old(self)@.add_closure(id) {
                Ok((c, a)) => r == Ok::<Address, CompileError>(a) && final(self)@ == c,
                Err(e) => r == Err::<Address, CompileError>(e),
            },
    {
        if self.closures.len() < ADDRESS_LIMIT {
            let addr = self.closures.len() as Address;
            self.closures.push(id);
            proof {
                assert(self@.strings =~= old(self)@.strings);
            }
            Ok(addr)
        } else {
            Err(CompileError::TooManyConstants)
        }
    }

    pub fn write(&mut self, bytecode: ByteCode, pos: Position) -> (r: Result<Address, CompileError>)
        requires
            old(self)@.bounded(),
        ensures
            final(self)@.bounded(),
            match old(self)@.emit(bytecode, pos) {
                Ok((c, a)) => r == Ok::<Address, CompileError>(a) && final(self)@ == c,
                Err(e) => r == Err::<Address, CompileError>(e),
            },
    {
        if self.code.len() < ADDRESS_LIMIT {
            let addr = self.code.len() as Address;
            self.code.push(Located::new(bytecode, pos));
            proof {
                assert(self@.strings =~= old(self)@.strings);
            }
            Ok(addr)
        } else {
            Err(CompileError::TooManyInstructions)
        }
    }

    pub fn overwrite(&mut self, addr: Address, bytecode: ByteCode)
        requires
            old(self)@.bounded(),
            addr < old(self).code.len(),
        ensures
            final(self)@ == old(self)@.patch(addr as int, bytecode),
            final(self)@.bounded(),
    {
        let pos = self.code[addr as usize].pos;
        self.code.set(addr as usize, Located::new(bytecode, pos));
        proof {
            assert(self@.strings =~= old(self)@.strings);
            assert(self@.code =~= old(self)@.patch(addr as int, bytecode).code);
        }
    }
}

/// A compiled program: every function template, addressed by id, and the id
/// of the top-level unit.
#[derive(Debug, Clone)]
pub struct Program {
    pub templates: Vec<Closure>,
    pub entry: Address,
}

pub struct ProgramView {
    pub templates: Seq<ClosureView>,
    pub entry: Address,
}

impl View for Program {
    type V = ProgramView;

    open spec fn view(&self) -> ProgramView {
        ProgramView { templates: self.templates@.map_values(|c: Closure| c@), entry: self.entry }
    }
}

} // verus!
