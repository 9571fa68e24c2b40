use vstd::prelude::*;
use vstd::string::StrSliceExecFns;
use crate::bytecode::Address;
use crate::number::Number;

verus! {

/// A callable: a host function known by name, or a compiled template by id.
#[derive(Debug)]
pub enum Function {
    Native(String),
    Compiled(Address),
}

/// A runtime value.
#[derive(Debug)]
pub enum Value {
    Null,
    Number(Number),
    Boolean(bool),
    String(String),
    Function(Function),
}

impl Value {
    pub open spec fn kind_name(self) -> Seq<char> {
        match self {
            Value::Null => "null"@,
            Value::Number(_) => "number"@,
            Value::Boolean(_) => "boolean"@,
            Value::String(_) => "string"@,
            Value::Function(_) => "function"@,
        }
    }

    /// Truthiness: null is false, a number is false exactly when it is a zero,
    /// a string exactly when it is empty; functions are true.
    pub open spec fn truthy(self) -> bool {
        match self {
            Value::Null => false,
            Value::Number(n) => !n.is_zero(),
            Value::Boolean(b) => b,
            Value::String(s) => s@.len() > 0,
            Value::Function(_) => true,
        }
    }

    /// Structural equality: only ever true between values of the same variant;
    /// numbers compare as IEEE-754 doubles.
    pub open spec fn same(self, other: Value) -> bool {
        match (self, other) {
            (Value::Null, Value::Null) => true,
            (Value::Number(a), Value::Number(b)) => a.num_eq(b),
            (Value::Boolean(a), Value::Boolean(b)) => a == b,
            (Value::String(a), Value::String(b)) => a@ == b@,
            (Value::Function(Function::Native(a)), Value::Function(Function::Native(b))) => a@ == b@,
            (Value::Function(Function::Compiled(a)), Value::Function(Function::Compiled(b))) => a == b,
            _ => false,
        }
    }

    pub fn typ(&self) -> (r: &'static str)
        ensures
            r@ == self.kind_name(),
    {
        match self {
            Value::Null => "null",
            Value::Number(_) => "number",
            Value::Boolean(_) => "boolean",
            Value::String(_) => "string",
            Value::Function(_) => "function",
        }
    }

    pub fn is_truthy(&self) -> (r: bool)
        ensures
            r == self.truthy(),
    {
        match self {
            Value::Null => false,
            Value::Number(n) => !n.zero(),
            Value::Boolean(b) => *b,
            Value::String(s) => s.as_str().unicode_len() > 0,
            Value::Function(_) => true,
        }
    }

    pub fn equals(&self, other: &Value) -> (r: bool)
        ensures
            r == self.same(*other),
    {
        match (self, other) {
            (Value::Null, Value::Null) => true,
            (Value::Number(a), Value::Number(b)) => a.equals(b),
            (Value::Boolean(a), Value::Boolean(b)) => *a == *b,
            (Value::String(a), Value::String(b)) => *a == *b,
            (Value::Function(Function::Native(a)), Value::Function(Function::Native(b))) => *a == *b,
            (Value::Function(Function::Compiled(a)), Value::Function(Function::Compiled(b))) => *a == *b,
            _ => false,
        }
    }

    /// A copy of the value.
    pub fn duplicate(&self) -> (r: Value)
        ensures
            r == *self,
    {
        match self {
            Value::Null => Value::Null,
            Value::Number(n) => Value::Number(*n),
            Value::Boolean(b) => Value::Boolean(*b),
            Value::String(s) => Value::String(s.clone()),
            Value::Function(Function::Native(name)) => Value::Function(Function::Native(name.clone())),
            Value::Function(Function::Compiled(id)) => Value::Function(Function::Compiled(*id)),
        }
    }
}

impl Default for Value {
    fn default() -> (r: Value)
        ensures
            r == Value::Null,
    {
        Value::Null
    }
}

} // verus!
