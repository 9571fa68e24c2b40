use vstd::prelude::*;
use crate::number::Number;
use crate::position::Located;

verus! {

/// The top-level statement sequence of a program.
#[derive(Debug)]
pub struct Chunk(pub Vec<Located<Statement>>);

/// A braced statement sequence; it opens a scope.
#[derive(Debug)]
pub struct Block(pub Vec<Located<Statement>>);

#[derive(Debug)]
pub enum Statement {
    Block(Block),
    Let { ident: Located<String>, expr: Located<Expression> },
    Assign { ident: Located<String>, expr: Located<Expression> },
    Call { ident: Located<String>, args: Vec<Located<Expression>> },
    Def { ident: Located<String>, params: Vec<Located<String>>, body: Located<Block> },
    If { cond: Located<Expression>, case: Located<Block>, else_case: Option<Located<Block>> },
    While { cond: Located<Expression>, body: Located<Block> },
    Return(Located<Expression>),
}

#[derive(Debug)]
pub enum Expression {
    Atom(Atom),
    Binary { op: BinaryOperator, left: Box<Located<Expression>>, right: Box<Located<Expression>> },
    Unary { op: UnaryOperator, right: Box<Located<Expression>> },
    Call { head: Box<Located<Expression>>, args: Vec<Located<Expression>> },
}

#[derive(Debug, Clone, Copy, PartialEq, Eq, Structural, Hash)]
pub enum BinaryOperator {
    Plus,
    Minus,
    Star,
    Slash,
    Percent,
    Exponent,
    EqualEqual,
    ExclamationEqual,
    Less,
    Greater,
    LessEqual,
    GreaterEqual,
    Ampersand,
    Pipe,
}

#[derive(Debug, Clone, Copy, PartialEq, Eq, Structural, Hash)]
pub enum UnaryOperator {
    Minus,
    Exclamation,
}

#[derive(Debug)]
pub enum Atom {
    Ident(String),
    Number(Number),
    String(String),
    Expression(Box<Located<Expression>>),
}

/// Binary operators by precedence layer, loosest first.
pub open spec fn binary_layer(layer: int) -> Option<Seq<BinaryOperator>> {
    if layer == 0 {
        Some(seq![BinaryOperator::Ampersand, BinaryOperator::Pipe])
    } else if layer == 1 {
        Some(
            seq![
                BinaryOperator::EqualEqual,
                BinaryOperator::ExclamationEqual,
                BinaryOperator::Less,
                BinaryOperator::Greater,
                BinaryOperator::LessEqual,
                BinaryOperator::GreaterEqual,
            ],
        )
    } else if layer == 2 {
        Some(seq![BinaryOperator::Plus, BinaryOperator::Minus])
    } else if layer == 3 {
        Some(seq![BinaryOperator::Star, BinaryOperator::Slash, BinaryOperator::Percent])
    } else if layer == 4 {
        Some(seq![BinaryOperator::Exponent])
    } else {
        None
    }
}

/// Unary operators by precedence layer, loosest first.
pub open spec fn unary_layer(layer: int) -> Option<Seq<UnaryOperator>> {
    if layer == 0 {
        Some(seq![UnaryOperator::Exclamation])
    } else if layer == 1 {
        Some(seq![UnaryOperator::Minus])
    } else {
        None
    }
}

impl BinaryOperator {
    pub fn layer(layer: usize) -> (r: Option<Vec<BinaryOperator>>)
        ensures
            match r {
                Some(ops) => binary_layer(layer as int) == Some(ops@),
                None => binary_layer(layer as int) is None,
            },
    {
        if layer == 0 {
            Some(vec![BinaryOperator::Ampersand, BinaryOperator::Pipe])
        } else if layer == 1 {
            Some(
                vec![
                    BinaryOperator::EqualEqual,
                    BinaryOperator::ExclamationEqual,
                    BinaryOperator::Less,
                    BinaryOperator::Greater,
                    BinaryOperator::LessEqual,
                    BinaryOperator::GreaterEqual,
                ],
            )
        } else if layer == 2 {
            Some(vec![BinaryOperator::Plus, BinaryOperator::Minus])
        } else if layer == 3 {
            Some(vec![BinaryOperator::Star, BinaryOperator::Slash, BinaryOperator::Percent])
        } else if layer == 4 {
            Some(vec![BinaryOperator::Exponent])
        } else {
            None
        }
    }
}

impl UnaryOperator {
    pub fn layer(layer: usize) -> (r: Option<Vec<UnaryOperator>>)
        ensures
            match r {
                Some(ops) => unary_layer(layer as int) == Some(ops@),
                None => unary_layer(layer as int) is None,
            },
    {
        if layer == 0 {
            Some(vec![UnaryOperator::Exclamation])
        } else if layer == 1 {
            Some(vec![UnaryOperator::Minus])
        } else {
            None
        }
    }
}

} // verus!
