//! Expressions of the debugger: their syntax, how they are read, and what they are worth.
use crate::numerals;
use crate::numerals::push_dec;
use crate::text;
use crate::text::{owned, quote};
use vstd::prelude::*;

pub mod eval;
pub mod grammar;
pub mod laws;
pub mod lexer;
pub mod parser;

pub use eval::{eval, EvalContext};
pub use parser::parse;

verus! {

/// An operator.
#[derive(Debug, Clone, Copy, PartialEq, Eq, Structural)]
pub enum Op {
    Add,
    Sub,
    Mul,
    Div,
    Mod,
    And,
    Or,
    Xor,
    Shl,
    Shr,
    Not,
    Neg,
    Deref,
    AddrOf,
}

/// An expression.
#[derive(Debug)]
pub enum Expr {
    Number(u64),
    Register(String),
    Variable(String),
    Unary(Op, Box<Expr>),
    Binary(Op, Box<Expr>, Box<Expr>),
    /// `expr.field`
    Member(Box<Expr>, String),
    /// `expr->field`
    PtrMember(Box<Expr>, String),
}

/// An expression with its names as sequences of characters.
pub enum Ast {
    Number(u64),
    Register(Seq<char>),
    Variable(Seq<char>),
    Unary(Op, Box<Ast>),
    Binary(Op, Box<Ast>, Box<Ast>),
    Member(Box<Ast>, Seq<char>),
    PtrMember(Box<Ast>, Seq<char>),
}

impl Op {
    /// The operator's name.
    pub open spec fn label(self) -> Seq<char> {
        match self {
            Op::Add => "Add"@,
            Op::Sub => "Sub"@,
            Op::Mul => "Mul"@,
            Op::Div => "Div"@,
            Op::Mod => "Mod"@,
            Op::And => "And"@,
            Op::Or => "Or"@,
            Op::Xor => "Xor"@,
            Op::Shl => "Shl"@,
            Op::Shr => "Shr"@,
            Op::Not => "Not"@,
            Op::Neg => "Neg"@,
            Op::Deref => "Deref"@,
            Op::AddrOf => "AddrOf"@,
        }
    }

    /// The operator's name.
    pub fn name(self) -> (r: &'static str)
        ensures
            r@ == self.label(),
    {
        match self {
            Op::Add => "Add",
            Op::Sub => "Sub",
            Op::Mul => "Mul",
            Op::Div => "Div",
            Op::Mod => "Mod",
            Op::And => "And",
            Op::Or => "Or",
            Op::Xor => "Xor",
            Op::Shl => "Shl",
            Op::Shr => "Shr",
            Op::Not => "Not",
            Op::Neg => "Neg",
            Op::Deref => "Deref",
            Op::AddrOf => "AddrOf",
        }
    }
}

impl Expr {
    /// The expression with its names as sequences of characters.
    pub open spec fn ast(self) -> Ast
        decreases self,
    {
        match self {
            Expr::Number(v) => Ast::Number(v),
            Expr::Register(n) => Ast::Register(n@),
            Expr::Variable(n) => Ast::Variable(n@),
            Expr::Unary(op, a) => Ast::Unary(op, Box::new(a.ast())),
            Expr::Binary(op, a, b) => Ast::Binary(op, Box::new(a.ast()), Box::new(b.ast())),
            Expr::Member(a, f) => Ast::Member(Box::new(a.ast()), f@),
            Expr::PtrMember(a, f) => Ast::PtrMember(Box::new(a.ast()), f@),
        }
    }

    /// Appends the expression in constructor notation.
    pub fn push_debug(&self, out: &mut String)
        ensures
            final(out)@ == old(out)@ + self.ast().debug(),
        decreases self,
    {
        let ghost before = out@;
        match self {
            Expr::Number(v) => {
                out.append("Number(");
                push_dec(out, *v);
            },
            Expr::Register(n) => {
                out.append("Register(");
                out.append(quote(n.as_str()).as_str());
            },
            Expr::Variable(n) => {
                out.append("Variable(");
                out.append(quote(n.as_str()).as_str());
            },
            Expr::Unary(op, a) => {
                out.append("Unary(");
                out.append(op.name());
                out.append(", ");
                a.push_debug(out);
            },
            Expr::Binary(op, a, b) => {
                out.append("Binary(");
                out.append(op.name());
                out.append(", ");
                a.push_debug(out);
                out.append(", ");
                b.push_debug(out);
            },
            Expr::Member(a, f) => {
                out.append("Member(");
                a.push_debug(out);
                out.append(", ");
                out.append(quote(f.as_str()).as_str());
            },
            Expr::PtrMember(a, f) => {
                out.append("PtrMember(");
                a.push_debug(out);
                out.append(", ");
                out.append(quote(f.as_str()).as_str());
            },
        }
        out.append(")");
        assert(out@ =~= before + self.ast().debug());
    }
}

impl Clone for Expr {
    fn clone(&self) -> (r: Self)
        ensures
            r.ast() == self.ast(),
        decreases self,
    {
        match self {
            Expr::Number(v) => Expr::Number(*v),
            Expr::Register(n) => Expr::Register(owned(n.as_str())),
            Expr::Variable(n) => Expr::Variable(owned(n.as_str())),
            Expr::Unary(op, a) => Expr::Unary(*op, Box::new((&**a).clone())),
            Expr::Binary(op, a, b) => Expr::Binary(
                *op,
                Box::new((&**a).clone()),
                Box::new((&**b).clone()),
            ),
            Expr::Member(a, f) => Expr::Member(Box::new((&**a).clone()), owned(f.as_str())),
            Expr::PtrMember(a, f) => Expr::PtrMember(Box::new((&**a).clone()), owned(f.as_str())),
        }
    }
}

impl Ast {
    /// The expression in constructor notation, as a message quotes it.
    pub open spec fn debug(self) -> Seq<char>
        decreases self,
    {
        match self {
            Ast::Number(v) => "Number("@ + numerals::dec(v as nat) + ")"@,
            Ast::Register(n) => "Register("@ + text::quoted(n) + ")"@,
            Ast::Variable(n) => "Variable("@ + text::quoted(n) + ")"@,
            Ast::Unary(op, a) => "Unary("@ + op.label() + ", "@ + a.debug() + ")"@,
            Ast::Binary(op, a, b) => "Binary("@ + op.label() + ", "@ + a.debug() + ", "@ + b.debug()
                + ")"@,
            Ast::Member(a, f) => "Member("@ + a.debug() + ", "@ + text::quoted(f) + ")"@,
            Ast::PtrMember(a, f) => "PtrMember("@ + a.debug() + ", "@ + text::quoted(f) + ")"@,
        }
    }
}

} // verus!
