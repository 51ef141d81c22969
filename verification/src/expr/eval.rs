//! What an expression is worth in a stopped program.
use crate::bytes;
use crate::bytes::le_u64;
use crate::expr::{Ast, Expr, Op};
use crate::register::Registers;
use crate::text::{owned, str_eq};
use vstd::prelude::*;

verus! {

/// What an expression can ask about: the registers, the image base, and by callbacks the memory, the
/// variables and the types. A callback that is absent makes the expressions that need it fail.
pub struct EvalContext<'a, M, V, A, F, T> {
    pub regs: &'a Registers,
    pub base: Option<u64>,
    /// Reads that many bytes at an address.
    pub read_mem: Option<&'a M>,
    /// The address and the size of a variable.
    pub resolve_var: Option<&'a V>,
    /// The address of a variable, for `&`.
    pub addr_of_var: Option<&'a A>,
    /// The offset and the size of a field, from the names of the structure and the field.
    pub resolve_field: Option<&'a F>,
    /// The type of a variable: its name, whether it is a pointer, and the name of the type pointed to.
    pub type_of_var: Option<&'a T>,
}

impl<'a, M, V, A, F, T> EvalContext<'a, M, V, A, F, T> {
    /// A context that knows no variables and no types.
    pub fn new(regs: &'a Registers, base: Option<u64>, read_mem: Option<&'a M>) -> (r: Self)
        ensures
            r.regs == regs,
            r.base == base,
            r.read_mem == read_mem,
            r.resolve_var is None,
            r.addr_of_var is None,
            r.resolve_field is None,
            r.type_of_var is None,
    {
        EvalContext {
            regs,
            base,
            read_mem,
            resolve_var: None,
            addr_of_var: None,
            resolve_field: None,
            type_of_var: None,
        }
    }
}

/// The outcome of an evaluation, with its message as a sequence of characters.
pub type Outcome = Result<u64, Seq<char>>;

/// The outcome of an evaluation.
pub open spec fn outcome(r: Result<u64, String>) -> Outcome {
    match r {
        Ok(v) => Ok(v),
        Err(m) => Err(m@),
    }
}

/// Marks the outcomes that a part of an expression had.
pub open spec fn met(x: Outcome) -> bool {
    true
}

/// `size` within one and eight.
pub open spec fn clamped(size: u8) -> usize {
    if size < 1 {
        1
    } else if size > 8 {
        8
    } else {
        size as usize
    }
}

/// The number in the first `n` bytes of what was read, or in all of it where it is shorter.
pub open spec fn prefix_value(b: Seq<u8>, n: usize) -> u64 {
    bytes::le(if b.len() < n {
        b
    } else {
        b.take(n as int)
    }) as u64
}

impl<
    'a,
    M: Fn(usize, usize) -> Result<Vec<u8>, String>,
    V: Fn(&str) -> Result<(u64, u8), String>,
    A: Fn(&str) -> Result<u64, String>,
    F: Fn(&str, &str) -> Result<(u64, u8), String>,
    T: Fn(&str) -> Result<(String, bool, String), String>,
> EvalContext<'a, M, V, A, F, T> {
    /// Whether the callbacks may be called with any argument.
    pub open spec fn callable(self) -> bool {
        &&& self.read_mem matches Some(f) ==> forall|a: usize, n: usize| #[trigger] f.requires((a, n))
        &&& self.resolve_var matches Some(f) ==> forall|s: &str| #[trigger] f.requires((s,))
        &&& self.addr_of_var matches Some(f) ==> forall|s: &str| #[trigger] f.requires((s,))
        &&& self.resolve_field matches Some(f) ==> forall|s: &str, t: &str| #[trigger]
            f.requires((s, t))
        &&& self.type_of_var matches Some(f) ==> forall|s: &str| #[trigger] f.requires((s,))
    }

    /// Whether reading `n` bytes at `addr` can give `r`.
    pub open spec fn reads(self, addr: usize, n: usize, r: Result<Vec<u8>, String>) -> bool {
        self.read_mem matches Some(f) && f.ensures((addr, n), r)
    }

    /// Whether the variable `name` can be at the place `r`.
    pub open spec fn resolves(self, name: Seq<char>, r: Result<(u64, u8), String>) -> bool {
        self.resolve_var matches Some(f) && exists|s: &str| s@ == name && #[trigger] f.ensures((s,), r)
    }

    /// Whether the address of the variable `name` can be `r`.
    pub open spec fn addresses(self, name: Seq<char>, r: Result<u64, String>) -> bool {
        self.addr_of_var matches Some(f) && exists|s: &str| s@ == name && #[trigger] f.ensures((s,), r)
    }

    /// Whether the field of a structure can be at `r`.
    pub open spec fn has_field(
        self,
        name: Seq<char>,
        field: Seq<char>,
        r: Result<(u64, u8), String>,
    ) -> bool {
        self.resolve_field matches Some(f) && exists|s: &str, t: &str|
            s@ == name && t@ == field && #[trigger] f.ensures((s, t), r)
    }

    /// Whether the type of the variable `name` can be `r`.
    pub open spec fn typed(self, name: Seq<char>, r: Result<(String, bool, String), String>) -> bool {
        self.type_of_var matches Some(f) && exists|s: &str| s@ == name && #[trigger] f.ensures((s,), r)
    }

    /// The value of a register; `base` is the image base.
    pub open spec fn register(self, name: Seq<char>) -> Outcome {
        if name == "base"@ {
            match self.base {
                Some(b) => Ok(b),
                None => Err("image base unknown"@),
            }
        } else {
            match self.regs.named(name) {
                Some(v) => Ok(v),
                None => Err("unknown register: $"@ + name),
            }
        }
    }

    /// Whether the variable `name` can be worth `r`: the number at its place, of one to eight bytes.
    pub open spec fn variable(self, name: Seq<char>, r: Outcome) -> bool {
        if self.resolve_var is None {
            r == Err::<u64, Seq<char>>("variable resolution not available"@)
        } else {
            exists|place: Result<(u64, u8), String>| #[trigger]
                self.resolves(name, place) && match place {
                    Err(m) => r == Err::<u64, Seq<char>>(m@),
                    Ok((addr, size)) => if self.read_mem is None {
                        r == Err::<u64, Seq<char>>("memory read not available"@)
                    } else {
                        exists|b: Result<Vec<u8>, String>| #[trigger]
                            self.reads(addr as usize, clamped(size), b) && match b {
                                Err(m) => r == Err::<u64, Seq<char>>(
                                    "failed to read variable "@ + name + ": "@ + m@,
                                ),
                                Ok(v) => r == (if v@.len() == 0 {
                                    Err::<u64, Seq<char>>("failed to read variable "@ + name)
                                } else {
                                    Ok(prefix_value(v@, clamped(size)))
                                }),
                            }
                    },
                }
        }
    }

    /// Whether the address of the variable `name` can come out as `r`; `missing` is said where there is
    /// no way to ask for it.
    pub open spec fn address(self, name: Seq<char>, missing: Seq<char>, r: Outcome) -> bool {
        if self.addr_of_var is None {
            r == Err::<u64, Seq<char>>(missing)
        } else {
            exists|a: Result<u64, String>| #[trigger] self.addresses(name, a) && r == outcome(a)
        }
    }

    /// Whether the number at the address `v` can come out as `r`.
    pub open spec fn at(self, v: u64, r: Outcome) -> bool {
        if self.read_mem is None {
            r == Err::<u64, Seq<char>>("memory read not available for '*'"@)
        } else {
            exists|b: Result<Vec<u8>, String>| #[trigger]
                self.reads(v as usize, 8, b) && match b {
                    Err(m) => r == Err::<u64, Seq<char>>("failed to read memory: "@ + m@),
                    Ok(s) => r == (if s@.len() < 8 {
                        Err::<u64, Seq<char>>("not enough bytes to read 64-bit value"@)
                    } else {
                        Ok(prefix_value(s@, 8))
                    }),
                }
        }
    }

    /// Whether the field at `addr` of the structure `name` can come out as `r`.
    pub open spec fn field(self, addr: u64, name: Seq<char>, field: Seq<char>, r: Outcome) -> bool {
        exists|place: Result<(u64, u8), String>| #[trigger]
            self.has_field(name, field, place) && match place {
                Err(m) => r == Err::<u64, Seq<char>>(m@),
                Ok((offset, size)) => if self.read_mem is None {
                    r == Err::<u64, Seq<char>>("memory read not available"@)
                } else {
                    exists|b: Result<Vec<u8>, String>| #[trigger]
                        self.reads(addr.wrapping_add(offset) as usize, clamped(size), b) && match b {
                            Err(m) => r == Err::<u64, Seq<char>>(
                                "failed to read "@ + name + "."@ + field + ": "@ + m@,
                            ),
                            Ok(v) => r == Ok::<u64, Seq<char>>(prefix_value(v@, clamped(size))),
                        }
                },
            }
    }

    /// Whether the field of `base` at `addr` can come out as `r`: of a variable by its type, behind the
    /// pointer where it is one or `arrow` says so; of anything else the type is not known.
    pub open spec fn member(
        self,
        base: Ast,
        addr: u64,
        field: Seq<char>,
        arrow: bool,
        r: Outcome,
    ) -> bool {
        match base {
            Ast::Variable(name) => if self.type_of_var is None {
                r == Err::<u64, Seq<char>>("type resolution not available"@)
            } else {
                exists|t: Result<(String, bool, String), String>| #[trigger]
                    self.typed(name, t) && match t {
                        Err(m) => r == Err::<u64, Seq<char>>(m@),
                        Ok((tname, is_pointer, pointee)) => self.field(
                            addr,
                            if arrow || is_pointer {
                                pointee@
                            } else {
                                tname@
                            },
                            field,
                            r,
                        ),
                    }
            },
            _ => r == Err::<u64, Seq<char>>("cannot determine type for '"@ + base.debug() + "'"@),
        }
    }

    /// Whether the expression `e` can be worth `r`.
    pub open spec fn evals(self, e: Ast, r: Outcome) -> bool
        decreases e,
    {
        match e {
            Ast::Number(v) => r == Ok::<u64, Seq<char>>(v),
            Ast::Register(n) => r == self.register(n),
            Ast::Variable(n) => self.variable(n, r),
            Ast::Unary(op, a) => if op == Op::AddrOf {
                match *a {
                    Ast::Variable(n) => self.address(n, "address-of not available"@, r),
                    _ => r == Err::<u64, Seq<char>>("& can only be applied to a variable name"@),
                }
            } else {
                exists|x: Outcome| #[trigger]
                    met(x) && self.evals(*a, x) && match x {
                        Err(m) => r == x,
                        Ok(v) => if op == Op::Deref {
                            self.at(v, r)
                        } else {
                            r == unary(op, v)
                        },
                    }
            },
            Ast::Binary(op, a, b) => exists|x: Outcome| #[trigger]
                met(x) && self.evals(*a, x) && match x {
                    Err(m) => r == x,
                    Ok(v) => exists|y: Outcome| #[trigger]
                        met(y) && self.evals(*b, y) && match y {
                            Err(m) => r == y,
                            Ok(w) => r == binary(op, v, w),
                        },
                },
            Ast::Member(a, f) => if self.resolve_field is None {
                r == Err::<u64, Seq<char>>("struct field resolution not available"@)
            } else {
                exists|x: Outcome| #[trigger]
                    met(x) && (match *a {
                        Ast::Variable(n) => self.address(n, "address-of not available for '.'"@, x),
                        _ => self.evals(*a, x),
                    }) && match x {
                        Err(m) => r == x,
                        Ok(addr) => self.member(*a, addr, f, false, r),
                    }
            },
            Ast::PtrMember(a, f) => if self.resolve_field is None {
                r == Err::<u64, Seq<char>>("struct field resolution not available"@)
            } else {
                exists|x: Outcome| #[trigger]
                    met(x) && self.evals(*a, x) && match x {
                        Err(m) => r == x,
                        Ok(addr) => self.member(*a, addr, f, true, r),
                    }
            },
        }
    }
}

/// The value of a prefix other than `*` and `&`: two's complement, or every bit turned.
pub open spec fn unary(op: Op, v: u64) -> Outcome {
    match op {
        Op::Neg => Ok(0u64.wrapping_sub(v)),
        Op::Not => Ok(!v),
        _ => Err("unsupported unary operator: "@ + op.label()),
    }
}

/// The value of a binary operation in 64-bit arithmetic. Of a shift the count is taken modulo 64.
pub open spec fn binary(op: Op, v: u64, w: u64) -> Outcome {
    match op {
        Op::Add => Ok(v.wrapping_add(w)),
        Op::Sub => Ok(v.wrapping_sub(w)),
        Op::Mul => Ok(v.wrapping_mul(w)),
        Op::Div => if w == 0 {
            Err("division by zero"@)
        } else {
            Ok(v / w)
        },
        Op::Mod => if w == 0 {
            Err("modulo by zero"@)
        } else {
            Ok(v % w)
        },
        Op::And => Ok(v & w),
        Op::Or => Ok(v | w),
        Op::Xor => Ok(v ^ w),
        Op::Shl => Ok(v << (w % 64)),
        Op::Shr => Ok(v >> (w % 64)),
        _ => Err("unsupported binary operator: "@ + op.label()),
    }
}

/// `size` within one and eight.
fn clamp_size(size: u8) -> (r: usize)
    ensures
        r == clamped(size),
        1 <= r <= 8,
{
    if size < 1 {
        1
    } else if size > 8 {
        8
    } else {
        size as usize
    }
}

/// The number in the first `n` bytes of what was read.
fn read_prefix(b: &Vec<u8>, n: usize) -> (r: u64)
    requires
        n <= 8,
    ensures
        r == prefix_value(b@, n),
{
    if b.len() < n {
        le_u64(b.as_slice())
    } else {
        let s = vstd::slice::slice_subrange(b.as_slice(), 0, n);
        assert(s@ =~= b@.take(n as int));
        le_u64(s)
    }
}

/// A message made of two parts.
fn message(a: &str, b: &str) -> (r: String)
    ensures
        r@ == a@ + b@,
{
    let mut m = owned(a);
    m.append(b);
    m
}

/// The value of a prefix other than `*` and `&`.
pub fn eval_unary(op: Op, v: u64) -> (r: Result<u64, String>)
    ensures
        outcome(r) == unary(op, v),
{
    match op {
        Op::Neg => Ok(0u64.wrapping_sub(v)),
        Op::Not => Ok(!v),
        _ => Err(message("unsupported unary operator: ", op.name())),
    }
}

/// The value of a binary operation.
pub fn eval_binary(op: Op, v: u64, w: u64) -> (r: Result<u64, String>)
    ensures
        outcome(r) == binary(op, v, w),
{
    match op {
        Op::Add => Ok(v.wrapping_add(w)),
        Op::Sub => Ok(v.wrapping_sub(w)),
        Op::Mul => Ok(v.wrapping_mul(w)),
        Op::Div => if w == 0 {
            Err(owned("division by zero"))
        } else {
            Ok(v / w)
        },
        Op::Mod => if w == 0 {
            Err(owned("modulo by zero"))
        } else {
            Ok(v % w)
        },
        Op::And => Ok(v & w),
        Op::Or => Ok(v | w),
        Op::Xor => Ok(v ^ w),
        Op::Shl => Ok(v << (w % 64)),
        Op::Shr => Ok(v >> (w % 64)),
        _ => Err(message("unsupported binary operator: ", op.name())),
    }
}

/// The value of a variable.
fn eval_variable<
    'a,
    M: Fn(usize, usize) -> Result<Vec<u8>, String>,
    V: Fn(&str) -> Result<(u64, u8), String>,
    A: Fn(&str) -> Result<u64, String>,
    F: Fn(&str, &str) -> Result<(u64, u8), String>,
    T: Fn(&str) -> Result<(String, bool, String), String>,
>(name: &str, ctx: &EvalContext<'a, M, V, A, F, T>) -> (r: Result<u64, String>)
    requires
        ctx.callable(),
    ensures
        ctx.variable(name@, outcome(r)),
{
    let resolve = match ctx.resolve_var {
        Some(f) => f,
        None => return Err(owned("variable resolution not available")),
    };
    let place = resolve(name);
    assert(ctx.resolves(name@, place));
    let (addr, size): (u64, u8) = match place {
        Ok(p) => p,
        Err(m) => return Err(m),
    };
    let read = match ctx.read_mem {
        Some(f) => f,
        None => return Err(owned("memory read not available")),
    };
    let n: usize = clamp_size(size);
    let b = read(addr as usize, n);
    assert(ctx.reads(addr as usize, n, b));
    match b {
        Err(m) => {
            let mut e = message("failed to read variable ", name);
            e.append(": ");
            e.append(m.as_str());
            Err(e)
        },
        Ok(v) => if v.len() == 0 {
            Err(message("failed to read variable ", name))
        } else {
            Ok(read_prefix(&v, n))
        },
    }
}

/// The address of a variable.
fn eval_address<
    'a,
    M: Fn(usize, usize) -> Result<Vec<u8>, String>,
    V: Fn(&str) -> Result<(u64, u8), String>,
    A: Fn(&str) -> Result<u64, String>,
    F: Fn(&str, &str) -> Result<(u64, u8), String>,
    T: Fn(&str) -> Result<(String, bool, String), String>,
>(name: &str, missing: &str, ctx: &EvalContext<'a, M, V, A, F, T>) -> (r: Result<u64, String>)
    requires
        ctx.callable(),
    ensures
        ctx.address(name@, missing@, outcome(r)),
{
    match ctx.addr_of_var {
        Some(f) => {
            let a = f(name);
            assert(ctx.addresses(name@, a));
            a
        },
        None => Err(owned(missing)),
    }
}

/// The number at an address.
fn eval_deref<
    'a,
    M: Fn(usize, usize) -> Result<Vec<u8>, String>,
    V: Fn(&str) -> Result<(u64, u8), String>,
    A: Fn(&str) -> Result<u64, String>,
    F: Fn(&str, &str) -> Result<(u64, u8), String>,
    T: Fn(&str) -> Result<(String, bool, String), String>,
>(v: u64, ctx: &EvalContext<'a, M, V, A, F, T>) -> (r: Result<u64, String>)
    requires
        ctx.callable(),
    ensures
        ctx.at(v, outcome(r)),
{
    let read = match ctx.read_mem {
        Some(f) => f,
        None => return Err(owned("memory read not available for '*'")),
    };
    let b = read(v as usize, 8);
    assert(ctx.reads(v as usize, 8, b));
    match b {
        Err(m) => Err(message("failed to read memory: ", m.as_str())),
        Ok(s) => if s.len() < 8 {
            Err(owned("not enough bytes to read 64-bit value"))
        } else {
            Ok(read_prefix(&s, 8))
        },
    }
}

/// The field of a structure at an address.
fn eval_field<
    'a,
    M: Fn(usize, usize) -> Result<Vec<u8>, String>,
    V: Fn(&str) -> Result<(u64, u8), String>,
    A: Fn(&str) -> Result<u64, String>,
    F: Fn(&str, &str) -> Result<(u64, u8), String>,
    T: Fn(&str) -> Result<(String, bool, String), String>,
>(addr: u64, name: &str, field: &str, ctx: &EvalContext<'a, M, V, A, F, T>) -> (r: Result<u64, String>)
    requires
        ctx.callable(),
        ctx.resolve_field is Some,
    ensures
        ctx.field(addr, name@, field@, outcome(r)),
{
    let resolve = match ctx.resolve_field {
        Some(f) => f,
        None => return Err(owned("struct field resolution not available")),
    };
    let place = resolve(name, field);
    assert(ctx.has_field(name@, field@, place));
    let (offset, size): (u64, u8) = match place {
        Ok(p) => p,
        Err(m) => return Err(m),
    };
    let read = match ctx.read_mem {
        Some(f) => f,
        None => return Err(owned("memory read not available")),
    };
    let n: usize = clamp_size(size);
    let from: u64 = addr.wrapping_add(offset);
    let b = read(from as usize, n);
    assert(ctx.reads(addr.wrapping_add(offset) as usize, n, b));
    match b {
        Err(m) => {
            let mut e = message("failed to read ", name);
            e.append(".");
            e.append(field);
            e.append(": ");
            e.append(m.as_str());
            Err(e)
        },
        Ok(v) => Ok(read_prefix(&v, n)),
    }
}

/// The value of `base.field`, or with `arrow` of `base->field`.
pub fn eval_member<
    'a,
    M: Fn(usize, usize) -> Result<Vec<u8>, String>,
    V: Fn(&str) -> Result<(u64, u8), String>,
    A: Fn(&str) -> Result<u64, String>,
    F: Fn(&str, &str) -> Result<(u64, u8), String>,
    T: Fn(&str) -> Result<(String, bool, String), String>,
>(base: &Expr, field: &str, arrow: bool, ctx: &EvalContext<'a, M, V, A, F, T>) -> (r: Result<
    u64,
    String,
>)
    requires
        ctx.callable(),
    ensures
        ctx.evals(
            if arrow {
                Ast::PtrMember(Box::new(base.ast()), field@)
            } else {
                Ast::Member(Box::new(base.ast()), field@)
            },
            outcome(r),
        ),
    decreases base, 1int,
{
    if ctx.resolve_field.is_none() {
        return Err(owned("struct field resolution not available"));
    }
    let place: Result<u64, String> = if arrow {
        eval(base, ctx)
    } else {
        match base {
            Expr::Variable(name) => eval_address(
                name.as_str(),
                "address-of not available for '.'",
                ctx,
            ),
            _ => eval(base, ctx),
        }
    };
    assert(met(outcome(place)));
    let addr: u64 = match place {
        Ok(a) => a,
        Err(m) => return Err(m),
    };
    match base {
        Expr::Variable(name) => {
            let type_of = match ctx.type_of_var {
                Some(f) => f,
                None => return Err(owned("type resolution not available")),
            };
            let t = type_of(name.as_str());
            assert(ctx.typed(name@, t));
            match t {
                Err(m) => Err(m),
                Ok((tname, is_pointer, pointee)) => if arrow || is_pointer {
                    eval_field(addr, pointee.as_str(), field, ctx)
                } else {
                    eval_field(addr, tname.as_str(), field, ctx)
                },
            }
        },
        _ => {
            let mut e = owned("cannot determine type for '");
            base.push_debug(&mut e);
            e.append("'");
            Err(e)
        },
    }
}

/// The value of an expression.
pub fn eval<
    'a,
    M: Fn(usize, usize) -> Result<Vec<u8>, String>,
    V: Fn(&str) -> Result<(u64, u8), String>,
    A: Fn(&str) -> Result<u64, String>,
    F: Fn(&str, &str) -> Result<(u64, u8), String>,
    T: Fn(&str) -> Result<(String, bool, String), String>,
>(expr: &Expr, ctx: &EvalContext<'a, M, V, A, F, T>) -> (r: Result<u64, String>)
    requires
        ctx.callable(),
    ensures
        ctx.evals(expr.ast(), outcome(r)),
    decreases expr, 0int,
{
    match expr {
        Expr::Number(v) => Ok(*v),
        Expr::Register(name) => if str_eq(name.as_str(), "base") {
            match ctx.base {
                Some(b) => Ok(b),
                None => Err(owned("image base unknown")),
            }
        } else {
            match ctx.regs.get(name.as_str()) {
                Some(v) => Ok(v),
                None => Err(message("unknown register: $", name.as_str())),
            }
        },
        Expr::Variable(name) => eval_variable(name.as_str(), ctx),
        Expr::Unary(op, a) => {
            if *op == Op::AddrOf {
                return match &**a {
                    Expr::Variable(name) => eval_address(
                        name.as_str(),
                        "address-of not available",
                        ctx,
                    ),
                    _ => Err(owned("& can only be applied to a variable name")),
                };
            }
            let x = eval(a, ctx);
            assert(met(outcome(x)));
            match x {
                Err(m) => Err(m),
                Ok(v) => if *op == Op::Deref {
                    eval_deref(v, ctx)
                } else {
                    eval_unary(*op, v)
                },
            }
        },
        Expr::Binary(op, a, b) => {
            let x = eval(a, ctx);
            assert(met(outcome(x)));
            match x {
                Err(m) => Err(m),
                Ok(v) => {
                    let y = eval(b, ctx);
                    assert(met(outcome(y)));
                    match y {
                        Err(m) => Err(m),
                        Ok(w) => eval_binary(*op, v, w),
                    }
                },
            }
        },
        Expr::Member(a, field) => eval_member(a, field.as_str(), false, ctx),
        Expr::PtrMember(a, field) => eval_member(a, field.as_str(), true, ctx),
    }
}

} // verus!
