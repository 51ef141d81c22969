use macos_c_debugger::expr::eval::{eval_binary, eval_unary};
use macos_c_debugger::expr::{eval, parse, EvalContext, Expr, Op};
use macos_c_debugger::register::x86_64::ThreadState64;
use macos_c_debugger::register::Registers;

type Read = fn(usize, usize) -> Result<Vec<u8>, String>;
type Var = fn(&str) -> Result<(u64, u8), String>;
type Addr = fn(&str) -> Result<u64, String>;
type Field = fn(&str, &str) -> Result<(u64, u8), String>;
type TypeOf = fn(&str) -> Result<(String, bool, String), String>;
type Context<'a> = EvalContext<'a, Read, Var, Addr, Field, TypeOf>;

fn default_regs() -> Registers {
    let mut r = ThreadState64::default();
    r.__rip = 0x1000;
    r.__rax = 0x10;
    Registers::X86(r)
}

fn value(text: &str) -> Result<u64, String> {
    let regs = default_regs();
    let ctx: Context = EvalContext::new(&regs, Some(0x1_0000_0000), None);
    eval(&parse(text)?, &ctx)
}

fn memory(addr: usize, len: usize) -> Result<Vec<u8>, String> {
    if addr == 0xdead {
        return Err("no such memory".to_string());
    }
    let mut v = Vec::new();
    for i in 0..len {
        v.push((addr + i) as u8);
    }
    Ok(v)
}

fn variable(name: &str) -> Result<(u64, u8), String> {
    match name {
        "count" => Ok((0x40, 4)),
        "big" => Ok((0x40, 200)),
        "lost" => Ok((0xdead, 4)),
        "p" => Ok((0x20, 8)),
        _ => Err(format!("variable not found: {}", name)),
    }
}

fn address(name: &str) -> Result<u64, String> {
    variable(name).map(|p| p.0)
}

fn field(ty: &str, name: &str) -> Result<(u64, u8), String> {
    if ty == "point" && name == "y" {
        Ok((4, 4))
    } else {
        Err(format!("no field {} in {}", name, ty))
    }
}

fn type_of(name: &str) -> Result<(String, bool, String), String> {
    match name {
        "count" => Ok(("point".to_string(), false, String::new())),
        "p" => Ok(("point *".to_string(), true, "point".to_string())),
        _ => Err(format!("variable not found: {}", name)),
    }
}

fn rich(text: &str) -> Result<u64, String> {
    let regs = default_regs();
    let read: Read = memory;
    let var: Var = variable;
    let addr: Addr = address;
    let fields: Field = field;
    let types: TypeOf = type_of;
    let mut ctx: Context = EvalContext::new(&regs, None, Some(&read));
    ctx.resolve_var = Some(&var);
    ctx.addr_of_var = Some(&addr);
    ctx.resolve_field = Some(&fields);
    ctx.type_of_var = Some(&types);
    eval(&parse(text)?, &ctx)
}

#[test]
fn basic_arithmetic() {
    let expr = parse("1 + 2 * 3").unwrap();
    let regs = default_regs();
    let ctx: Context = EvalContext::new(&regs, None, None);
    assert_eq!(eval(&expr, &ctx).unwrap(), 7);
}

#[test]
fn register_and_hex() {
    let expr = parse("$pc + 0x10").unwrap();
    let regs = default_regs();
    let ctx: Context = EvalContext::new(&regs, None, None);
    assert_eq!(eval(&expr, &ctx).unwrap(), 0x1010);
}

#[test]
fn numbers_in_every_base() {
    assert_eq!(value("0x1f"), Ok(31));
    assert_eq!(value("0b101"), Ok(5));
    assert_eq!(value("0o17"), Ok(15));
    assert_eq!(value("18446744073709551615"), Ok(u64::MAX));
    assert!(value("18446744073709551616").is_err());
}

#[test]
fn precedence_and_association() {
    assert_eq!(value("10 - 4 - 3"), Ok(3));
    assert_eq!(value("1 | 2 ^ 3 & 1"), Ok(1 | (2 ^ (3 & 1))));
    assert_eq!(value("1 << 2 + 1"), Ok(8));
    assert_eq!(value("(1 + 2) * 3"), Ok(9));
    assert_eq!(value("7 % 4 * 2"), Ok(6));
    assert_eq!(value("-1"), Ok(u64::MAX));
    assert_eq!(value("~0"), Ok(u64::MAX));
    assert_eq!(value("256 >> 4 >> 2"), Ok(4));
}

#[test]
fn one_reading_only() {
    match parse("1 + 2 * 3").unwrap() {
        Expr::Binary(Op::Add, a, b) => {
            assert!(matches!(*a, Expr::Number(1)));
            assert!(matches!(*b, Expr::Binary(Op::Mul, _, _)));
        }
        _ => panic!("not a sum"),
    }
}

#[test]
fn the_image_base() {
    assert_eq!(value("base + 0x3f20"), Ok(0x1_0000_3f20));
    assert_eq!(rich("base"), Err("image base unknown".to_string()));
}

#[test]
fn registers_by_name() {
    assert_eq!(value("$rax"), Ok(0x10));
    assert_eq!(value("$RAX * 2"), Ok(0x20));
    assert_eq!(value("$nope"), Err("unknown register: $nope".to_string()));
}

#[test]
fn a_text_that_is_no_expression() {
    assert_eq!(value("1 +"), Err("parse error: \"1 +\"".to_string()));
    assert!(parse("").is_err());
    assert!(parse("(1").is_err());
    assert!(parse("1 2").is_err());
}

#[test]
fn division_by_zero() {
    assert_eq!(value("1 / 0"), Err("division by zero".to_string()));
    assert_eq!(value("1 % 0"), Err("modulo by zero".to_string()));
    assert_eq!(eval_binary(Op::Div, 7, 2), Ok(3));
    assert_eq!(eval_binary(Op::Shl, 1, 65), Ok(2));
    assert_eq!(eval_unary(Op::Neg, 5), Ok(5u64.wrapping_neg()));
    assert!(eval_unary(Op::Add, 5).is_err());
    assert!(eval_binary(Op::Not, 5, 5).is_err());
}

#[test]
fn variables_are_read_from_memory() {
    assert_eq!(rich("count"), Ok(0x43424140));
    assert_eq!(rich("big"), Ok(0x4746454443424140));
    assert_eq!(rich("missing"), Err("variable not found: missing".to_string()));
    assert_eq!(
        rich("lost"),
        Err("failed to read variable lost: no such memory".to_string())
    );
    assert_eq!(
        value("count"),
        Err("variable resolution not available".to_string())
    );
}

#[test]
fn dereference_and_address() {
    assert_eq!(rich("*0x10"), Ok(0x1716151413121110));
    assert_eq!(rich("&count"), Ok(0x40));
    assert_eq!(value("&count"), Err("address-of not available".to_string()));
    assert!(value("*0x10").is_err());
}

#[test]
fn members() {
    assert_eq!(rich("count.y"), Ok(0x47464544));
    let at = 0x2726252423222120u64;
    let mut want = 0u64;
    for i in 0..4u64 {
        want |= ((at.wrapping_add(4 + i) & 0xff) as u64) << (8 * i);
    }
    assert_eq!(rich("p->y"), Ok(want));
    assert!(rich("count.z").is_err());
    assert!(value("count.y").is_err());
}
