//! Built-in implementations of the common operators, which spare the cost of
//! calling a registered function.
//!
//! For an operator and the types of its two operands, the table gives at
//! most one cell. Whether a cell exists depends on the types alone; what a
//! cell computes depends on the operand values alone.

use crate::dynamic::{lemma_vals_of, lemma_vals_of_push, type_of, vals_of, Dynamic, TypeKind, Union, Val};
use crate::error::ArithError;
use crate::strings::{
    chars_of, compare_chars, concat, contains_chars, lex_lt, push_char, remove_all,
    remove_all_chars, remove_char, remove_char_chars, seq_contains,
};
use crate::decimal::{compare, dec_arith, dec_arith_exec, dec_of_int, Dec};
use vstd::arithmetic::power::pow;
use vstd::prelude::*;
use vstd::utf8::encode_utf8;

verus! {

/// A binary operator that the table knows.
#[derive(Debug, Clone, Copy, PartialEq, Eq, Structural)]
pub enum Op {
    Add,
    Sub,
    Mul,
    Div,
    Rem,
    Pow,
    Shl,
    Shr,
    Eq,
    Ne,
    Gt,
    Ge,
    Lt,
    Le,
    And,
    Or,
    Xor,
    RangeEx,
    RangeIn,
    Contains,
}

pub open spec fn is_comparison(op: Op) -> bool {
    op == Op::Eq || op == Op::Ne || op == Op::Gt || op == Op::Ge || op == Op::Lt || op == Op::Le
}

pub open spec fn is_arithmetic(op: Op) -> bool {
    op == Op::Add || op == Op::Sub || op == Op::Mul || op == Op::Div || op == Op::Rem || op
        == Op::Pow || op == Op::Shl || op == Op::Shr
}

pub open spec fn is_bitwise(op: Op) -> bool {
    op == Op::And || op == Op::Or || op == Op::Xor
}

/// The operators with a cell on decimals: `+ - * / % **` and the
/// comparisons.
pub open spec fn is_decimal_op(op: Op) -> bool {
    op == Op::Add || op == Op::Sub || op == Op::Mul || op == Op::Div || op == Op::Rem || op
        == Op::Pow || is_comparison(op)
}

/// The operator that a one- or two-character symbol, or `contains`, names.
pub open spec fn op_of_symbol(s: Seq<char>) -> Option<Op> {
    if s.len() == 1 {
        if s[0] == '+' {
            Some(Op::Add)
        } else if s[0] == '-' {
            Some(Op::Sub)
        } else if s[0] == '*' {
            Some(Op::Mul)
        } else if s[0] == '/' {
            Some(Op::Div)
        } else if s[0] == '%' {
            Some(Op::Rem)
        } else if s[0] == '>' {
            Some(Op::Gt)
        } else if s[0] == '<' {
            Some(Op::Lt)
        } else if s[0] == '&' {
            Some(Op::And)
        } else if s[0] == '|' {
            Some(Op::Or)
        } else if s[0] == '^' {
            Some(Op::Xor)
        } else {
            None
        }
    } else if s.len() == 2 {
        if s[0] == '*' && s[1] == '*' {
            Some(Op::Pow)
        } else if s[0] == '<' && s[1] == '<' {
            Some(Op::Shl)
        } else if s[0] == '>' && s[1] == '>' {
            Some(Op::Shr)
        } else if s[0] == '=' && s[1] == '=' {
            Some(Op::Eq)
        } else if s[0] == '!' && s[1] == '=' {
            Some(Op::Ne)
        } else if s[0] == '>' && s[1] == '=' {
            Some(Op::Ge)
        } else if s[0] == '<' && s[1] == '=' {
            Some(Op::Le)
        } else if s[0] == '.' && s[1] == '.' {
            Some(Op::RangeEx)
        } else {
            None
        }
    } else if s.len() == 3 {
        if s[0] == '.' && s[1] == '.' && s[2] == '=' {
            Some(Op::RangeIn)
        } else {
            None
        }
    } else if s.len() == 8 {
        if s[0] == 'c' && s[1] == 'o' && s[2] == 'n' && s[3] == 't' && s[4] == 'a' && s[5] == 'i'
            && s[6] == 'n' && s[7] == 's' {
            Some(Op::Contains)
        } else {
            None
        }
    } else {
        None
    }
}

/// The operator that an op-assignment symbol (`+=`, `**=`, `<<=`, ...) names.
pub open spec fn op_of_assign_symbol(s: Seq<char>) -> Option<Op> {
    if s.len() >= 2 && s.last() == '=' {
        match op_of_symbol(s.drop_last()) {
            Some(op) => if is_arithmetic(op) || is_bitwise(op) {
                Some(op)
            } else {
                None
            },
            None => None,
        }
    } else {
        None
    }
}

/// The operator a symbol names.
pub fn parse_op(s: &str) -> (r: Option<Op>)
    ensures
        r == op_of_symbol(s@),
{
    let c = chars_of(s);
    parse_op_chars(&c, c.len())
}

/// The operator named by the first `n` characters of `c`.
fn parse_op_chars(c: &Vec<char>, n: usize) -> (r: Option<Op>)
    requires
        n <= c@.len(),
    ensures
        r == op_of_symbol(c@.subrange(0, n as int)),
{
    let ghost s = c@.subrange(0, n as int);
    if n == 1 {
        assert(s[0] == c@[0]);
        if c[0] == '+' {
            Some(Op::Add)
        } else if c[0] == '-' {
            Some(Op::Sub)
        } else if c[0] == '*' {
            Some(Op::Mul)
        } else if c[0] == '/' {
            Some(Op::Div)
        } else if c[0] == '%' {
            Some(Op::Rem)
        } else if c[0] == '>' {
            Some(Op::Gt)
        } else if c[0] == '<' {
            Some(Op::Lt)
        } else if c[0] == '&' {
            Some(Op::And)
        } else if c[0] == '|' {
            Some(Op::Or)
        } else if c[0] == '^' {
            Some(Op::Xor)
        } else {
            None
        }
    } else if n == 2 {
        assert(s[0] == c@[0] && s[1] == c@[1]);
        if c[0] == '*' && c[1] == '*' {
            Some(Op::Pow)
        } else if c[0] == '<' && c[1] == '<' {
            Some(Op::Shl)
        } else if c[0] == '>' && c[1] == '>' {
            Some(Op::Shr)
        } else if c[0] == '=' && c[1] == '=' {
            Some(Op::Eq)
        } else if c[0] == '!' && c[1] == '=' {
            Some(Op::Ne)
        } else if c[0] == '>' && c[1] == '=' {
            Some(Op::Ge)
        } else if c[0] == '<' && c[1] == '=' {
            Some(Op::Le)
        } else if c[0] == '.' && c[1] == '.' {
            Some(Op::RangeEx)
        } else {
            None
        }
    } else if n == 3 {
        assert(s[0] == c@[0] && s[1] == c@[1] && s[2] == c@[2]);
        if c[0] == '.' && c[1] == '.' && c[2] == '=' {
            Some(Op::RangeIn)
        } else {
            None
        }
    } else if n == 8 {
        assert(s[0] == c@[0] && s[1] == c@[1] && s[2] == c@[2] && s[3] == c@[3]);
        assert(s[4] == c@[4] && s[5] == c@[5] && s[6] == c@[6] && s[7] == c@[7]);
        if c[0] == 'c' && c[1] == 'o' && c[2] == 'n' && c[3] == 't' && c[4] == 'a' && c[5] == 'i'
            && c[6] == 'n' && c[7] == 's' {
            Some(Op::Contains)
        } else {
            None
        }
    } else {
        None
    }
}

/// The operator an op-assignment symbol names.
pub fn parse_op_assign(s: &str) -> (r: Option<Op>)
    ensures
        r == op_of_assign_symbol(s@),
{
    let c = chars_of(s);
    let n = c.len();
    if n >= 2 && c[n - 1] == '=' {
        proof {
            assert(c@.subrange(0, n - 1) =~= s@.drop_last());
        }
        match parse_op_chars(&c, n - 1) {
            Some(op) => {
                let ok = match op {
                    Op::Add | Op::Sub | Op::Mul | Op::Div | Op::Rem | Op::Pow | Op::Shl | Op::Shr
                    | Op::And | Op::Or | Op::Xor => true,
                    _ => false,
                };
                if ok {
                    Some(op)
                } else {
                    None
                }
            },
            None => None,
        }
    } else {
        None
    }
}

// ---------------------------------------------------------------------------
// Integer arithmetic, checked.
proof fn lemma_pow_step(x: int, n: nat)
    ensures
        pow(x, n + 1) == x * pow(x, n),
{
    reveal(pow);
}

proof fn lemma_pow_unit(x: int, n: nat)
    requires
        -1 <= x <= 1,
    ensures
        x == 1 ==> pow(x, n) == 1,
        x == 0 && n > 0 ==> pow(x, n) == 0,
        x == -1 ==> pow(x, n) == if n % 2 == 0 {
            1int
        } else {
            -1int
        },
    decreases n,
{
    reveal(pow);
    if n > 0 {
        lemma_pow_unit(x, (n - 1) as nat);
        lemma_pow_step(x, (n - 1) as nat);
    }
}

/// Once a power of `x`, with `|x| >= 2`, leaves the range of `i64`, every
/// higher power does too.
proof fn lemma_pow_stays_out(x: int, n: nat, m: nat)
    requires
        x >= 2 || x <= -2,
        n <= m,
        pow(x, n) < i64::MIN || pow(x, n) > i64::MAX,
    ensures
        pow(x, m) < i64::MIN || pow(x, m) > i64::MAX,
    decreases m - n,
{
    if n < m {
        lemma_pow_step(x, n);
        let p = pow(x, n);
        assert(x * p < i64::MIN || x * p > i64::MAX) by (nonlinear_arith)
            requires
                x >= 2 || x <= -2,
                p < i64::MIN || p > i64::MAX,
        ;
        lemma_pow_stays_out(x, n + 1, m);
    }
}

/// `x` to the power `e`, or `None` where that leaves the range of `i64`.
fn checked_pow(x: i64, e: u32) -> (r: Option<i64>)
    ensures
        match r {
            Some(v) => v == pow(x as int, e as nat),
            None => pow(x as int, e as nat) < i64::MIN || pow(x as int, e as nat) > i64::MAX,
        },
{
    if -1 <= x && x <= 1 {
        proof {
            lemma_pow_unit(x as int, e as nat);
            reveal(pow);
        }
        if e == 0 {
            return Some(1);
        }
        if x == -1 {
            return Some(if e % 2 == 0 { 1 } else { -1 });
        }
        return Some(x);
    }
    let mut acc: i64 = 1;
    let mut k: u32 = 0;
    proof {
        reveal(pow);
    }
    while k < e
        invariant
            x >= 2 || x <= -2,
            k <= e,
            acc == pow(x as int, k as nat),
        decreases e - k,
    {
        proof {
            lemma_pow_step(x as int, k as nat);
        }
        match acc.checked_mul(x) {
            Some(v) => {
                acc = v;
                k = k + 1;
            },
            None => {
                proof {
                    lemma_pow_stays_out(x as int, (k + 1) as nat, e as nat);
                }
                return None;
            },
        }
    }
    Some(acc)
}

pub open spec fn int_pow(a: i64, b: i64) -> Result<Val, ArithError> {
    if b > u32::MAX {
        Err(ArithError::PowIndexTooLarge)
    } else if b < 0 {
        Err(ArithError::PowNegativeIndex)
    } else if i64::MIN <= pow(a as int, b as nat) <= i64::MAX {
        Ok(Val::Int(pow(a as int, b as nat) as i64))
    } else {
        Err(ArithError::PowOverflow)
    }
}

/// The magnitude of a negative shift count, saturated at `i64::MAX`.
pub open spec fn neg_count(b: i64) -> i64 {
    if b == i64::MIN {
        i64::MAX
    } else {
        (-b) as i64
    }
}

pub open spec fn shl_count(a: i64, b: i64) -> Result<Val, ArithError> {
    if b >= 64 {
        Err(ArithError::ShlTooFar)
    } else {
        Ok(Val::Int(a.wrapping_shl(b as u32)))
    }
}

pub open spec fn shr_count(a: i64, b: i64) -> Result<Val, ArithError> {
    if b >= 64 {
        Err(ArithError::ShrTooFar)
    } else {
        Ok(Val::Int(a.wrapping_shr(b as u32)))
    }
}

/// `a << b`; a negative count shifts the other way.
pub open spec fn int_shl(a: i64, b: i64) -> Result<Val, ArithError> {
    if b < 0 {
        shr_count(a, neg_count(b))
    } else {
        shl_count(a, b)
    }
}

/// `a >> b`; a negative count shifts the other way.
pub open spec fn int_shr(a: i64, b: i64) -> Result<Val, ArithError> {
    if b < 0 {
        shl_count(a, neg_count(b))
    } else {
        shr_count(a, b)
    }
}

pub open spec fn checked_int(r: Option<i64>, e: ArithError) -> Result<Val, ArithError> {
    match r {
        Some(v) => Ok(Val::Int(v)),
        None => Err(e),
    }
}

/// What a built-in operator gives on two integers.
pub open spec fn int_binary(op: Op, a: i64, b: i64) -> Result<Val, ArithError> {
    match op {
        Op::Add => checked_int(a.checked_add(b), ArithError::AddOverflow),
        Op::Sub => checked_int(a.checked_sub(b), ArithError::SubOverflow),
        Op::Mul => checked_int(a.checked_mul(b), ArithError::MulOverflow),
        Op::Div => if b == 0 {
            Err(ArithError::DivByZero)
        } else {
            checked_int(a.checked_div(b), ArithError::DivOverflow)
        },
        Op::Rem => checked_int(a.checked_rem(b), ArithError::RemByZeroOrOverflow),
        Op::Pow => int_pow(a, b),
        Op::Shl => int_shl(a, b),
        Op::Shr => int_shr(a, b),
        Op::Eq => Ok(Val::Bool(a == b)),
        Op::Ne => Ok(Val::Bool(a != b)),
        Op::Gt => Ok(Val::Bool(a > b)),
        Op::Ge => Ok(Val::Bool(a >= b)),
        Op::Lt => Ok(Val::Bool(a < b)),
        Op::Le => Ok(Val::Bool(a <= b)),
        Op::And => Ok(Val::Int(a & b)),
        Op::Or => Ok(Val::Int(a | b)),
        Op::Xor => Ok(Val::Int(a ^ b)),
        Op::RangeEx => Ok(Val::Range(a, b)),
        Op::RangeIn => Ok(Val::RangeInclusive(a, b)),
        Op::Contains => Ok(Val::Unit),
    }
}

fn checked_result(r: Option<i64>, e: ArithError) -> (o: Result<Dynamic, ArithError>)
    ensures
        match checked_int(r, e) {
            Ok(v) => o is Ok && o->Ok_0@ == v,
            Err(x) => o == Err::<Dynamic, ArithError>(x),
        },
{
    match r {
        Some(v) => Ok(Dynamic::from_int(v)),
        None => Err(e),
    }
}

fn shift_by(a: i64, b: i64, left: bool) -> (o: Result<Dynamic, ArithError>)
    requires
        b >= 0,
    ensures
        match (if left {
            shl_count(a, b)
        } else {
            shr_count(a, b)
        }) {
            Ok(v) => o is Ok && o->Ok_0@ == v,
            Err(x) => o == Err::<Dynamic, ArithError>(x),
        },
{
    if b >= 64 {
        if left {
            Err(ArithError::ShlTooFar)
        } else {
            Err(ArithError::ShrTooFar)
        }
    } else if left {
        Ok(Dynamic::from_int(a.wrapping_shl(b as u32)))
    } else {
        Ok(Dynamic::from_int(a.wrapping_shr(b as u32)))
    }
}

/// A built-in operator on two integers.
pub fn int_op(op: Op, a: i64, b: i64) -> (o: Result<Dynamic, ArithError>)
    ensures
        match int_binary(op, a, b) {
            Ok(v) => o is Ok && o->Ok_0@ == v,
            Err(x) => o == Err::<Dynamic, ArithError>(x),
        },
{
    match op {
        Op::Add => checked_result(a.checked_add(b), ArithError::AddOverflow),
        Op::Sub => checked_result(a.checked_sub(b), ArithError::SubOverflow),
        Op::Mul => checked_result(a.checked_mul(b), ArithError::MulOverflow),
        Op::Div => if b == 0 {
            Err(ArithError::DivByZero)
        } else {
            checked_result(a.checked_div(b), ArithError::DivOverflow)
        },
        Op::Rem => checked_result(a.checked_rem(b), ArithError::RemByZeroOrOverflow),
        Op::Pow => {
            if b > u32::MAX as i64 {
                Err(ArithError::PowIndexTooLarge)
            } else if b < 0 {
                Err(ArithError::PowNegativeIndex)
            } else {
                match checked_pow(a, b as u32) {
                    Some(v) => Ok(Dynamic::from_int(v)),
                    None => Err(ArithError::PowOverflow),
                }
            }
        },
        Op::Shl => {
            if b < 0 {
                let n = if b == i64::MIN {
                    i64::MAX
                } else {
                    -b
                };
                shift_by(a, n, false)
            } else {
                shift_by(a, b, true)
            }
        },
        Op::Shr => {
            if b < 0 {
                let n = if b == i64::MIN {
                    i64::MAX
                } else {
                    -b
                };
                shift_by(a, n, true)
            } else {
                shift_by(a, b, false)
            }
        },
        Op::Eq => Ok(Dynamic::from_bool(a == b)),
        Op::Ne => Ok(Dynamic::from_bool(a != b)),
        Op::Gt => Ok(Dynamic::from_bool(a > b)),
        Op::Ge => Ok(Dynamic::from_bool(a >= b)),
        Op::Lt => Ok(Dynamic::from_bool(a < b)),
        Op::Le => Ok(Dynamic::from_bool(a <= b)),
        Op::And => Ok(Dynamic::from_int(a & b)),
        Op::Or => Ok(Dynamic::from_int(a | b)),
        Op::Xor => Ok(Dynamic::from_int(a ^ b)),
        Op::RangeEx => Ok(Dynamic::from_union(Union::Range(a, b))),
        Op::RangeIn => Ok(Dynamic::from_union(Union::RangeInclusive(a, b))),
        Op::Contains => Ok(Dynamic::unit()),
    }
}


// ---------------------------------------------------------------------------
// The table of binary operators.
/// An ordering operator's answer, given whether the left side is less than,
/// equal to, or greater than the right; any other operator gives `false`.
pub open spec fn ordered(op: Op, lt: bool, eq: bool, gt: bool) -> bool {
    match op {
        Op::Eq => eq,
        Op::Ne => !eq,
        Op::Lt => lt,
        Op::Le => lt || eq,
        Op::Gt => gt,
        Op::Ge => gt || eq,
        _ => false,
    }
}

/// The first two characters of a string, padded with `'\0'`.
pub open spec fn first_two(s: Seq<char>) -> (char, char) {
    (if s.len() > 0 {
        s[0]
    } else {
        '\0'
    }, if s.len() > 1 {
        s[1]
    } else {
        '\0'
    })
}

/// Compare two pairs of characters lexicographically with `op`.
pub open spec fn pair_ordered(op: Op, a: (char, char), b: (char, char)) -> bool {
    ordered(op, a.0 < b.0 || (a.0 == b.0 && a.1 < b.1), a == b, b.0 < a.0 || (a.0 == b.0 && b.1 < a.1))
}

/// Does an object map have an entry under `k`?
pub open spec fn has_key(m: Seq<(Seq<char>, Val)>, k: Seq<char>) -> bool {
    exists|i: int| 0 <= i < m.len() && #[trigger] m[i].0 == k
}

pub open spec fn bool_binary(op: Op, a: bool, b: bool) -> Val {
    match op {
        Op::And => Val::Bool(a && b),
        Op::Or => Val::Bool(a || b),
        Op::Xor => Val::Bool(a != b),
        _ => Val::Bool(ordered(op, !a && b, a == b, a && !b)),
    }
}

pub open spec fn str_binary(op: Op, a: Seq<char>, b: Seq<char>) -> Val {
    match op {
        Op::Add => Val::Str(a + b),
        Op::Sub => Val::Str(remove_all(a, b)),
        Op::Contains => Val::Bool(seq_contains(a, b)),
        _ => Val::Bool(ordered(op, lex_lt(a, b), a == b, lex_lt(b, a))),
    }
}

/// What a built-in operator gives on two decimals.
pub open spec fn dec_binary(op: Op, a: Dec, b: Dec) -> Result<Val, ArithError> {
    if is_comparison(op) {
        Ok(Val::Bool(ordered(op, Dec::lt(a, b), Dec::same(a, b), Dec::lt(b, a))))
    } else {
        match dec_arith(op, a, b) {
            Ok(d) => Ok(Val::Decimal(d)),
            Err(e) => Err(e),
        }
    }
}

/// Is there a built-in cell for `op` on operands of types `t1` and `t2`?
pub open spec fn binary_cell(op: Op, t1: TypeKind, t2: TypeKind) -> bool {
    if t1 == t2 {
        match t1 {
            TypeKind::Int => op != Op::Contains,
            TypeKind::Decimal => is_decimal_op(op),
            TypeKind::Bool => is_comparison(op) || is_bitwise(op),
            TypeKind::Str => op == Op::Add || op == Op::Sub || is_comparison(op) || op
                == Op::Contains,
            TypeKind::Char => op == Op::Add || is_comparison(op),
            TypeKind::Blob => op == Op::Add || op == Op::Eq || op == Op::Ne,
            TypeKind::Unit => is_comparison(op),
            TypeKind::Range => op == Op::Eq || op == Op::Ne,
            TypeKind::RangeInclusive => op == Op::Eq || op == Op::Ne,
            _ => false,
        }
    } else {
        match (t1, t2) {
            (TypeKind::Decimal, TypeKind::Int) => is_decimal_op(op),
            (TypeKind::Int, TypeKind::Decimal) => is_decimal_op(op),
            (TypeKind::Char, TypeKind::Str) => op == Op::Add || is_comparison(op),
            (TypeKind::Str, TypeKind::Char) => op == Op::Add || op == Op::Sub || is_comparison(op)
                || op == Op::Contains,
            (TypeKind::Unit, TypeKind::Str) => op == Op::Add || is_comparison(op),
            (TypeKind::Str, TypeKind::Unit) => op == Op::Add || is_comparison(op),
            (TypeKind::Blob, TypeKind::Int) => op == Op::Contains,
            (TypeKind::Blob, TypeKind::Char) => op == Op::Add,
            (TypeKind::Object, TypeKind::Str) => op == Op::Contains,
            (TypeKind::Range, TypeKind::RangeInclusive) => op == Op::Eq || op == Op::Ne,
            (TypeKind::RangeInclusive, TypeKind::Range) => op == Op::Eq || op == Op::Ne,
            (TypeKind::Range, TypeKind::Int) => op == Op::Contains,
            (TypeKind::RangeInclusive, TypeKind::Int) => op == Op::Contains,
            _ => is_comparison(op),
        }
    }
}

/// What the cell for `op` computes on `x` and `y`.
pub open spec fn binary_result(op: Op, x: Val, y: Val) -> Result<Val, ArithError> {
    match (x, y) {
        (Val::Int(a), Val::Int(b)) => int_binary(op, a, b),
        (Val::Decimal(a), Val::Decimal(b)) => dec_binary(op, a, b),
        (Val::Decimal(a), Val::Int(b)) => dec_binary(op, a, dec_of_int(b)),
        (Val::Int(a), Val::Decimal(b)) => dec_binary(op, dec_of_int(a), b),
        (Val::Bool(a), Val::Bool(b)) => Ok(bool_binary(op, a, b)),
        (Val::Str(a), Val::Str(b)) => Ok(str_binary(op, a, b)),
        (Val::Char(a), Val::Char(b)) => Ok(
            if op == Op::Add {
                Val::Str(seq![a, b])
            } else {
                Val::Bool(ordered(op, a < b, a == b, b < a))
            },
        ),
        (Val::Blob(a), Val::Blob(b)) => Ok(
            if op == Op::Add {
                Val::Blob(a + b)
            } else {
                Val::Bool(ordered(op, false, a == b, false))
            },
        ),
        (Val::Unit, Val::Unit) => Ok(Val::Bool(op == Op::Eq)),
        (Val::Range(a, b), Val::Range(c, d)) => Ok(
            Val::Bool(ordered(op, false, a == c && b == d, false)),
        ),
        (Val::RangeInclusive(a, b), Val::RangeInclusive(c, d)) => Ok(
            Val::Bool(ordered(op, false, a == c && b == d, false)),
        ),
        (Val::Char(c), Val::Str(s)) => Ok(
            if op == Op::Add {
                Val::Str(seq![c] + s)
            } else {
                Val::Bool(pair_ordered(op, (c, '\0'), first_two(s)))
            },
        ),
        (Val::Str(s), Val::Char(c)) => Ok(
            match op {
                Op::Add => Val::Str(s.push(c)),
                Op::Sub => Val::Str(remove_char(s, c)),
                Op::Contains => Val::Bool(s.contains(c)),
                _ => Val::Bool(pair_ordered(op, first_two(s), (c, '\0'))),
            },
        ),
        (Val::Unit, Val::Str(s)) => Ok(
            if op == Op::Add {
                Val::Str(s)
            } else {
                Val::Bool(op == Op::Ne)
            },
        ),
        (Val::Str(s), Val::Unit) => Ok(
            if op == Op::Add {
                Val::Str(s)
            } else {
                Val::Bool(op == Op::Ne)
            },
        ),
        (Val::Blob(b), Val::Int(i)) => Ok(Val::Bool(b.contains((i & 0xff) as u8))),
        (Val::Blob(b), Val::Char(c)) => Ok(Val::Blob(b + encode_utf8(seq![c]))),
        (Val::Object(m), Val::Str(k)) => Ok(Val::Bool(has_key(m, k))),
        (Val::Range(a, b), Val::Int(v)) => Ok(Val::Bool(a <= v && v < b)),
        (Val::RangeInclusive(a, b), Val::Int(v)) => Ok(Val::Bool(a <= v && v <= b)),
        _ => Ok(Val::Bool(op == Op::Ne)),
    }
}

fn ordered_exec(op: Op, lt: bool, eq: bool, gt: bool) -> (r: bool)
    ensures
        r == ordered(op, lt, eq, gt),
{
    match op {
        Op::Eq => eq,
        Op::Ne => !eq,
        Op::Lt => lt,
        Op::Le => lt || eq,
        Op::Gt => gt,
        Op::Ge => gt || eq,
        _ => false,
    }
}

fn first_two_exec(s: &Vec<char>) -> (r: (char, char))
    ensures
        r == first_two(s@),
{
    let a = if s.len() > 0 {
        s[0]
    } else {
        '\0'
    };
    let b = if s.len() > 1 {
        s[1]
    } else {
        '\0'
    };
    (a, b)
}

fn pair_ordered_exec(op: Op, a: (char, char), b: (char, char)) -> (r: bool)
    ensures
        r == pair_ordered(op, a, b),
{
    let lt = a.0 < b.0 || (a.0 == b.0 && a.1 < b.1);
    let gt = b.0 < a.0 || (a.0 == b.0 && b.1 < a.1);
    let eq = a.0 == b.0 && a.1 == b.1;
    ordered_exec(op, lt, eq, gt)
}

/// Are two byte sequences equal?
fn bytes_eq(a: &Vec<u8>, b: &Vec<u8>) -> (r: bool)
    ensures
        r == (a@ == b@),
{
    if a.len() != b.len() {
        return false;
    }
    let mut i: usize = 0;
    while i < a.len()
        invariant
            a@.len() == b@.len(),
            i <= a@.len(),
            forall|k: int| 0 <= k < i ==> a@[k] == b@[k],
        decreases a.len() - i,
    {
        if a[i] != b[i] {
            return false;
        }
        i = i + 1;
    }
    proof {
        assert(a@ =~= b@);
    }
    true
}

/// Does a byte sequence hold `x`?
fn bytes_contain(a: &Vec<u8>, x: u8) -> (r: bool)
    ensures
        r == a@.contains(x),
{
    let mut i: usize = 0;
    while i < a.len()
        invariant
            i <= a@.len(),
            forall|k: int| 0 <= k < i ==> a@[k] != x,
        decreases a.len() - i,
    {
        if a[i] == x {
            return true;
        }
        i = i + 1;
    }
    false
}

/// Does a string hold `c`?
fn chars_contain(a: &Vec<char>, c: char) -> (r: bool)
    ensures
        r == a@.contains(c),
{
    let mut i: usize = 0;
    while i < a.len()
        invariant
            i <= a@.len(),
            forall|k: int| 0 <= k < i ==> a@[k] != c,
        decreases a.len() - i,
    {
        if a[i] == c {
            return true;
        }
        i = i + 1;
    }
    false
}

/// Appends the bytes of `src` to `dst`.
fn extend_bytes(dst: &mut Vec<u8>, src: &[u8])
    ensures
        final(dst)@ == old(dst)@ + src@,
{
    let mut i: usize = 0;
    while i < src.len()
        invariant
            i <= src@.len(),
            dst@ == old(dst)@ + src@.subrange(0, i as int),
        decreases src.len() - i,
    {
        dst.push(src[i]);
        i = i + 1;
        proof {
            assert(dst@ =~= old(dst)@ + src@.subrange(0, i as int));
        }
    }
    proof {
        assert(src@.subrange(0, src@.len() as int) =~= src@);
    }
}

/// Appends the UTF-8 encoding of `c` to `dst`.
fn extend_utf8_char(dst: &mut Vec<u8>, c: char)
    ensures
        final(dst)@ == old(dst)@ + encode_utf8(seq![c]),
{
    let mut s = String::new();
    push_char(&mut s, c);
    proof {
        assert(s@ =~= seq![c]);
    }
    extend_bytes(dst, s.as_str().as_bytes());
}

/// Does an object map have an entry under `k`?
fn map_has_key(m: &Vec<(String, Dynamic)>, k: &String) -> (r: bool)
    ensures
        r == has_key(crate::dynamic::entries_of(m@), k@),
{
    proof {
        crate::dynamic::lemma_entries_of(m@);
    }
    let mut i: usize = 0;
    while i < m.len()
        invariant
            i <= m@.len(),
            crate::dynamic::entries_of(m@).len() == m@.len(),
            forall|j: int|
                0 <= j < m@.len() ==> #[trigger] crate::dynamic::entries_of(m@)[j] == (
                    m@[j].0@,
                    m@[j].1@,
                ),
            forall|j: int| 0 <= j < i ==> m@[j].0@ != k@,
        decreases m.len() - i,
    {
        if m[i].0.eq(k) {
            proof {
                assert(crate::dynamic::entries_of(m@)[i as int].0 == k@);
            }
            return true;
        }
        i = i + 1;
    }
    proof {
        assert forall|j: int|
            0 <= j < m@.len() implies #[trigger] crate::dynamic::entries_of(m@)[j].0 != k@ by {
            assert(crate::dynamic::entries_of(m@)[j] == (m@[j].0@, m@[j].1@));
        }
    }
    false
}

/// A built-in operator on two decimals.
fn dec_op(op: Op, a: Dec, b: Dec) -> (o: Result<Dynamic, ArithError>)
    ensures
        match dec_binary(op, a, b) {
            Ok(v) => o is Ok && o->Ok_0@ == v,
            Err(e) => o == Err::<Dynamic, ArithError>(e),
        },
{
    if op == Op::Eq || op == Op::Ne || op == Op::Gt || op == Op::Ge || op == Op::Lt || op
        == Op::Le {
        let c = compare(a, b);
        Ok(Dynamic::from_bool(ordered_exec(op, c < 0, c == 0, c > 0)))
    } else {
        match dec_arith_exec(op, a, b) {
            Ok(d) => Ok(Dynamic::from_union(Union::Decimal(d))),
            Err(e) => Err(e),
        }
    }
}

/// What the built-in cell for `op` computes on `x` and `y`.
pub fn builtin_binary(op: Op, x: &Dynamic, y: &Dynamic) -> (o: Result<Dynamic, ArithError>)
    ensures
        match binary_result(op, x@, y@) {
            Ok(v) => o is Ok && o->Ok_0@ == v,
            Err(e) => o == Err::<Dynamic, ArithError>(e),
        },
{
    match (&x.value, &y.value) {
        (Union::Int(a), Union::Int(b)) => int_op(op, *a, *b),
        (Union::Decimal(a), Union::Decimal(b)) => dec_op(op, *a, *b),
        (Union::Decimal(a), Union::Int(b)) => dec_op(op, *a, Dec::from_int(*b)),
        (Union::Int(a), Union::Decimal(b)) => dec_op(op, Dec::from_int(*a), *b),
        (Union::Bool(a), Union::Bool(b)) => {
            let (a, b) = (*a, *b);
            let r = match op {
                Op::And => a && b,
                Op::Or => a || b,
                Op::Xor => a != b,
                _ => ordered_exec(op, !a && b, a == b, a && !b),
            };
            Ok(Dynamic::from_bool(r))
        },
        (Union::Str(a), Union::Str(b)) => {
            match op {
                Op::Add => Ok(Dynamic::from_string(concat(a.as_str(), b.as_str()))),
                Op::Sub => {
                    let ca = chars_of(a.as_str());
                    let cb = chars_of(b.as_str());
                    Ok(Dynamic::from_string(remove_all_chars(&ca, &cb)))
                },
                Op::Contains => {
                    let ca = chars_of(a.as_str());
                    let cb = chars_of(b.as_str());
                    Ok(Dynamic::from_bool(contains_chars(&ca, &cb)))
                },
                _ => {
                    let ca = chars_of(a.as_str());
                    let cb = chars_of(b.as_str());
                    let c = compare_chars(&ca, &cb);
                    Ok(Dynamic::from_bool(ordered_exec(op, c < 0, c == 0, c > 0)))
                },
            }
        },
        (Union::Char(a), Union::Char(b)) => {
            if op == Op::Add {
                let mut s = String::new();
                push_char(&mut s, *a);
                push_char(&mut s, *b);
                proof {
                    assert(s@ =~= seq![*a, *b]);
                }
                Ok(Dynamic::from_string(s))
            } else {
                Ok(Dynamic::from_bool(ordered_exec(op, *a < *b, *a == *b, *b < *a)))
            }
        },
        (Union::Blob(a), Union::Blob(b)) => {
            if op == Op::Add {
                let mut r = a.clone();
                extend_bytes(&mut r, b.as_slice());
                Ok(Dynamic::from_blob(r))
            } else {
                Ok(Dynamic::from_bool(ordered_exec(op, false, bytes_eq(a, b), false)))
            }
        },
        (Union::Unit, Union::Unit) => Ok(Dynamic::from_bool(op == Op::Eq)),
        (Union::Range(a, b), Union::Range(c, d)) => Ok(
            Dynamic::from_bool(ordered_exec(op, false, *a == *c && *b == *d, false)),
        ),
        (Union::RangeInclusive(a, b), Union::RangeInclusive(c, d)) => Ok(
            Dynamic::from_bool(ordered_exec(op, false, *a == *c && *b == *d, false)),
        ),
        (Union::Char(c), Union::Str(s)) => {
            if op == Op::Add {
                let mut r = String::new();
                push_char(&mut r, *c);
                r.append(s.as_str());
                proof {
                    assert(r@ =~= seq![*c] + s@);
                }
                Ok(Dynamic::from_string(r))
            } else {
                let cs = chars_of(s.as_str());
                let f = first_two_exec(&cs);
                Ok(Dynamic::from_bool(pair_ordered_exec(op, (*c, '\0'), f)))
            }
        },
        (Union::Str(s), Union::Char(c)) => {
            match op {
                Op::Add => {
                    let mut r = s.clone();
                    push_char(&mut r, *c);
                    Ok(Dynamic::from_string(r))
                },
                Op::Sub => {
                    let cs = chars_of(s.as_str());
                    Ok(Dynamic::from_string(remove_char_chars(&cs, *c)))
                },
                Op::Contains => {
                    let cs = chars_of(s.as_str());
                    Ok(Dynamic::from_bool(chars_contain(&cs, *c)))
                },
                _ => {
                    let cs = chars_of(s.as_str());
                    let f = first_two_exec(&cs);
                    Ok(Dynamic::from_bool(pair_ordered_exec(op, f, (*c, '\0'))))
                },
            }
        },
        (Union::Unit, Union::Str(s)) => {
            if op == Op::Add {
                Ok(Dynamic::from_string(s.clone()))
            } else {
                Ok(Dynamic::from_bool(op == Op::Ne))
            }
        },
        (Union::Str(s), Union::Unit) => {
            if op == Op::Add {
                Ok(Dynamic::from_string(s.clone()))
            } else {
                Ok(Dynamic::from_bool(op == Op::Ne))
            }
        },
        (Union::Blob(b), Union::Int(i)) => Ok(
            Dynamic::from_bool(bytes_contain(b, (*i & 0xff) as u8)),
        ),
        (Union::Blob(b), Union::Char(c)) => {
            let mut r = b.clone();
            extend_utf8_char(&mut r, *c);
            Ok(Dynamic::from_blob(r))
        },
        (Union::Object(m), Union::Str(k)) => Ok(Dynamic::from_bool(map_has_key(m, k))),
        (Union::Range(a, b), Union::Int(v)) => Ok(Dynamic::from_bool(*a <= *v && *v < *b)),
        (Union::RangeInclusive(a, b), Union::Int(v)) => Ok(
            Dynamic::from_bool(*a <= *v && *v <= *b),
        ),
        _ => Ok(Dynamic::from_bool(op == Op::Ne)),
    }
}


fn is_comparison_exec(op: Op) -> (r: bool)
    ensures
        r == is_comparison(op),
{
    op == Op::Eq || op == Op::Ne || op == Op::Gt || op == Op::Ge || op == Op::Lt || op == Op::Le
}

/// Is there a built-in cell for `op` on operands of types `t1` and `t2`?
pub fn has_binary_cell(op: Op, t1: TypeKind, t2: TypeKind) -> (r: bool)
    ensures
        r == binary_cell(op, t1, t2),
{
    let cmp = is_comparison_exec(op);
    let dec_ok = op == Op::Add || op == Op::Sub || op == Op::Mul || op == Op::Div || op == Op::Rem
        || op == Op::Pow || cmp;
    if t1 == t2 {
        match t1 {
            TypeKind::Int => op != Op::Contains,
            TypeKind::Decimal => dec_ok,
            TypeKind::Bool => cmp || op == Op::And || op == Op::Or || op == Op::Xor,
            TypeKind::Str => op == Op::Add || op == Op::Sub || cmp || op == Op::Contains,
            TypeKind::Char => op == Op::Add || cmp,
            TypeKind::Blob => op == Op::Add || op == Op::Eq || op == Op::Ne,
            TypeKind::Unit => cmp,
            TypeKind::Range => op == Op::Eq || op == Op::Ne,
            TypeKind::RangeInclusive => op == Op::Eq || op == Op::Ne,
            _ => false,
        }
    } else {
        match (t1, t2) {
            (TypeKind::Decimal, TypeKind::Int) => dec_ok,
            (TypeKind::Int, TypeKind::Decimal) => dec_ok,
            (TypeKind::Char, TypeKind::Str) => op == Op::Add || cmp,
            (TypeKind::Str, TypeKind::Char) => op == Op::Add || op == Op::Sub || cmp || op
                == Op::Contains,
            (TypeKind::Unit, TypeKind::Str) => op == Op::Add || cmp,
            (TypeKind::Str, TypeKind::Unit) => op == Op::Add || cmp,
            (TypeKind::Blob, TypeKind::Int) => op == Op::Contains,
            (TypeKind::Blob, TypeKind::Char) => op == Op::Add,
            (TypeKind::Object, TypeKind::Str) => op == Op::Contains,
            (TypeKind::Range, TypeKind::RangeInclusive) => op == Op::Eq || op == Op::Ne,
            (TypeKind::RangeInclusive, TypeKind::Range) => op == Op::Eq || op == Op::Ne,
            (TypeKind::Range, TypeKind::Int) => op == Op::Contains,
            (TypeKind::RangeInclusive, TypeKind::Int) => op == Op::Contains,
            _ => cmp,
        }
    }
}

/// A native operator implementation: the cell of the table for an operator
/// and two operand types.
#[derive(Debug, Clone, Copy, PartialEq, Eq, Structural)]
pub struct BuiltinFn {
    pub op: Op,
    pub left: TypeKind,
    pub right: TypeKind,
}

impl BuiltinFn {
    /// Is this a cell of the table?
    pub open spec fn wf(&self) -> bool {
        binary_cell(self.op, self.left, self.right)
    }

    /// Apply this cell to two operands of its types.
    pub fn call(&self, x: &Dynamic, y: &Dynamic) -> (o: Result<Dynamic, ArithError>)
        requires
            self.wf(),
            type_of(x@) == self.left,
            type_of(y@) == self.right,
        ensures
            match binary_result(self.op, x@, y@) {
                Ok(v) => o is Ok && o->Ok_0@ == v,
                Err(e) => o == Err::<Dynamic, ArithError>(e),
            },
    {
        builtin_binary(self.op, x, y)
    }
}

/// The cell that the table gives for an operator symbol and two operands.
pub open spec fn binary_op_fn(op: Seq<char>, x: Val, y: Val) -> Option<BuiltinFn> {
    match op_of_symbol(op) {
        Some(o) => if binary_cell(o, type_of(x), type_of(y)) {
            Some(BuiltinFn { op: o, left: type_of(x), right: type_of(y) })
        } else {
            None
        },
        None => None,
    }
}

/// Look up the built-in implementation of a binary operator for two
/// operands; `None` sends the call to the registered functions.
pub fn get_builtin_binary_op_fn(op: &str, x: &Dynamic, y: &Dynamic) -> (r: Option<BuiltinFn>)
    ensures
        r == binary_op_fn(op@, x@, y@),
        r is Some ==> r->Some_0.wf(),
{
    let t1 = x.type_id();
    let t2 = y.type_id();
    match parse_op(op) {
        Some(o) => if has_binary_cell(o, t1, t2) {
            Some(BuiltinFn { op: o, left: t1, right: t2 })
        } else {
            None
        },
        None => None,
    }
}

/// Which cell the table gives depends on the operand types alone.
pub proof fn lemma_binary_cell_by_types(op: Seq<char>, x1: Val, y1: Val, x2: Val, y2: Val)
    requires
        type_of(x1) == type_of(x2),
        type_of(y1) == type_of(y2),
    ensures
        binary_op_fn(op, x1, y1) == binary_op_fn(op, x2, y2),
{
}

/// What a cell computes is a function of the operand values alone.
pub proof fn lemma_binary_result_pure(f: BuiltinFn, x1: Val, y1: Val, x2: Val, y2: Val)
    requires
        x1 == x2,
        y1 == y2,
    ensures
        binary_result(f.op, x1, y1) == binary_result(f.op, x2, y2),
{
}

// ---------------------------------------------------------------------------
// The table of op-assignment operators.
/// Is there a built-in cell for the op-assignment of `op` on types `t1`, `t2`?
pub open spec fn assign_cell(op: Op, t1: TypeKind, t2: TypeKind) -> bool {
    if t1 == t2 {
        match t1 {
            TypeKind::Int => is_arithmetic(op) || is_bitwise(op),
            TypeKind::Decimal => is_decimal_op(op) && !is_comparison(op),
            TypeKind::Bool => op == Op::And || op == Op::Or,
            TypeKind::Char => op == Op::Add,
            TypeKind::Str => op == Op::Add || op == Op::Sub,
            TypeKind::Blob => op == Op::Add,
            TypeKind::Array => op == Op::Add,
            _ => false,
        }
    } else {
        match (t1, t2) {
            (TypeKind::Decimal, TypeKind::Int) => is_decimal_op(op) && !is_comparison(op),
            (TypeKind::Str, TypeKind::Char) => op == Op::Add || op == Op::Sub,
            (TypeKind::Char, TypeKind::Str) => op == Op::Add,
            (TypeKind::Array, _) => op == Op::Add,
            (TypeKind::Blob, TypeKind::Int) => op == Op::Add,
            (TypeKind::Blob, TypeKind::Char) => op == Op::Add,
            (TypeKind::Blob, TypeKind::Str) => op == Op::Add,
            _ => false,
        }
    }
}

/// The new value of the target of an op-assignment cell; a pair of values
/// with no cell leaves the target as it is.
pub open spec fn assign_result(op: Op, x: Val, y: Val) -> Result<Val, ArithError> {
    match (x, y) {
        (Val::Int(a), Val::Int(b)) => int_binary(op, a, b),
        (Val::Decimal(a), Val::Decimal(b)) => dec_binary(op, a, b),
        (Val::Decimal(a), Val::Int(b)) => dec_binary(op, a, dec_of_int(b)),
        (Val::Bool(a), Val::Bool(b)) => Ok(
            if op == Op::And {
                Val::Bool(a && b)
            } else if op == Op::Or {
                Val::Bool(a || b)
            } else {
                x
            },
        ),
        (Val::Char(a), Val::Char(b)) => Ok(Val::Str(seq![a, b])),
        (Val::Str(a), Val::Str(b)) => Ok(
            if op == Op::Sub {
                Val::Str(remove_all(a, b))
            } else {
                Val::Str(a + b)
            },
        ),
        (Val::Blob(a), Val::Blob(b)) => Ok(Val::Blob(a + b)),
        (Val::Array(a), Val::Array(b)) => Ok(Val::Array(a + b)),
        (Val::Str(s), Val::Char(c)) => Ok(
            if op == Op::Sub {
                Val::Str(remove_char(s, c))
            } else {
                Val::Str(s.push(c))
            },
        ),
        (Val::Char(c), Val::Str(s)) => Ok(Val::Str(seq![c] + s)),
        (Val::Array(a), _) => Ok(Val::Array(a.push(y))),
        (Val::Blob(b), Val::Int(i)) => Ok(Val::Blob(b.push((i & 0xff) as u8))),
        (Val::Blob(b), Val::Char(c)) => Ok(Val::Blob(b + encode_utf8(seq![c]))),
        (Val::Blob(b), Val::Str(s)) => Ok(Val::Blob(b + encode_utf8(s))),
        _ => Ok(x),
    }
}

proof fn lemma_vals_of_append(a: Seq<Dynamic>, b: Seq<Dynamic>)
    ensures
        vals_of(a + b) == vals_of(a) + vals_of(b),
{
    lemma_vals_of(a);
    lemma_vals_of(b);
    lemma_vals_of(a + b);
    assert(vals_of(a + b) =~= vals_of(a) + vals_of(b));
}

/// Perform the op-assignment cell for `op` on the target `x` with the
/// operand `y`, which it consumes.
pub fn builtin_assign(op: Op, x: &mut Dynamic, y: Dynamic) -> (o: Result<(), ArithError>)
    ensures
        final(x).access == old(x).access,
        match assign_result(op, old(x)@, y@) {
            Ok(v) => o is Ok && final(x)@ == v,
            Err(e) => o == Err::<(), ArithError>(e) && final(x)@ == old(x)@,
        },
{
    match (&x.value, &y.value) {
        (Union::Int(a), Union::Int(b)) => {
            let r = int_op(op, *a, *b);
            return match r {
                Ok(v) => {
                    x.value = v.value;
                    Ok(())
                },
                Err(e) => Err(e),
            };
        },
        (Union::Decimal(a), Union::Decimal(b)) => {
            let r = dec_op(op, *a, *b);
            return match r {
                Ok(v) => {
                    x.value = v.value;
                    Ok(())
                },
                Err(e) => Err(e),
            };
        },
        (Union::Decimal(a), Union::Int(b)) => {
            let r = dec_op(op, *a, Dec::from_int(*b));
            return match r {
                Ok(v) => {
                    x.value = v.value;
                    Ok(())
                },
                Err(e) => Err(e),
            };
        },
        (Union::Bool(a), Union::Bool(b)) => {
            let v = if op == Op::And {
                *a && *b
            } else if op == Op::Or {
                *a || *b
            } else {
                *a
            };
            x.value = Union::Bool(v);
            return Ok(());
        },
        _ => {},
    }
    let mut cur = Union::Unit;
    core::mem::swap(&mut x.value, &mut cur);
    let ghost xv = Dynamic { value: cur, access: x.access }@;
    let ghost yv = y@;
    let new_value = match (cur, y.value) {
        (Union::Char(a), Union::Char(b)) => {
            let mut s = String::new();
            push_char(&mut s, a);
            push_char(&mut s, b);
            proof {
                assert(s@ =~= seq![a, b]);
            }
            Union::Str(s)
        },
        (Union::Str(a), Union::Str(b)) => {
            if op == Op::Sub {
                let ca = chars_of(a.as_str());
                let cb = chars_of(b.as_str());
                Union::Str(remove_all_chars(&ca, &cb))
            } else {
                let mut a = a;
                a.append(b.as_str());
                Union::Str(a)
            }
        },
        (Union::Blob(a), Union::Blob(b)) => {
            let mut a = a;
            let mut b = b;
            a.append(&mut b);
            Union::Blob(a)
        },
        (Union::Array(a), Union::Array(b)) => {
            let mut a = a;
            let mut b = b;
            let ghost a0 = a@;
            let ghost b0 = b@;
            a.append(&mut b);
            proof {
                lemma_vals_of_append(a0, b0);
            }
            Union::Array(a)
        },
        (Union::Str(s), Union::Char(c)) => {
            if op == Op::Sub {
                let cs = chars_of(s.as_str());
                Union::Str(remove_char_chars(&cs, c))
            } else {
                let mut s = s;
                push_char(&mut s, c);
                Union::Str(s)
            }
        },
        (Union::Char(c), Union::Str(s)) => {
            let mut r = String::new();
            push_char(&mut r, c);
            r.append(s.as_str());
            proof {
                assert(r@ =~= seq![c] + s@);
            }
            Union::Str(r)
        },
        (Union::Array(a), yval) => {
            let mut a = a;
            let item = Dynamic { value: yval, access: y.access };
            let ghost a0 = a@;
            proof {
                assert(item@ == yv);
            }
            a.push(item);
            proof {
                lemma_vals_of_push(a0, item);
            }
            Union::Array(a)
        },
        (Union::Blob(b), Union::Int(i)) => {
            let mut b = b;
            b.push((i & 0xff) as u8);
            Union::Blob(b)
        },
        (Union::Blob(b), Union::Char(c)) => {
            let mut b = b;
            extend_utf8_char(&mut b, c);
            Union::Blob(b)
        },
        (Union::Blob(b), Union::Str(s)) => {
            let mut b = b;
            extend_bytes(&mut b, s.as_str().as_bytes());
            Union::Blob(b)
        },
        (other, _) => other,
    };
    x.value = new_value;
    Ok(())
}

/// A native op-assignment implementation: the cell of the op-assignment
/// table for an operator and two operand types.
#[derive(Debug, Clone, Copy, PartialEq, Eq, Structural)]
pub struct BuiltinAssignFn {
    pub op: Op,
    pub left: TypeKind,
    pub right: TypeKind,
}

impl BuiltinAssignFn {
    /// Is this a cell of the table?
    pub open spec fn wf(&self) -> bool {
        assign_cell(self.op, self.left, self.right)
    }

    /// Apply this cell to a target and an operand of its types.
    pub fn call(&self, x: &mut Dynamic, y: Dynamic) -> (o: Result<(), ArithError>)
        requires
            self.wf(),
            type_of(old(x)@) == self.left,
            type_of(y@) == self.right,
        ensures
            final(x).access == old(x).access,
            match assign_result(self.op, old(x)@, y@) {
                Ok(v) => o is Ok && final(x)@ == v,
                Err(e) => o == Err::<(), ArithError>(e) && final(x)@ == old(x)@,
            },
    {
        builtin_assign(self.op, x, y)
    }
}

/// The cell that the op-assignment table gives for a symbol and two operands.
pub open spec fn op_assignment_fn(op: Seq<char>, x: Val, y: Val) -> Option<BuiltinAssignFn> {
    match op_of_assign_symbol(op) {
        Some(o) => if assign_cell(o, type_of(x), type_of(y)) {
            Some(BuiltinAssignFn { op: o, left: type_of(x), right: type_of(y) })
        } else {
            None
        },
        None => None,
    }
}

/// Is there an op-assignment cell for `op` on types `t1` and `t2`?
pub fn has_assign_cell(op: Op, t1: TypeKind, t2: TypeKind) -> (r: bool)
    ensures
        r == assign_cell(op, t1, t2),
{
    let dec_ok = op == Op::Add || op == Op::Sub || op == Op::Mul || op == Op::Div || op == Op::Rem
        || op == Op::Pow;
    if t1 == t2 {
        match t1 {
            TypeKind::Int => match op {
                Op::Add | Op::Sub | Op::Mul | Op::Div | Op::Rem | Op::Pow | Op::Shl | Op::Shr
                | Op::And | Op::Or | Op::Xor => true,
                _ => false,
            },
            TypeKind::Decimal => dec_ok,
            TypeKind::Bool => op == Op::And || op == Op::Or,
            TypeKind::Char => op == Op::Add,
            TypeKind::Str => op == Op::Add || op == Op::Sub,
            TypeKind::Blob => op == Op::Add,
            TypeKind::Array => op == Op::Add,
            _ => false,
        }
    } else {
        match (t1, t2) {
            (TypeKind::Decimal, TypeKind::Int) => dec_ok,
            (TypeKind::Str, TypeKind::Char) => op == Op::Add || op == Op::Sub,
            (TypeKind::Char, TypeKind::Str) => op == Op::Add,
            (TypeKind::Array, _) => op == Op::Add,
            (TypeKind::Blob, TypeKind::Int) => op == Op::Add,
            (TypeKind::Blob, TypeKind::Char) => op == Op::Add,
            (TypeKind::Blob, TypeKind::Str) => op == Op::Add,
            _ => false,
        }
    }
}

/// Look up the built-in implementation of an op-assignment for a target and
/// an operand; `None` sends it to the registered functions.
pub fn get_builtin_op_assignment_fn(op: &str, x: &Dynamic, y: &Dynamic) -> (r: Option<
    BuiltinAssignFn,
>)
    ensures
        r == op_assignment_fn(op@, x@, y@),
        r is Some ==> r->Some_0.wf(),
{
    let t1 = x.type_id();
    let t2 = y.type_id();
    match parse_op_assign(op) {
        Some(o) => if has_assign_cell(o, t1, t2) {
            Some(BuiltinAssignFn { op: o, left: t1, right: t2 })
        } else {
            None
        },
        None => None,
    }
}


/// Which op-assignment cell the table gives depends on the operand types
/// alone.
pub proof fn lemma_assign_cell_by_types(op: Seq<char>, x1: Val, y1: Val, x2: Val, y2: Val)
    requires
        type_of(x1) == type_of(x2),
        type_of(y1) == type_of(y2),
    ensures
        op_assignment_fn(op, x1, y1) == op_assignment_fn(op, x2, y2),
{
}

} // verus!
