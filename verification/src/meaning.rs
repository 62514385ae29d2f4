//! What the arithmetic, the conditional branches, the decoding of those instructions,
//! the search for an exception handler and the layout of primitive fields mean, stated
//! in terms of integers, orders, superclass chains and Java widths.
use crate::arith::{ArithOp, UnaryOp};
use vstd::arithmetic::power2::pow2;
use crate::attributes::ExceptionEntry;
use crate::classes::{is_static_field, is_subclass_of, table_wf, LoadedClass};
use crate::classfile::{text_at, FieldValue};
use crate::layout::{field_layout, instances_from, Layout};
use crate::machine::handler_from;
use crate::pool::EntryValue;
use crate::resolve::class_name_at;
use crate::branch::Comparison;
use crate::error::ExecError;
use crate::instruction::{plain_instruction, Instruction};
use crate::opcode::{spec_decode, OpcodeValue};
use crate::reader::Outcome;
use crate::numeric::IntegralType;
use crate::value::RuntimeValue;
use vstd::prelude::*;

verus! {

/// `r` is an `int` result congruent to `z` modulo 2^32: the 32-bit two's complement
/// wrap of `z`.
pub open spec fn gives_int(r: Result<RuntimeValue, ExecError>, z: int) -> bool {
    r matches Ok(RuntimeValue::Integral(i)) && i.ty == IntegralType::Int && i32::MIN <= i.value <= i32::MAX && (i.value - z)
        % 0x1_0000_0000 == 0
}

/// `r` is a `long` result congruent to `z` modulo 2^64: the 64-bit two's complement
/// wrap of `z`.
pub open spec fn gives_long(r: Result<RuntimeValue, ExecError>, z: int) -> bool {
    r matches Ok(RuntimeValue::Integral(i)) && i.ty == IntegralType::Long && (i.value - z) % 0x1_0000_0000_0000_0000 == 0
}

/// The value of a successful result.
pub open spec fn value_of(r: Result<RuntimeValue, ExecError>) -> int {
    match r {
        Ok(v) => v.integral_value() as int,
        Err(_) => 0,
    }
}

/// `q` and `m` are the quotient and remainder of `x` by `y` in truncating division: `q
/// * y + m == x`, the remainder is smaller than the divisor in magnitude and has the
/// sign of the dividend.
pub open spec fn truncating_division(x: int, y: int, q: int, m: int) -> bool {
    &&& q * y + m == x
    &&& if y > 0 { -y < m < y } else { y < m < -y }
    &&& m == 0 || (m > 0) == (x > 0)
}

proof fn lemma_wrap32(z: int, v: i32)
    requires
        v == z || v == z - 0x1_0000_0000 || v == z + 0x1_0000_0000,
    ensures
        (v - z) % 0x1_0000_0000 == 0,
{
}

proof fn lemma_wrap64(z: int, v: i64)
    requires
        v == z || v == z - 0x1_0000_0000_0000_0000 || v == z + 0x1_0000_0000_0000_0000,
    ensures
        (v - z) % 0x1_0000_0000_0000_0000 == 0,
{
}

proof fn lemma_crop_congruent(p: int, r: int)
    requires
        r > 0,
    ensures
        ((p % r) - p) % r == 0,
        ((p % r) - r - p) % r == 0,
{
    vstd::arithmetic::div_mod::lemma_fundamental_div_mod(p, r);
    let k = p / r;
    assert((p % r) - p == (-k) * r) by (nonlinear_arith)
        requires
            p == r * k + p % r,
    ;
    vstd::arithmetic::div_mod::lemma_mod_multiples_basic(-k, r);
    assert((p % r) - r - p == (-k - 1) * r) by (nonlinear_arith)
        requires
            (p % r) - p == (-k) * r,
    ;
    vstd::arithmetic::div_mod::lemma_mod_multiples_basic(-k - 1, r);
}

/// Addition, subtraction and multiplication of `int`s wrap the exact result at 32 bits,
/// those of `long`s at 64 bits; the left operand is the one pushed first, so
/// subtracting `b` from the difference's sum with `b` gives back `a`.
pub proof fn law_wrapping_arithmetic(a: i64, b: i64)
    ensures
        gives_int(ArithOp::Iadd.result(a, b), (a as i32) + (b as i32)),
        gives_int(ArithOp::Isub.result(a, b), (a as i32) - (b as i32)),
        gives_int(ArithOp::Imul.result(a, b), (a as i32) * (b as i32)),
        gives_long(ArithOp::Ladd.result(a, b), a + b),
        gives_long(ArithOp::Lsub.result(a, b), a - b),
        gives_long(ArithOp::Lmul.result(a, b), a * b),
{
    let x = a as i32;
    let y = b as i32;
    lemma_wrap32(x + y, x.wrapping_add(y));
    lemma_wrap32(x - y, x.wrapping_sub(y));
    lemma_wrap64(a + b, a.wrapping_add(b));
    lemma_wrap64(a - b, a.wrapping_sub(b));
    lemma_crop_congruent(x * y, 0x1_0000_0000);
    lemma_crop_congruent(a * b, 0x1_0000_0000_0000_0000);
}

/// The quotient of `x` by `d` rounded toward zero, as the standard library computes it.
spec fn toward_zero_div(x: int, d: int) -> int {
    if x == 0 {
        0
    } else if x > 0 && d > 0 {
        x / d
    } else if x < 0 && d < 0 {
        (x * -1) / (d * -1)
    } else if x < 0 && d > 0 {
        ((x * -1) / d) * -1
    } else {
        (x / (d * -1)) * -1
    }
}

/// The remainder of `x` by `d` with the sign of `x`, as the standard library computes
/// it.
spec fn toward_zero_rem(x: int, d: int) -> int {
    if x == 0 {
        0
    } else if x > 0 && d > 0 {
        x % d
    } else if x < 0 && d < 0 {
        ((x * -1) % (d * -1)) * -1
    } else if x < 0 && d > 0 {
        ((x * -1) % d) * -1
    } else {
        x % (d * -1)
    }
}

proof fn lemma_truncating(x: int, d: int)
    requires
        d != 0,
    ensures
        truncating_division(x, d, toward_zero_div(x, d), toward_zero_rem(x, d)),
        d == 1 ==> toward_zero_div(x, d) == x,
        d == -1 ==> toward_zero_div(x, d) == -x,
        d >= 2 || d <= -2 ==> -x <= 2 * toward_zero_div(x, d) <= x || x <= 2 * toward_zero_div(x, d) <= -x,
{
    if d >= 2 || d <= -2 {
        let e = if d > 0 { d } else { -d };
        let y = if x > 0 { x } else { -x };
        assert(0 <= 2 * (y / e) <= y) by (nonlinear_arith)
            requires
                e >= 2,
                y >= 0,
        ;
    }
    if x > 0 && d > 0 {
        assert((x / d) * d + x % d == x && 0 <= x % d < d) by (nonlinear_arith)
            requires
                d > 0,
                x > 0,
        ;
    } else if x < 0 && d < 0 {
        assert(((x * -1) / (d * -1)) * d + ((x * -1) % (d * -1)) * -1 == x && 0 <= (x * -1) % (d * -1) < d * -1)
            by (nonlinear_arith)
            requires
                d < 0,
                x < 0,
        ;
    } else if x < 0 && d > 0 {
        assert((((x * -1) / d) * -1) * d + ((x * -1) % d) * -1 == x && 0 <= (x * -1) % d < d) by (nonlinear_arith)
            requires
                d > 0,
                x < 0,
        ;
    } else if x > 0 && d < 0 {
        assert(((x / (d * -1)) * -1) * d + x % (d * -1) == x && 0 <= x % (d * -1) < d * -1) by (nonlinear_arith)
            requires
                d < 0,
                x > 0,
        ;
    }
}

/// `int` division and remainder truncate toward zero: quotient and remainder fit
/// together with the remainder smaller than the divisor and signed as the dividend. A
/// zero divisor is an arithmetic fault; the least `int` divided by -1 wraps to itself.
pub proof fn law_int_division(a: i64, b: i64)
    ensures
        ({
            let x = a as i32;
            let y = b as i32;
            &&& y == 0 ==> ArithOp::Idiv.result(a, b) == Err::<RuntimeValue, ExecError>(ExecError::Arithmetic)
                && ArithOp::Irem.result(a, b) == Err::<RuntimeValue, ExecError>(ExecError::Arithmetic)
            &&& y != 0 && !(x == i32::MIN && y == -1) ==> gives_int(ArithOp::Idiv.result(a, b), value_of(ArithOp::Idiv.result(a, b)))
                && gives_int(ArithOp::Irem.result(a, b), value_of(ArithOp::Irem.result(a, b)))
                && truncating_division(x as int, y as int, value_of(ArithOp::Idiv.result(a, b)), value_of(ArithOp::Irem.result(a, b)))
            &&& x == i32::MIN && y == -1 ==> gives_int(ArithOp::Idiv.result(a, b), i32::MIN as int)
        }),
{
    let x = a as i32;
    let y = b as i32;
    if y != 0 {
        lemma_truncating(x as int, y as int);
    }
}

/// `long` division and remainder truncate toward zero, as for `int`s; a zero divisor is
/// an arithmetic fault and the least `long` divided by -1 wraps to itself.
pub proof fn law_long_division(a: i64, b: i64)
    ensures
        b == 0 ==> ArithOp::Ldiv.result(a, b) == Err::<RuntimeValue, ExecError>(ExecError::Arithmetic)
            && ArithOp::Lrem.result(a, b) == Err::<RuntimeValue, ExecError>(ExecError::Arithmetic),
        b != 0 && !(a == i64::MIN && b == -1) ==> gives_long(ArithOp::Ldiv.result(a, b), value_of(ArithOp::Ldiv.result(a, b)))
            && gives_long(ArithOp::Lrem.result(a, b), value_of(ArithOp::Lrem.result(a, b))) && truncating_division(
            a as int,
            b as int,
            value_of(ArithOp::Ldiv.result(a, b)),
            value_of(ArithOp::Lrem.result(a, b)),
        ),
        a == i64::MIN && b == -1 ==> gives_long(ArithOp::Ldiv.result(a, b), i64::MIN as int),
{
    if b != 0 {
        lemma_truncating(a as int, b as int);
    }
}

/// `lcmp` gives 1, 0 or -1 as the left `long` is greater than, equal to or less than
/// the right one.
pub proof fn law_long_compare(a: i64, b: i64)
    ensures
        gives_int(ArithOp::Lcompare.result(a, b), value_of(ArithOp::Lcompare.result(a, b))),
        value_of(ArithOp::Lcompare.result(a, b)) == 1 <==> a > b,
        value_of(ArithOp::Lcompare.result(a, b)) == 0 <==> a == b,
        value_of(ArithOp::Lcompare.result(a, b)) == -1 <==> a < b,
{
}

/// The bitwise operations combine the operands bit by bit: `and` keeps the bits both
/// have, `or` the bits either has, `xor` the bits exactly one has, so that `xor` with
/// the right operand again gives back the left one.
pub proof fn law_bitwise(a: i64, b: i64)
    ensures
        gives_int(ArithOp::Iand.result(a, b), ((a as i32) & (b as i32)) as int),
        gives_int(ArithOp::Ior.result(a, b), ((a as i32) | (b as i32)) as int),
        gives_int(ArithOp::Ixor.result(a, b), ((a as i32) ^ (b as i32)) as int),
        (value_of(ArithOp::Ixor.result(a, b)) as i32) ^ (b as i32) == a as i32,
        gives_long(ArithOp::Land.result(a, b), (a & b) as int),
        gives_long(ArithOp::Lor.result(a, b), (a | b) as int),
        gives_long(ArithOp::Lxor.result(a, b), (a ^ b) as int),
        (value_of(ArithOp::Lxor.result(a, b)) as i64) ^ b == a,
{
    let x = a as i32;
    let y = b as i32;
    assert((x ^ y) ^ y == x) by (bit_vector);
    assert((a ^ b) ^ b == a) by (bit_vector);
    assert(((x ^ y) as i64) as i32 == x ^ y);
}

/// The conditions of the branches are the orders of the integers: `Eq`/`Ne`, `Lt`/`Ge`
/// and `Gt`/`Le` are each other's negations, `Lt` and `Gt` are strict (false on equal
/// operands) and each is the other with the operands swapped.
pub proof fn law_comparisons(a: int, b: int)
    ensures
        Comparison::Eq.holds(a, b) <==> a == b,
        Comparison::Ne.holds(a, b) <==> a != b,
        Comparison::Lt.holds(a, b) <==> a < b,
        Comparison::Ge.holds(a, b) <==> a >= b,
        Comparison::Gt.holds(a, b) <==> a > b,
        Comparison::Le.holds(a, b) <==> a <= b,
        !Comparison::Gt.holds(a, a) && !Comparison::Lt.holds(a, a),
        Comparison::Gt.holds(a, b) == !Comparison::Le.holds(a, b),
        Comparison::Lt.holds(a, b) == !Comparison::Ge.holds(a, b),
        Comparison::Ne.holds(a, b) == !Comparison::Eq.holds(a, b),
        Comparison::Gt.holds(a, b) == Comparison::Lt.holds(b, a),
{
}

/// The integer operation that the code `s` starts with, when it decodes (at `pc`) to an
/// integer arithmetic instruction.
pub open spec fn decoded_arith(s: Seq<u8>, pc: i32) -> Option<ArithOp> {
    match spec_decode(s, pc) {
        Outcome::Done(OpcodeValue::Plain(o), _) => match plain_instruction(o) {
            Some(Instruction::IntArith(i)) => Some(i.op),
            _ => None,
        },
        _ => None,
    }
}

/// The comparison of the conditional branch that the code `s` starts with, when it
/// decodes (at `pc`) to one: whether it compares two `int`s (else one with zero), and
/// how.
pub open spec fn decoded_branch(s: Seq<u8>, pc: i32) -> Option<(bool, Comparison)> {
    match spec_decode(s, pc) {
        Outcome::Done(OpcodeValue::Plain(o), _) => match plain_instruction(o) {
            Some(Instruction::IfIntCompare(i)) => Some((true, i.cond)),
            Some(Instruction::IfZero(i)) => Some((false, i.cond)),
            _ => None,
        },
        _ => None,
    }
}

/// Each integer arithmetic opcode decodes to the operation it names: on any operands,
/// `iadd` (0x60) adds, `isub` (0x64) subtracts the right operand from the left, `imul`
/// (0x68) multiplies, `idiv` (0x6c) and `irem` (0x70) divide toward zero, and the
/// bitwise and `long` opcodes likewise.
pub proof fn law_decoded_arithmetic(rest: Seq<u8>, pc: i32, a: i64, b: i64)
    ensures
        ({
            let x = a as i32;
            let y = b as i32;
            let op = |c: u8| decoded_arith(seq![c] + rest, pc)->0;
            &&& decoded_arith(seq![0x60u8] + rest, pc) is Some && gives_int(op(0x60).result(a, b), x + y)
            &&& decoded_arith(seq![0x64u8] + rest, pc) is Some && gives_int(op(0x64).result(a, b), x - y)
            &&& decoded_arith(seq![0x68u8] + rest, pc) is Some && gives_int(op(0x68).result(a, b), x * y)
            &&& decoded_arith(seq![0x61u8] + rest, pc) is Some && gives_long(op(0x61).result(a, b), a + b)
            &&& decoded_arith(seq![0x65u8] + rest, pc) is Some && gives_long(op(0x65).result(a, b), a - b)
            &&& decoded_arith(seq![0x69u8] + rest, pc) is Some && gives_long(op(0x69).result(a, b), a * b)
            &&& decoded_arith(seq![0x7eu8] + rest, pc) is Some && gives_int(op(0x7e).result(a, b), (x & y) as int)
            &&& decoded_arith(seq![0x80u8] + rest, pc) is Some && gives_int(op(0x80).result(a, b), (x | y) as int)
            &&& decoded_arith(seq![0x82u8] + rest, pc) is Some && gives_int(op(0x82).result(a, b), (x ^ y) as int)
            &&& decoded_arith(seq![0x7fu8] + rest, pc) is Some && gives_long(op(0x7f).result(a, b), (a & b) as int)
            &&& decoded_arith(seq![0x81u8] + rest, pc) is Some && gives_long(op(0x81).result(a, b), (a | b) as int)
            &&& decoded_arith(seq![0x83u8] + rest, pc) is Some && gives_long(op(0x83).result(a, b), (a ^ b) as int)
            &&& decoded_arith(seq![0x6cu8] + rest, pc) is Some && decoded_arith(seq![0x70u8] + rest, pc) is Some
            &&& y != 0 && !(x == i32::MIN && y == -1) ==> truncating_division(
                x as int,
                y as int,
                value_of(op(0x6c).result(a, b)),
                value_of(op(0x70).result(a, b)),
            )
            &&& decoded_arith(seq![0x6du8] + rest, pc) is Some && decoded_arith(seq![0x71u8] + rest, pc) is Some
            &&& b != 0 && !(a == i64::MIN && b == -1) ==> truncating_division(
                a as int,
                b as int,
                value_of(op(0x6d).result(a, b)),
                value_of(op(0x71).result(a, b)),
            )
            &&& decoded_arith(seq![0x94u8] + rest, pc) is Some && (value_of(op(0x94).result(a, b)) == 1 <==> a > b)
                && (value_of(op(0x94).result(a, b)) == 0 <==> a == b) && (value_of(op(0x94).result(a, b)) == -1 <==> a < b)
        }),
{
    reveal(spec_decode);
    law_wrapping_arithmetic(a, b);
    law_bitwise(a, b);
    law_int_division(a, b);
    law_long_division(a, b);
    law_long_compare(a, b);
    assert((seq![0x60u8] + rest)[0] == 0x60u8);
    assert((seq![0x64u8] + rest)[0] == 0x64u8);
    assert((seq![0x68u8] + rest)[0] == 0x68u8);
    assert((seq![0x61u8] + rest)[0] == 0x61u8);
    assert((seq![0x65u8] + rest)[0] == 0x65u8);
    assert((seq![0x69u8] + rest)[0] == 0x69u8);
    assert((seq![0x7eu8] + rest)[0] == 0x7eu8);
    assert((seq![0x80u8] + rest)[0] == 0x80u8);
    assert((seq![0x82u8] + rest)[0] == 0x82u8);
    assert((seq![0x7fu8] + rest)[0] == 0x7fu8);
    assert((seq![0x81u8] + rest)[0] == 0x81u8);
    assert((seq![0x83u8] + rest)[0] == 0x83u8);
    assert((seq![0x6cu8] + rest)[0] == 0x6cu8);
    assert((seq![0x70u8] + rest)[0] == 0x70u8);
    assert((seq![0x6du8] + rest)[0] == 0x6du8);
    assert((seq![0x71u8] + rest)[0] == 0x71u8);
    assert((seq![0x94u8] + rest)[0] == 0x94u8);
}

/// Each conditional branch opcode decodes to the comparison it names: `ifeq` to `ifle`
/// (0x99 to 0x9e) compare one `int` with zero and `if_icmpeq` to `if_icmple` (0x9f to
/// 0xa4) compare two, the left one pushed first; `gt` is strictly greater, so equal
/// operands do not branch.
#[verifier::spinoff_prover]
#[verifier::rlimit(100)]
pub proof fn law_decoded_branches(rest: Seq<u8>, pc: i32, a: int, b: int)
    requires
        rest.len() >= 2,
    ensures
        ({
            let br = |c: u8| decoded_branch(seq![c] + rest, pc);
            &&& br(0x99) matches Some((false, c)) && (c.holds(a, 0) <==> a == 0)
            &&& br(0x9a) matches Some((false, c)) && (c.holds(a, 0) <==> a != 0)
            &&& br(0x9b) matches Some((false, c)) && (c.holds(a, 0) <==> a < 0)
            &&& br(0x9c) matches Some((false, c)) && (c.holds(a, 0) <==> a >= 0)
            &&& br(0x9d) matches Some((false, c)) && (c.holds(a, 0) <==> a > 0)
            &&& br(0x9e) matches Some((false, c)) && (c.holds(a, 0) <==> a <= 0)
            &&& br(0x9f) matches Some((true, c)) && (c.holds(a, b) <==> a == b)
            &&& br(0xa0) matches Some((true, c)) && (c.holds(a, b) <==> a != b)
            &&& br(0xa1) matches Some((true, c)) && (c.holds(a, b) <==> a < b)
            &&& br(0xa2) matches Some((true, c)) && (c.holds(a, b) <==> a >= b)
            &&& br(0xa3) matches Some((true, c)) && (c.holds(a, b) <==> a > b)
            &&& br(0xa4) matches Some((true, c)) && (c.holds(a, b) <==> a <= b)
        }),
{
    law_comparisons(a, b);
    law_comparisons(a, 0);
    assert(decoded_branch(seq![0x99u8] + rest, pc) == Some((false, Comparison::Eq))) by {
        reveal(spec_decode);
        assert((seq![0x99u8] + rest)[0] == 0x99u8 && (seq![0x99u8] + rest).skip(1) =~= rest);
    }
    assert(decoded_branch(seq![0x9au8] + rest, pc) == Some((false, Comparison::Ne))) by {
        reveal(spec_decode);
        assert((seq![0x9au8] + rest)[0] == 0x9au8 && (seq![0x9au8] + rest).skip(1) =~= rest);
    }
    assert(decoded_branch(seq![0x9bu8] + rest, pc) == Some((false, Comparison::Lt))) by {
        reveal(spec_decode);
        assert((seq![0x9bu8] + rest)[0] == 0x9bu8 && (seq![0x9bu8] + rest).skip(1) =~= rest);
    }
    assert(decoded_branch(seq![0x9cu8] + rest, pc) == Some((false, Comparison::Ge))) by {
        reveal(spec_decode);
        assert((seq![0x9cu8] + rest)[0] == 0x9cu8 && (seq![0x9cu8] + rest).skip(1) =~= rest);
    }
    assert(decoded_branch(seq![0x9du8] + rest, pc) == Some((false, Comparison::Gt))) by {
        reveal(spec_decode);
        assert((seq![0x9du8] + rest)[0] == 0x9du8 && (seq![0x9du8] + rest).skip(1) =~= rest);
    }
    assert(decoded_branch(seq![0x9eu8] + rest, pc) == Some((false, Comparison::Le))) by {
        reveal(spec_decode);
        assert((seq![0x9eu8] + rest)[0] == 0x9eu8 && (seq![0x9eu8] + rest).skip(1) =~= rest);
    }
    assert(decoded_branch(seq![0x9fu8] + rest, pc) == Some((true, Comparison::Eq))) by {
        reveal(spec_decode);
        assert((seq![0x9fu8] + rest)[0] == 0x9fu8 && (seq![0x9fu8] + rest).skip(1) =~= rest);
    }
    assert(decoded_branch(seq![0xa0u8] + rest, pc) == Some((true, Comparison::Ne))) by {
        reveal(spec_decode);
        assert((seq![0xa0u8] + rest)[0] == 0xa0u8 && (seq![0xa0u8] + rest).skip(1) =~= rest);
    }
    assert(decoded_branch(seq![0xa1u8] + rest, pc) == Some((true, Comparison::Lt))) by {
        reveal(spec_decode);
        assert((seq![0xa1u8] + rest)[0] == 0xa1u8 && (seq![0xa1u8] + rest).skip(1) =~= rest);
    }
    assert(decoded_branch(seq![0xa2u8] + rest, pc) == Some((true, Comparison::Ge))) by {
        reveal(spec_decode);
        assert((seq![0xa2u8] + rest)[0] == 0xa2u8 && (seq![0xa2u8] + rest).skip(1) =~= rest);
    }
    assert(decoded_branch(seq![0xa3u8] + rest, pc) == Some((true, Comparison::Gt))) by {
        reveal(spec_decode);
        assert((seq![0xa3u8] + rest)[0] == 0xa3u8 && (seq![0xa3u8] + rest).skip(1) =~= rest);
    }
    assert(decoded_branch(seq![0xa4u8] + rest, pc) == Some((true, Comparison::Le))) by {
        reveal(spec_decode);
        assert((seq![0xa4u8] + rest)[0] == 0xa4u8 && (seq![0xa4u8] + rest).skip(1) =~= rest);
    }
}

/// Class `s` is reached from class `c` by `n` steps up the chain of superclasses.
pub open spec fn superclass_at(classes: Seq<LoadedClass>, c: int, s: int, n: nat) -> bool
    decreases n,
{
    &&& 0 <= c < classes.len()
    &&& if n == 0 {
        s == c
    } else {
        classes[c].super_class matches Some(p) && superclass_at(classes, p as int, s, (n - 1) as nat)
    }
}

/// The exception table entry `e` covers the instruction at `pc`.
pub open spec fn covers(e: ExceptionEntry, pc: i32) -> bool {
    e.start_pc <= (pc as u16) && (pc as u16) < e.end_pc
}

/// The entry `e` catches an exception of class `thrown`: it catches everything, or it
/// names `thrown` or a class up its superclass chain.
pub open spec fn entry_catches(classes: Seq<LoadedClass>, pool: Seq<EntryValue>, e: ExceptionEntry, thrown: int) -> bool {
    ||| e.catch_type.spec_index() == 0
    ||| exists|s: int, n: nat|
        #![trigger superclass_at(classes, thrown, s, n)]
        superclass_at(classes, thrown, s, n) && class_name_at(pool, e.catch_type.spec_index()) == Some(classes[s].name@)
}

proof fn lemma_superclass_named(classes: Seq<LoadedClass>, c: int, s: int, n: nat)
    requires
        table_wf(classes),
        superclass_at(classes, c, s, n),
    ensures
        is_subclass_of(classes, c, classes[s].name@),
        0 <= s < classes.len(),
    decreases n,
{
    if n > 0 {
        let p = classes[c].super_class->0 as int;
        assert(p < c);
        lemma_superclass_named(classes, p, s, (n - 1) as nat);
    }
}

proof fn lemma_named_superclass(classes: Seq<LoadedClass>, c: int, name: Seq<char>)
    requires
        table_wf(classes),
        is_subclass_of(classes, c, name),
    ensures
        exists|s: int, n: nat| #![trigger superclass_at(classes, c, s, n)] superclass_at(classes, c, s, n) && classes[s].name@ == name,
    decreases c,
{
    if classes[c].name@ == name {
        assert(superclass_at(classes, c, c, 0));
    } else {
        let p = classes[c].super_class->0 as int;
        lemma_named_superclass(classes, p, name);
        let (s, n) = choose|s: int, n: nat| #![trigger superclass_at(classes, p, s, n)] superclass_at(classes, p, s, n)
            && classes[s].name@ == name;
        assert(superclass_at(classes, c, s, n + 1));
    }
}

proof fn lemma_handler_found(
    classes: Seq<LoadedClass>,
    pool: Seq<EntryValue>,
    entries: Seq<ExceptionEntry>,
    pc: i32,
    thrown: int,
    s: int,
    n: nat,
    k: int,
    i: int,
)
    requires
        table_wf(classes),
        superclass_at(classes, thrown, s, n),
        0 <= i <= k < entries.len(),
        covers(entries[k], pc),
        class_name_at(pool, entries[k].catch_type.spec_index()) == Some(classes[s].name@),
    ensures
        handler_from(classes, pool, entries, pc, thrown, i) matches Some(h) && exists|j: int|
            i <= j <= k && covers(entries[j], pc) && #[trigger] entries[j].handler_pc == h,
    decreases k - i,
{
    lemma_superclass_named(classes, thrown, s, n);
    let e = entries[i];
    if covers(e, pc) && (e.catch_type.spec_index() == 0 || (class_name_at(pool, e.catch_type.spec_index()) matches Some(m)
        && is_subclass_of(classes, thrown, m))) {
        assert(entries[i].handler_pc == e.handler_pc);
    } else {
        lemma_handler_found(classes, pool, entries, pc, thrown, s, n, k, i + 1);
        let h = handler_from(classes, pool, entries, pc, thrown, i + 1)->0;
        let j = choose|j: int| i + 1 <= j <= k && covers(entries[j], pc) && #[trigger] entries[j].handler_pc == h;
        assert(i <= j <= k && covers(entries[j], pc) && entries[j].handler_pc == h);
    }
}

proof fn lemma_handler_catches(
    classes: Seq<LoadedClass>,
    pool: Seq<EntryValue>,
    entries: Seq<ExceptionEntry>,
    pc: i32,
    thrown: int,
    i: int,
)
    requires
        table_wf(classes),
        handler_from(classes, pool, entries, pc, thrown, i) is Some,
    ensures
        exists|j: int|
            0 <= i <= j < entries.len() && covers(entries[j], pc) && entry_catches(classes, pool, entries[j], thrown)
                && #[trigger] entries[j].handler_pc == handler_from(classes, pool, entries, pc, thrown, i)->0,
    decreases entries.len() - i,
{
    let e = entries[i];
    if covers(e, pc) && (e.catch_type.spec_index() == 0 || (class_name_at(pool, e.catch_type.spec_index()) matches Some(m)
        && is_subclass_of(classes, thrown, m))) {
        if e.catch_type.spec_index() != 0 {
            let m = class_name_at(pool, e.catch_type.spec_index())->0;
            lemma_named_superclass(classes, thrown, m);
        }
        assert(entries[i].handler_pc == e.handler_pc);
    } else {
        lemma_handler_catches(classes, pool, entries, pc, thrown, i + 1);
    }
}

/// An exception is caught by a handler whose entry names its class or any superclass
/// of it (`superclass_at`), not only by one that names the class itself: when entry
/// `k` covers the instruction and names a class up the chain from the thrown one, the
/// search finds a handler, that of `k` or of an earlier entry covering the instruction.
pub proof fn law_handler_catches_superclass(
    classes: Seq<LoadedClass>,
    pool: Seq<EntryValue>,
    entries: Seq<ExceptionEntry>,
    pc: i32,
    thrown: int,
    s: int,
    n: nat,
    k: int,
)
    requires
        table_wf(classes),
        superclass_at(classes, thrown, s, n),
        0 <= k < entries.len(),
        covers(entries[k], pc),
        class_name_at(pool, entries[k].catch_type.spec_index()) == Some(classes[s].name@),
    ensures
        handler_from(classes, pool, entries, pc, thrown, 0) matches Some(h) && exists|j: int|
            0 <= j <= k && covers(entries[j], pc) && #[trigger] entries[j].handler_pc == h,
{
    lemma_handler_found(classes, pool, entries, pc, thrown, s, n, k, 0);
}

/// A handler is only found for an entry that covers the instruction and catches the
/// exception (`entry_catches`): one that catches everything, or names the thrown class
/// or a class up its chain of superclasses.
pub proof fn law_handler_is_an_entry_that_catches(
    classes: Seq<LoadedClass>,
    pool: Seq<EntryValue>,
    entries: Seq<ExceptionEntry>,
    pc: i32,
    thrown: int,
    h: u16,
)
    requires
        table_wf(classes),
        handler_from(classes, pool, entries, pc, thrown, 0) == Some(h),
    ensures
        exists|j: int|
            0 <= j < entries.len() && covers(entries[j], pc) && entry_catches(classes, pool, entries[j], thrown)
                && #[trigger] entries[j].handler_pc == h,
{
    lemma_handler_catches(classes, pool, entries, pc, thrown, 0);
}

/// A field of each primitive type is laid out at the width of that type in Java,
/// aligned to that width: `byte` one byte, `char` and `short` two, `int`, `float` and
/// `boolean` (held as an `int`) four, `long` and `double` eight; the rest of the
/// descriptor and the layout of a reference do not matter.
pub proof fn law_primitive_field_widths(rest: Seq<char>, word: Layout)
    ensures
        field_layout(seq!['B'] + rest, word) == Some(Layout { size: 1, align: 1 }),
        field_layout(seq!['C'] + rest, word) == Some(Layout { size: 2, align: 2 }),
        field_layout(seq!['S'] + rest, word) == Some(Layout { size: 2, align: 2 }),
        field_layout(seq!['I'] + rest, word) == Some(Layout { size: 4, align: 4 }),
        field_layout(seq!['F'] + rest, word) == Some(Layout { size: 4, align: 4 }),
        field_layout(seq!['Z'] + rest, word) == Some(Layout { size: 4, align: 4 }),
        field_layout(seq!['J'] + rest, word) == Some(Layout { size: 8, align: 8 }),
        field_layout(seq!['D'] + rest, word) == Some(Layout { size: 8, align: 8 }),
        field_layout(seq!['L'] + rest, word) == Some(word),
{
    assert((seq!['B'] + rest)[0] == 'B');
    assert((seq!['C'] + rest)[0] == 'C');
    assert((seq!['S'] + rest)[0] == 'S');
    assert((seq!['I'] + rest)[0] == 'I');
    assert((seq!['F'] + rest)[0] == 'F');
    assert((seq!['Z'] + rest)[0] == 'Z');
    assert((seq!['J'] + rest)[0] == 'J');
    assert((seq!['D'] + rest)[0] == 'D');
    assert((seq!['L'] + rest)[0] == 'L');
}

/// A descriptor of a primitive type or of an object.
pub open spec fn plain_field_type(d: Seq<char>) -> bool {
    d.len() > 0 && (d[0] == 'B' || d[0] == 'C' || d[0] == 'S' || d[0] == 'I' || d[0] == 'F' || d[0] == 'Z' || d[0]
        == 'J' || d[0] == 'D' || d[0] == 'L')
}

/// A class whose instance fields all have names and descriptors of primitive types or
/// objects gets a layout for each of those fields: none of them is refused.
pub proof fn law_plain_fields_lay_out(pool: Seq<EntryValue>, fields: Seq<FieldValue>, word: Layout, i: int)
    requires
        forall|j: int|
            i <= j < fields.len() && !is_static_field(#[trigger] fields[j]) ==> text_at(pool, fields[j].name.spec_index()) is Some
                && text_at(pool, fields[j].descriptor.spec_index()) is Some && plain_field_type(
                text_at(pool, fields[j].descriptor.spec_index())->0,
            ),
    ensures
        instances_from(pool, fields, word, i) is Some,
    decreases fields.len() - i,
{
    if 0 <= i < fields.len() {
        law_plain_fields_lay_out(pool, fields, word, i + 1);
        if !is_static_field(fields[i]) {
            let d = text_at(pool, fields[i].descriptor.spec_index())->0;
            law_primitive_field_widths(d.skip(1), word);
            assert(d =~= seq![d[0]] + d.skip(1));
        }
    } else if i < 0 {
    }
}

/// The logical right shifts divide the operand, read as an unsigned number, by the
/// power of two of the distance: `iushr` for distances below 32, `lushr` below 64;
/// farther is a fault.
pub proof fn law_unsigned_shifts(a: i64, b: i64)
    ensures
        (b as u32) < 32 ==> ArithOp::Iushr.result(a, b) is Ok && (value_of(ArithOp::Iushr.result(a, b)) as i32 as u32) as nat
            == (a as u32) as nat / pow2((b as u32) as nat),
        (b as u32) >= 32 ==> ArithOp::Iushr.result(a, b) == Err::<RuntimeValue, ExecError>(ExecError::ShiftTooFar),
        (b as u64) < 64 ==> ArithOp::Lushr.result(a, b) is Ok && (value_of(ArithOp::Lushr.result(a, b)) as i64 as u64) as nat
            == (a as u64) as nat / pow2((b as u64) as nat),
        (b as u64) >= 64 ==> ArithOp::Lushr.result(a, b) == Err::<RuntimeValue, ExecError>(ExecError::ShiftTooFar),
{
    let u = a as u32;
    let s = b as u32;
    if s < 32 {
        vstd::bits::lemma_u32_shr_is_div(u, s);
        let q = u >> s;
        assert((q as i32) as u32 == q) by (bit_vector);
        assert(((q as i32) as i64) as i32 == q as i32);
    }
    let w = a as u64;
    let t = b as u64;
    if t < 64 {
        vstd::bits::lemma_u64_shr_is_div(w, t);
        let q = w >> t;
        assert((q as i64) as u64 == q) by (bit_vector);
    }
}

/// The unary operations: `ineg` and `lneg` negate with wrapping (`lneg` pushes its
/// result in both slots of the `long`), `i2l` widens exactly, `l2i` keeps the low 32
/// bits, `i2b` the low 8 bits and `i2s` and `i2c` the low 16 bits, each read as a
/// signed number of that width.
pub proof fn law_unary(a: i64)
    ensures
        ({
            let x = a as i32;
            &&& UnaryOp::Ineg.results(a).len() == 1 && gives_int(Ok(UnaryOp::Ineg.results(a)[0]), -x)
            &&& UnaryOp::Lneg.results(a).len() == 2 && gives_long(Ok(UnaryOp::Lneg.results(a)[0]), -a)
                && UnaryOp::Lneg.results(a)[1] == UnaryOp::Lneg.results(a)[0]
            &&& UnaryOp::I2l.results(a) == seq![RuntimeValue::Integral(crate::numeric::Integral { value: x as i64, ty: IntegralType::Long })]
            &&& UnaryOp::L2i.results(a).len() == 1 && gives_int(Ok(UnaryOp::L2i.results(a)[0]), UnaryOp::L2i.results(a)[0].integral_value() as int)
                && UnaryOp::L2i.results(a)[0].integral_value() & 0xffff_ffff == a & 0xffff_ffff
            &&& UnaryOp::I2b.results(a).len() == 1 && -128 <= UnaryOp::I2b.results(a)[0].integral_value() <= 127
                && UnaryOp::I2b.results(a)[0].integral_value() & 0xff == a & 0xff
            &&& UnaryOp::I2s.results(a).len() == 1 && -32768 <= UnaryOp::I2s.results(a)[0].integral_value() <= 32767
                && UnaryOp::I2s.results(a)[0].integral_value() & 0xffff == a & 0xffff
            &&& UnaryOp::I2c.results(a).len() == 1 && -32768 <= UnaryOp::I2c.results(a)[0].integral_value() <= 32767
                && UnaryOp::I2c.results(a)[0].integral_value() & 0xffff == a & 0xffff
        }),
{
    let x = a as i32;
    lemma_wrap32(0 - x, 0i32.wrapping_sub(x));
    lemma_wrap64(0 - a, 0i64.wrapping_sub(a));
    assert(((a as i32) as i64) & 0xffff_ffff == a & 0xffff_ffff) by (bit_vector);
    assert(((a as i8) as i32) as i64 & 0xff == a & 0xff) by (bit_vector);
    assert(((a as i16) as i32) as i64 & 0xffff == a & 0xffff) by (bit_vector);
}

/// Shifting by one: `ishl` and `lshl` double with wrapping, `ishr` and `lshr` halve
/// rounding down; and a shift reads only the low five (for `int`s) or six (for
/// `long`s) bits of its distance.
pub proof fn law_shifts(a: i64, b: i64)
    ensures
        gives_int(ArithOp::Ishl.result(a, 1), 2 * (a as i32)),
        gives_long(ArithOp::Lshl.result(a, 1), 2 * a),
        ArithOp::Ishr.result(a, 1) is Ok && 2 * value_of(ArithOp::Ishr.result(a, 1)) <= (a as i32) < 2 * value_of(
            ArithOp::Ishr.result(a, 1),
        ) + 2,
        ArithOp::Lshr.result(a, 1) is Ok && 2 * value_of(ArithOp::Lshr.result(a, 1)) <= a < 2 * value_of(
            ArithOp::Lshr.result(a, 1),
        ) + 2,
        ArithOp::Ishl.result(a, b) == ArithOp::Ishl.result(a, b & 31),
        ArithOp::Ishr.result(a, b) == ArithOp::Ishr.result(a, b & 31),
        ArithOp::Lshl.result(a, b) == ArithOp::Lshl.result(a, b & 63),
        ArithOp::Lshr.result(a, b) == ArithOp::Lshr.result(a, b & 63),
{
    let x = a as i32;
    assert(((1i64 as u32) % 32) == 1u32) by (bit_vector);
    assert(((1i64 as u32) % 64) == 1u32) by (bit_vector);
    assert(x << 1u32 == x.wrapping_mul(2)) by (bit_vector);
    assert(a << 1u32 == a.wrapping_mul(2)) by (bit_vector);
    lemma_crop_congruent(x * 2, 0x1_0000_0000);
    lemma_crop_congruent(a * 2, 0x1_0000_0000_0000_0000);
    assert(2 * ((x >> 1u32) as i64) <= x as i64 && (x as i64) < 2 * ((x >> 1u32) as i64) + 2) by (bit_vector);
    assert(2 * ((a >> 1u32) as i128) <= a as i128 && (a as i128) < 2 * ((a >> 1u32) as i128) + 2) by (bit_vector);
    assert((b as u32) % 32 == ((b & 31) as u32) % 32) by (bit_vector);
    assert((b as u32) % 64 == ((b & 63) as u32) % 64) by (bit_vector);
}

/// The unary operation that the code `s` starts with, when it decodes (at `pc`) to an
/// integer unary instruction.
pub open spec fn decoded_unary(s: Seq<u8>, pc: i32) -> Option<UnaryOp> {
    match spec_decode(s, pc) {
        Outcome::Done(OpcodeValue::Plain(o), _) => match plain_instruction(o) {
            Some(Instruction::IntUnary(i)) => Some(i.op),
            _ => None,
        },
        _ => None,
    }
}

/// Each shift and unary opcode decodes to the operation it names: `ishl` (0x78) and
/// `lshl` (0x79) double when shifting by one, `ishr` (0x7a) and `lshr` (0x7b) halve,
/// `iushr` (0x7c) and `lushr` (0x7d) divide the unsigned operand by a power of two;
/// `ineg` (0x74) and `lneg` (0x75) negate, `i2l` (0x85) widens, `l2i` (0x88), `i2b`
/// (0x91), `i2c` (0x92) and `i2s` (0x93) keep the low 32, 8, 16 and 16 bits.
#[verifier::spinoff_prover]
#[verifier::rlimit(100)]
pub proof fn law_decoded_shifts_and_unary(rest: Seq<u8>, pc: i32, a: i64, b: i64)
    ensures
        ({
            let x = a as i32;
            let op = |c: u8| decoded_arith(seq![c] + rest, pc)->0;
            let un = |c: u8| decoded_unary(seq![c] + rest, pc)->0;
            &&& decoded_arith(seq![0x78u8] + rest, pc) is Some && gives_int(op(0x78).result(a, 1), 2 * x)
            &&& decoded_arith(seq![0x79u8] + rest, pc) is Some && gives_long(op(0x79).result(a, 1), 2 * a)
            &&& decoded_arith(seq![0x7au8] + rest, pc) is Some && 2 * value_of(op(0x7a).result(a, 1)) <= x < 2 * value_of(
                op(0x7a).result(a, 1),
            ) + 2
            &&& decoded_arith(seq![0x7bu8] + rest, pc) is Some && 2 * value_of(op(0x7b).result(a, 1)) <= a < 2 * value_of(
                op(0x7b).result(a, 1),
            ) + 2
            &&& decoded_arith(seq![0x7cu8] + rest, pc) is Some && ((b as u32) < 32 ==> (value_of(op(0x7c).result(a, b)) as i32
                as u32) as nat == (a as u32) as nat / pow2((b as u32) as nat))
            &&& decoded_arith(seq![0x7du8] + rest, pc) is Some && ((b as u64) < 64 ==> (value_of(op(0x7d).result(a, b)) as i64
                as u64) as nat == (a as u64) as nat / pow2((b as u64) as nat))
            &&& decoded_unary(seq![0x74u8] + rest, pc) is Some && un(0x74).results(a).len() == 1 && gives_int(
                Ok(un(0x74).results(a)[0]),
                -x,
            )
            &&& decoded_unary(seq![0x75u8] + rest, pc) is Some && un(0x75).results(a).len() == 2 && gives_long(
                Ok(un(0x75).results(a)[0]),
                -a,
            )
            &&& decoded_unary(seq![0x85u8] + rest, pc) is Some && un(0x85).results(a) == seq![
                RuntimeValue::Integral(crate::numeric::Integral { value: x as i64, ty: IntegralType::Long }),
            ]
            &&& decoded_unary(seq![0x88u8] + rest, pc) is Some && un(0x88).results(a).len() == 1 && un(0x88).results(a)[0].is_int()
                && un(0x88).results(a)[0].integral_value() & 0xffff_ffff == a & 0xffff_ffff
            &&& decoded_unary(seq![0x91u8] + rest, pc) is Some && un(0x91).results(a).len() == 1 && -128 <= un(0x91).results(
                a,
            )[0].integral_value() <= 127 && un(0x91).results(a)[0].integral_value() & 0xff == a & 0xff
            &&& decoded_unary(seq![0x92u8] + rest, pc) is Some && un(0x92).results(a).len() == 1 && un(0x92).results(
                a,
            )[0].integral_value() & 0xffff == a & 0xffff
            &&& decoded_unary(seq![0x93u8] + rest, pc) is Some && un(0x93).results(a).len() == 1 && -32768 <= un(0x93).results(
                a,
            )[0].integral_value() <= 32767 && un(0x93).results(a)[0].integral_value() & 0xffff == a & 0xffff
        }),
{
    law_shifts(a, b);
    law_unsigned_shifts(a, b);
    law_unary(a);
    assert(decoded_arith(seq![0x78u8] + rest, pc) == Some(ArithOp::Ishl)) by {
        reveal(spec_decode);
        assert((seq![0x78u8] + rest)[0] == 0x78u8);
    }
    assert(decoded_arith(seq![0x79u8] + rest, pc) == Some(ArithOp::Lshl)) by {
        reveal(spec_decode);
        assert((seq![0x79u8] + rest)[0] == 0x79u8);
    }
    assert(decoded_arith(seq![0x7au8] + rest, pc) == Some(ArithOp::Ishr)) by {
        reveal(spec_decode);
        assert((seq![0x7au8] + rest)[0] == 0x7au8);
    }
    assert(decoded_arith(seq![0x7bu8] + rest, pc) == Some(ArithOp::Lshr)) by {
        reveal(spec_decode);
        assert((seq![0x7bu8] + rest)[0] == 0x7bu8);
    }
    assert(decoded_arith(seq![0x7cu8] + rest, pc) == Some(ArithOp::Iushr)) by {
        reveal(spec_decode);
        assert((seq![0x7cu8] + rest)[0] == 0x7cu8);
    }
    assert(decoded_arith(seq![0x7du8] + rest, pc) == Some(ArithOp::Lushr)) by {
        reveal(spec_decode);
        assert((seq![0x7du8] + rest)[0] == 0x7du8);
    }
    assert(decoded_unary(seq![0x74u8] + rest, pc) == Some(UnaryOp::Ineg)) by {
        reveal(spec_decode);
        assert((seq![0x74u8] + rest)[0] == 0x74u8);
    }
    assert(decoded_unary(seq![0x75u8] + rest, pc) == Some(UnaryOp::Lneg)) by {
        reveal(spec_decode);
        assert((seq![0x75u8] + rest)[0] == 0x75u8);
    }
    assert(decoded_unary(seq![0x85u8] + rest, pc) == Some(UnaryOp::I2l)) by {
        reveal(spec_decode);
        assert((seq![0x85u8] + rest)[0] == 0x85u8);
    }
    assert(decoded_unary(seq![0x88u8] + rest, pc) == Some(UnaryOp::L2i)) by {
        reveal(spec_decode);
        assert((seq![0x88u8] + rest)[0] == 0x88u8);
    }
    assert(decoded_unary(seq![0x91u8] + rest, pc) == Some(UnaryOp::I2b)) by {
        reveal(spec_decode);
        assert((seq![0x91u8] + rest)[0] == 0x91u8);
    }
    assert(decoded_unary(seq![0x92u8] + rest, pc) == Some(UnaryOp::I2c)) by {
        reveal(spec_decode);
        assert((seq![0x92u8] + rest)[0] == 0x92u8);
    }
    assert(decoded_unary(seq![0x93u8] + rest, pc) == Some(UnaryOp::I2s)) by {
        reveal(spec_decode);
        assert((seq![0x93u8] + rest)[0] == 0x93u8);
    }
}

} // verus!
