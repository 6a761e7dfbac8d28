//! Rendering values as text: the formatting rules of the native print
//! functions, and the space-separated joining of their arguments.

use vstd::prelude::*;

verus! {

use crate::strutil::push_char;
use crate::value::{Value, AbsValue, value_view, vals_view};
use vstd::string::StringExecFns;

/// The decimal digit character for `d`.
pub open spec fn digit_char(d: int) -> char {
    if d == 0 {
        '0'
    } else if d == 1 {
        '1'
    } else if d == 2 {
        '2'
    } else if d == 3 {
        '3'
    } else if d == 4 {
        '4'
    } else if d == 5 {
        '5'
    } else if d == 6 {
        '6'
    } else if d == 7 {
        '7'
    } else if d == 8 {
        '8'
    } else {
        '9'
    }
}

/// The decimal digits of a non-negative integer, most significant first.
pub open spec fn dec_digits(n: int) -> Seq<char>
    decreases n,
{
    if n < 10 {
        seq![digit_char(n)]
    } else {
        dec_digits(n / 10).push(digit_char(n % 10))
    }
}

/// The decimal rendering of an integer, with a leading minus sign when
/// negative.
pub open spec fn int_dec(n: int) -> Seq<char> {
    if n < 0 {
        seq!['-'] + dec_digits(-n)
    } else {
        dec_digits(n)
    }
}

/// How a single value renders: integers in decimal, strings and characters
/// as themselves, booleans as `true`/`false`, objects as `[object]`, and
/// `Nil` as `nil`.
pub open spec fn fmt_abs(v: AbsValue) -> Seq<char> {
    match v {
        AbsValue::Int(n) => int_dec(n),
        AbsValue::Str(s) => s,
        AbsValue::Char(c) => seq![c],
        AbsValue::Bool(b) => if b {
            seq!['t', 'r', 'u', 'e']
        } else {
            seq!['f', 'a', 'l', 's', 'e']
        },
        AbsValue::Obj(_) => seq!['[', 'o', 'b', 'j', 'e', 'c', 't', ']'],
        AbsValue::Nil => seq!['n', 'i', 'l'],
    }
}

/// The rendering of an argument list: each value rendered, joined with a
/// single space.
pub open spec fn join_abs(vals: Seq<AbsValue>) -> Seq<char>
    decreases vals.len(),
{
    if vals.len() == 0 {
        Seq::empty()
    } else if vals.len() == 1 {
        fmt_abs(vals[0])
    } else {
        join_abs(vals.drop_last()) + seq![' '] + fmt_abs(vals.last())
    }
}

/// The digit character for `d`, executably.
fn digit_char_exec(d: u64) -> (c: char)
    requires
        d < 10,
    ensures
        c == digit_char(d as int),
{
    if d == 0 {
        '0'
    } else if d == 1 {
        '1'
    } else if d == 2 {
        '2'
    } else if d == 3 {
        '3'
    } else if d == 4 {
        '4'
    } else if d == 5 {
        '5'
    } else if d == 6 {
        '6'
    } else if d == 7 {
        '7'
    } else if d == 8 {
        '8'
    } else {
        '9'
    }
}

/// Appends the decimal digits of `n` to `out`.
fn push_u64_digits(n: u64, out: &mut String)
    ensures
        final(out)@ == old(out)@ + dec_digits(n as int),
    decreases n,
{
    if n < 10 {
        push_char(out, digit_char_exec(n));
        proof {
            assert(old(out)@.push(digit_char(n as int)) =~= old(out)@ + dec_digits(n as int));
        }
    } else {
        push_u64_digits(n / 10, out);
        push_char(out, digit_char_exec(n % 10));
        proof {
            assert(old(out)@ + dec_digits((n / 10) as int).push(digit_char((n % 10) as int)) =~= old(
                out,
            )@ + dec_digits(n as int));
        }
    }
}

/// Appends the decimal rendering of a signed integer to `out`.
fn push_i64(n: i64, out: &mut String)
    ensures
        final(out)@ == old(out)@ + int_dec(n as int),
{
    if n < 0 {
        push_char(out, '-');
        let mag: u64 = if n == i64::MIN {
            0x8000_0000_0000_0000u64
        } else {
            (-n) as u64
        };
        proof {
            assert(mag as int == -(n as int));
        }
        push_u64_digits(mag, out);
        proof {
            assert(old(out)@.push('-') + dec_digits(mag as int) =~= old(out)@ + int_dec(n as int));
        }
    } else {
        push_u64_digits(n as u64, out);
    }
}

/// Appends the rendering of one value to `out`.
pub fn push_value(v: &Value, out: &mut String)
    ensures
        final(out)@ == old(out)@ + fmt_abs(value_view(*v)),
{
    match v {
        Value::IntLiteral(n) => push_i64(*n, out),
        Value::StringLiteral(s) => out.append(s.as_str()),
        Value::CharLiteral(c) => {
            push_char(out, *c);
            proof {
                assert(old(out)@.push(*c) =~= old(out)@ + seq![*c]);
            }
        },
        Value::BoolLiteral(b) => {
            if *b {
                out.append("true");
                proof {
                    reveal_strlit("true");
                    assert("true"@ =~= seq!['t', 'r', 'u', 'e']);
                }
            } else {
                out.append("false");
                proof {
                    reveal_strlit("false");
                    assert("false"@ =~= seq!['f', 'a', 'l', 's', 'e']);
                }
            }
        },
        Value::Object(_) => {
            out.append("[object]");
            proof {
                reveal_strlit("[object]");
                assert("[object]"@ =~= seq!['[', 'o', 'b', 'j', 'e', 'c', 't', ']']);
            }
        },
        Value::Nil => {
            out.append("nil");
            proof {
                reveal_strlit("nil");
                assert("nil"@ =~= seq!['n', 'i', 'l']);
            }
        },
    }
}

/// Renders an argument list, joined with single spaces: what the native
/// print functions write and return.
pub fn join_values(args: &Vec<Value>) -> (r: String)
    ensures
        r@ == join_abs(vals_view(args@)),
{
    let mut out = String::new();
    let mut i: usize = 0;
    proof {
        assert(vals_view(args@.take(0)) =~= Seq::<AbsValue>::empty());
    }
    while i < args.len()
        invariant
            i <= args@.len(),
            out@ == join_abs(vals_view(args@.take(i as int))),
        decreases args@.len() - i,
    {
        if i > 0 {
            push_char(&mut out, ' ');
        }
        push_value(&args[i], &mut out);
        proof {
            let prev = vals_view(args@.take(i as int));
            let cur = vals_view(args@.take(i as int + 1));
            assert(cur.drop_last() =~= prev);
            assert(cur.last() == value_view(args@[i as int]));
            if i == 0 {
                assert(out@ =~= join_abs(cur));
            } else {
                assert(out@ =~= join_abs(prev) + seq![' '] + fmt_abs(cur.last()));
                assert(out@ =~= join_abs(cur));
            }
        }
        i = i + 1;
    }
    proof {
        assert(args@.take(args@.len() as int) =~= args@);
    }
    out
}

} // verus!
