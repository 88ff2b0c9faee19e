//! Text produced by the evaluator: operator symbols, messages, and the
//! ordering of strings.
use vstd::prelude::*;
use vstd::string::StringExecFns;

use crate::ast::{BinaryOp, UnaryOp};

verus! {

pub open spec fn binary_symbol(op: BinaryOp) -> Seq<char> {
    match op {
        BinaryOp::EQ => seq!['=', '='],
        BinaryOp::NE => seq!['!', '='],
        BinaryOp::GT => seq!['>'],
        BinaryOp::LT => seq!['<'],
        BinaryOp::GE => seq!['>', '='],
        BinaryOp::LE => seq!['<', '='],
        BinaryOp::Sum => seq!['+'],
        BinaryOp::Sub => seq!['-'],
        BinaryOp::Mul => seq!['*'],
        BinaryOp::Div => seq!['/'],
        BinaryOp::Pow => seq!['^'],
        BinaryOp::Mod => seq!['%'],
        BinaryOp::And => seq!['&', '&'],
        BinaryOp::Or => seq!['|', '|'],
        BinaryOp::Concat => seq!['+', '+'],
    }
}

pub open spec fn unary_symbol(op: UnaryOp) -> Seq<char> {
    match op {
        UnaryOp::Minus => seq!['-'],
        UnaryOp::Not => seq!['!'],
    }
}

pub(crate) fn owned(s: &str) -> (r: String)
    ensures
        r@ == s@,
{
    s.to_string()
}

/// The symbol of `op` as written in source text.
pub fn binary_symbol_text(op: BinaryOp) -> (r: String)
    ensures
        r@ == binary_symbol(op),
{
    match op {
        BinaryOp::EQ => {
            proof {
                reveal_strlit("==");
            }
            owned("==")
        },
        BinaryOp::NE => {
            proof {
                reveal_strlit("!=");
            }
            owned("!=")
        },
        BinaryOp::GT => {
            proof {
                reveal_strlit(">");
            }
            owned(">")
        },
        BinaryOp::LT => {
            proof {
                reveal_strlit("<");
            }
            owned("<")
        },
        BinaryOp::GE => {
            proof {
                reveal_strlit(">=");
            }
            owned(">=")
        },
        BinaryOp::LE => {
            proof {
                reveal_strlit("<=");
            }
            owned("<=")
        },
        BinaryOp::Sum => {
            proof {
                reveal_strlit("+");
            }
            owned("+")
        },
        BinaryOp::Sub => {
            proof {
                reveal_strlit("-");
            }
            owned("-")
        },
        BinaryOp::Mul => {
            proof {
                reveal_strlit("*");
            }
            owned("*")
        },
        BinaryOp::Div => {
            proof {
                reveal_strlit("/");
            }
            owned("/")
        },
        BinaryOp::Pow => {
            proof {
                reveal_strlit("^");
            }
            owned("^")
        },
        BinaryOp::Mod => {
            proof {
                reveal_strlit("%");
            }
            owned("%")
        },
        BinaryOp::And => {
            proof {
                reveal_strlit("&&");
            }
            owned("&&")
        },
        BinaryOp::Or => {
            proof {
                reveal_strlit("||");
            }
            owned("||")
        },
        BinaryOp::Concat => {
            proof {
                reveal_strlit("++");
            }
            owned("++")
        },
    }
}

pub fn unary_symbol_text(op: UnaryOp) -> (r: String)
    ensures
        r@ == unary_symbol(op),
{
    match op {
        UnaryOp::Minus => {
            proof {
                reveal_strlit("-");
            }
            owned("-")
        },
        UnaryOp::Not => {
            proof {
                reveal_strlit("!");
            }
            owned("!")
        },
    }
}

/// The character of a decimal digit.
pub open spec fn digit_char(d: nat) -> char {
    if d == 0 {
        '0'
    } else if d == 1 {
        '1'
    } else if d == 2 {
        '2'
    } else if d == 3 {
        '3'
    } else if d == 4 {
        '4'
    } else if d == 5 {
        '5'
    } else if d == 6 {
        '6'
    } else if d == 7 {
        '7'
    } else if d == 8 {
        '8'
    } else {
        '9'
    }
}

/// The decimal digits of `n`, most significant first, without leading zeros
/// (`"0"` for zero).
pub open spec fn nat_text(n: nat) -> Seq<char>
    decreases n,
{
    if n < 10 {
        seq![digit_char(n)]
    } else {
        nat_text(n / 10).push(digit_char(n % 10))
    }
}

/// The decimal text of `i`: its digits, with `-` in front of a negative.
pub open spec fn int_text(i: i64) -> Seq<char> {
    if i < 0 {
        seq!['-'] + nat_text((-(i as int)) as nat)
    } else {
        nat_text(i as nat)
    }
}

fn digit_text(d: u64) -> (r: String)
    requires
        d < 10,
    ensures
        r@ == seq![digit_char(d as nat)],
{
    let t = if d == 0 {
        "0"
    } else if d == 1 {
        "1"
    } else if d == 2 {
        "2"
    } else if d == 3 {
        "3"
    } else if d == 4 {
        "4"
    } else if d == 5 {
        "5"
    } else if d == 6 {
        "6"
    } else if d == 7 {
        "7"
    } else if d == 8 {
        "8"
    } else {
        "9"
    };
    proof {
        reveal_strlit("0");
        reveal_strlit("1");
        reveal_strlit("2");
        reveal_strlit("3");
        reveal_strlit("4");
        reveal_strlit("5");
        reveal_strlit("6");
        reveal_strlit("7");
        reveal_strlit("8");
        reveal_strlit("9");
    }
    let r = owned(t);
    assert(r@ =~= seq![digit_char(d as nat)]);
    r
}

fn nat_to_text(n: u64) -> (r: String)
    ensures
        r@ == nat_text(n as nat),
    decreases n,
{
    if n < 10 {
        digit_text(n)
    } else {
        let mut r = nat_to_text(n / 10);
        let last = digit_text(n % 10);
        r.append(last.as_str());
        assert(r@ =~= nat_text(n as nat));
        r
    }
}

/// The decimal text of `i`, as a computed object key.
pub fn int_to_text(i: i64) -> (r: String)
    ensures
        r@ == int_text(i),
{
    if i < 0 {
        let m = (-(i as i128)) as u64;
        let mut r = owned("-");
        proof {
            reveal_strlit("-");
        }
        r.append(nat_to_text(m).as_str());
        assert(r@ =~= int_text(i));
        r
    } else {
        nat_to_text(i as u64)
    }
}

/// Lexicographic order by code point, which is also the byte order of the
/// UTF-8 encodings.
pub open spec fn str_lt(a: Seq<char>, b: Seq<char>) -> bool
    decreases a.len(),
{
    if a.len() == 0 {
        b.len() > 0
    } else if b.len() == 0 {
        false
    } else if a[0] != b[0] {
        (a[0] as u32) < (b[0] as u32)
    } else {
        str_lt(a.drop_first(), b.drop_first())
    }
}

pub fn string_lt(a: &String, b: &String) -> (r: bool)
    ensures
        r == str_lt(a@, b@),
{
    let sa = a.as_str();
    let sb = b.as_str();
    let la = sa.unicode_len();
    let lb = sb.unicode_len();
    let mut i: usize = 0;
    assert(a@.skip(0) =~= a@);
    assert(b@.skip(0) =~= b@);
    while i < la && i < lb
        invariant
            la == a@.len(),
            lb == b@.len(),
            sa@ == a@,
            sb@ == b@,
            i <= la,
            i <= lb,
            str_lt(a@, b@) == str_lt(a@.skip(i as int), b@.skip(i as int)),
        decreases la - i,
    {
        let ca = sa.get_char(i);
        let cb = sb.get_char(i);
        if ca != cb {
            assert(a@.skip(i as int)[0] == ca);
            assert(b@.skip(i as int)[0] == cb);
            return (ca as u32) < (cb as u32);
        }
        assert(a@.skip(i as int).drop_first() =~= a@.skip(i + 1));
        assert(b@.skip(i as int).drop_first() =~= b@.skip(i + 1));
        i = i + 1;
    }
    i < lb
}

} // verus!
