//! Arithmetic operations accepted by the calculator, and their parsing
//! from the operand text of an `OPERATION` request.

use vstd::prelude::*;

use crate::numbers::dec_digits;
use crate::numbers::lemma_dec_digits_shape;
use crate::numbers::lemma_parse_dec;
use crate::numbers::num_error_str;
use crate::numbers::num_error_text;
use crate::numbers::parse_u8;
use crate::numbers::spec_parse_u8;
use crate::text::is_wspace;
use crate::text::join_sp;
use crate::text::lemma_split_two_tokens;
use crate::text::split_ws;
use crate::text::str_eq;
use crate::text::tokenize;

verus! {

/// An arithmetic instruction carrying an unsigned 8-bit operand.
#[derive(PartialEq, Eq, Structural, Debug)]
pub enum Operation {
    /// Add the operand to the accumulator.
    Add(u8),
    /// Subtract the operand from the accumulator.
    Sub(u8),
    /// Multiply the accumulator by the operand.
    Mul(u8),
    /// Divide the accumulator by the operand (zero is rejected by the parser).
    Div(u8),
}

/// Parsing operand text as an operation.  The text must split into exactly
/// an operator token (`+`, `-`, `*` or `/`) and a decimal 8-bit operand;
/// each failure carries its exact diagnostic text, and a divisor of zero is
/// rejected here, before an operation is ever built.
pub open spec fn spec_parse_operation(text: Seq<char>) -> Result<Operation, Seq<char>> {
    let toks = split_ws(text);
    if toks.len() != 2 {
        Err("expected 2 arguments"@)
    } else {
        match spec_parse_u8(toks[1]) {
            Err(k) => Err("parsing error: invalid integer: "@ + num_error_text(k)),
            Ok(v) => {
                if toks[0] == "+"@ {
                    Ok(Operation::Add(v))
                } else if toks[0] == "-"@ {
                    Ok(Operation::Sub(v))
                } else if toks[0] == "*"@ {
                    Ok(Operation::Mul(v))
                } else if toks[0] == "/"@ {
                    if v == 0 {
                        Err("division by zero"@)
                    } else {
                        Ok(Operation::Div(v))
                    }
                } else {
                    Err("parsing error: unknown operation: "@ + toks[0])
                }
            },
        }
    }
}

impl Operation {
    /// Parses operand text into an operation, exactly as
    /// [`spec_parse_operation`] describes.
    pub fn from_str(tokens: &str) -> (r: Result<Operation, String>)
        ensures
            r matches Ok(op) ==> spec_parse_operation(tokens@) == Ok::<Operation, Seq<char>>(op),
            r matches Err(e) ==> spec_parse_operation(tokens@) matches Err(t) && t == e@,
    {
        let toks = tokenize(tokens);
        proof {
            assert(toks.deep_view().len() == toks@.len());
        }
        if toks.len() != 2 {
            return Err(("expected 2 arguments").to_owned());
        }
        proof {
            assert(toks.deep_view()[0] == toks@[0]@);
            assert(toks.deep_view()[1] == toks@[1]@);
        }
        let operand_tok: &str = toks[1];
        let operand = match parse_u8(operand_tok) {
            Ok(v) => v,
            Err(k) => {
                let mut m = ("parsing error: invalid integer: ").to_owned();
                m.append(num_error_str(k));
                return Err(m);
            },
        };
        let op_tok: &str = toks[0];
        if str_eq(op_tok, "+") {
            Ok(Operation::Add(operand))
        } else if str_eq(op_tok, "-") {
            Ok(Operation::Sub(operand))
        } else if str_eq(op_tok, "*") {
            Ok(Operation::Mul(operand))
        } else if str_eq(op_tok, "/") {
            if operand == 0 {
                Err(("division by zero").to_owned())
            } else {
                Ok(Operation::Div(operand))
            }
        } else {
            let mut m = ("parsing error: unknown operation: ").to_owned();
            m.append(op_tok);
            Err(m)
        }
    }
}

/// The operator token of an operation.
pub open spec fn op_char(op: Operation) -> Seq<char> {
    match op {
        Operation::Add(_) => "+"@,
        Operation::Sub(_) => "-"@,
        Operation::Mul(_) => "*"@,
        Operation::Div(_) => "/"@,
    }
}

/// The operand an operation carries.
pub open spec fn operand_of(op: Operation) -> u8 {
    match op {
        Operation::Add(n) => n,
        Operation::Sub(n) => n,
        Operation::Mul(n) => n,
        Operation::Div(n) => n,
    }
}

/// A well-formed operation: any but a division by zero, which the parser
/// never produces.
pub open spec fn valid_op(op: Operation) -> bool {
    !(op matches Operation::Div(0u8))
}

/// The canonical operand text of an operation: its operator, one space,
/// and its operand in decimal.
pub open spec fn op_args_text(op: Operation) -> Seq<char> {
    op_char(op) + seq![' '] + dec_digits(operand_of(op) as nat)
}

/// Parsing the canonical text of a well-formed operation gives the
/// operation back; the text splits into its two tokens and joining them
/// restores it.
pub proof fn lemma_parse_op_text(op: Operation)
    requires
        valid_op(op),
    ensures
        split_ws(op_args_text(op)) == seq![op_char(op), dec_digits(operand_of(op) as nat)],
        join_sp(split_ws(op_args_text(op))) == op_args_text(op),
        spec_parse_operation(op_args_text(op)) == Ok::<Operation, Seq<char>>(op),
{
    reveal_strlit("+");
    reveal_strlit("-");
    reveal_strlit("*");
    reveal_strlit("/");
    let c = op_char(op);
    let d = dec_digits(operand_of(op) as nat);
    lemma_dec_digits_shape(operand_of(op) as nat);
    assert(c.len() == 1);
    assert(!is_wspace(c[0]));
    lemma_split_two_tokens(c, d);
    lemma_parse_dec(operand_of(op));
    let toks = split_ws(op_args_text(op));
    assert(toks == seq![c, d]);
    assert(toks[0] == c && toks[1] == d);
    assert(toks.drop_first() =~= seq![d]);
    assert(join_sp(seq![d]) == d);
    assert(join_sp(toks) == c + seq![' '] + d);
    assert("+"@[0] == '+' && "-"@[0] == '-' && "*"@[0] == '*' && "/"@[0] == '/');
    assert("+"@ != "-"@ && "+"@ != "*"@ && "+"@ != "/"@ && "-"@ != "*"@ && "-"@ != "/"@ && "*"@
        != "/"@);
}

} // verus!
