//! Per-connection dispatch: decode a line, act on the shared calculator,
//! and build the response.
//!
//! The state machine itself is pure and fully specified by
//! [`spec_respond`]; the shared calculator stands behind the verified lock
//! of [`SharedCalculator`], which can never become unusable, so the
//! accumulator accessors here always succeed.  Their `Result` keeps the
//! distinguished lock-unusable error (`ServerError::PoisonError`) as the
//! connection-fatal channel of the dispatch interface.

use vstd::prelude::*;

use vstd::utf8::decode_utf8;
use vstd::utf8::encode_utf8;

use crate::calculator::Calculator;
use crate::calculator::SharedCalculator;
use crate::calculator::spec_apply;
use crate::numbers::dec_digits;
use crate::numbers::u8_to_dec;
use crate::operation::Operation;
use crate::operation::lemma_parse_op_text;
use crate::operation::op_args_text;
use crate::operation::spec_parse_operation;
use crate::operation::valid_op;
use crate::protocol::Protocol;
use crate::protocol::ProtocolModel;
use crate::protocol::canonical_message;
use crate::protocol::lemma_wire_round_trip;
use crate::protocol::spec_decode;
use crate::protocol::spec_line;
use crate::protocol::spec_token_text;
use crate::numbers::spec_parse_u8;
use crate::server_error::ServerError;
use crate::text::lemma_split_leading_token;
use crate::text::lemma_split_single_token;
use crate::text::lemma_split_two_tokens;
use crate::text::split_ws;

verus! {

/// What one message does to the accumulator and what it answers.
///
/// An `OPERATION` whose operand text parses is applied and answered `OK`;
/// one that does not parse changes nothing and is answered with the parse
/// failure.  `GET` changes nothing and answers the current value as decimal
/// text.  Any other message is a protocol violation by the peer: it changes
/// nothing and is answered with an error naming the unexpected message.
pub open spec fn spec_respond(acc: u8, m: ProtocolModel) -> (u8, ProtocolModel) {
    match m {
        ProtocolModel::Operation(args) => match spec_parse_operation(args) {
            Ok(op) => (spec_apply(acc, op), ProtocolModel::Okay),
            Err(t) => (acc, ProtocolModel::ErrorOperation(t)),
        },
        ProtocolModel::Get => (acc, ProtocolModel::Value(dec_digits(acc as nat))),
        other => (
            acc,
            ProtocolModel::ErrorOperation("unexpected message: "@ + spec_token_text(other)),
        ),
    }
}

/// An operation the parser returns never divides by zero.
pub proof fn lemma_parsed_divisor_nonzero(args: Seq<char>, op: Operation)
    requires
        spec_parse_operation(args) == Ok::<Operation, Seq<char>>(op),
    ensures
        !(op matches Operation::Div(0u8)),
{
}

impl Calculator {
    /// The pure per-message step of the connection state machine, exactly
    /// [`spec_respond`] on the calculator's value.
    pub fn respond(&mut self, message: &Protocol) -> (response: Protocol)
        ensures
            final(self)@ == spec_respond(old(self)@, message@).0,
            response@ == spec_respond(old(self)@, message@).1,
    {
        match message {
            Protocol::Operation(args) => match Operation::from_str(args.as_str()) {
                Ok(op) => {
                    proof {
                        lemma_parsed_divisor_nonzero(args@, op);
                    }
                    self.apply(op);
                    Protocol::Okay
                },
                Err(e) => Protocol::ErrorOperation(e),
            },
            Protocol::Get => Protocol::Value(u8_to_dec(self.accumulation())),
            other => {
                let mut text = ("unexpected message: ").to_owned();
                let received = other.token_text();
                text.append(received.as_str());
                Protocol::ErrorOperation(text)
            },
        }
    }
}

/// Applies one operation to the shared calculator under its verified lock.
/// The lock cannot become unusable, so this always succeeds; the `Result`
/// keeps the interface's distinguished lock-unusable error for callers.
pub fn apply_operation(calculator: &SharedCalculator, operation: Operation) -> (r: Result<
    (),
    ServerError,
>)
    requires
        !(operation matches Operation::Div(0u8)),
    ensures
        r is Ok,
{
    calculator.apply(operation);
    Ok(())
}

/// Reads the shared calculator's accumulation under its verified lock.
/// The lock cannot become unusable, so this always succeeds.
pub fn get_value(calculator: &SharedCalculator) -> (r: Result<u8, ServerError>)
    ensures
        r is Ok,
{
    Ok(calculator.read())
}

/// Handles an `OPERATION` request: parses the operand text, applies the
/// operation to the shared calculator, and builds the response.  A parse
/// failure is answered on the spot and is not fatal; text that parses is
/// applied and answered `OK`.
pub fn handle_operation_message(calculator: &SharedCalculator, args: String) -> (r: Result<
    Protocol,
    ServerError,
>)
    ensures
        spec_parse_operation(args@) matches Err(t) ==> (r matches Ok(p) && p@
            == ProtocolModel::ErrorOperation(t)),
        spec_parse_operation(args@) is Ok ==> (r matches Ok(p) && p@ == ProtocolModel::Okay),
{
    let op = match Operation::from_str(args.as_str()) {
        Ok(op) => op,
        Err(e) => {
            return Ok(Protocol::ErrorOperation(e));
        },
    };
    proof {
        lemma_parsed_divisor_nonzero(args@, op);
    }
    match apply_operation(calculator, op) {
        Ok(()) => Ok(Protocol::Okay),
        Err(e) => Err(e),
    }
}

/// Handles a `GET` request: reads the shared calculator and answers its
/// value as decimal text.  This always succeeds; which value is read
/// depends on what other connections applied before the lock was taken.
pub fn handle_get_message(calculator: &SharedCalculator) -> (r: Result<Protocol, ServerError>)
    ensures
        r matches Ok(p) && exists|v: u8| p@ == ProtocolModel::Value(dec_digits(v as nat)),
{
    let value = match get_value(calculator) {
        Ok(v) => v,
        Err(e) => {
            return Err(e);
        },
    };
    let text = u8_to_dec(value);
    proof {
        assert(text@ == dec_digits(value as nat));
    }
    Ok(Protocol::Value(text))
}

/// Dispatches one decoded message against the shared calculator, as the
/// connection loop does for each line: requests are answered, and anything
/// else is answered with an error naming the received line.  This always
/// succeeds; the `Result` is the connection loop's fatal channel.
pub fn handle_message(calculator: &SharedCalculator, message: Protocol) -> (r: Result<
    Protocol,
    ServerError,
>)
    ensures
        r is Ok,
        message@ matches ProtocolModel::Operation(args) ==> ((spec_parse_operation(args) matches Err(
            t,
        ) ==> (r matches Ok(p) && p@ == ProtocolModel::ErrorOperation(t))) && (spec_parse_operation(
            args,
        ) is Ok ==> (r matches Ok(p) && p@ == ProtocolModel::Okay))),
        message@ is Get ==> (r matches Ok(p) && exists|v: u8| p@ == ProtocolModel::Value(
            dec_digits(v as nat),
        )),
        !(message@ is Operation) && !(message@ is Get) ==> (r matches Ok(p) && p@
            == ProtocolModel::ErrorOperation("unexpected message: "@ + spec_token_text(message@))),
{
    match message {
        Protocol::Operation(args) => handle_operation_message(calculator, args),
        Protocol::Get => handle_get_message(calculator),
        other => {
            let mut text = ("unexpected message: ").to_owned();
            let received = other.token_text();
            text.append(received.as_str());
            Ok(Protocol::ErrorOperation(text))
        },
    }
}

/// Frames a response into the connection's outgoing byte buffer.  Writing
/// into the buffer itself cannot fail; the caller sends the buffer and
/// reports `ServerError::WriteFailed` if the send fails.
pub fn send_protocol(protocol: Protocol, stream: &mut Vec<u8>) -> (r: Result<(), ServerError>)
    ensures
        r is Ok,
        final(stream)@ == old(stream)@ + encode_utf8(spec_line(protocol@)),
{
    let response = protocol.to_bytes();
    let mut i: usize = 0;
    let n = response.len();
    while i < n
        invariant
            n == response@.len(),
            i <= n,
            stream@ == old(stream)@ + response@.take(i as int),
        decreases n - i,
    {
        let b = response[i];
        stream.push(b);
        proof {
            assert(old(stream)@ + response@.take(i as int) + seq![response@[i as int]] =~= old(
                stream,
            )@ + response@.take(i + 1));
        }
        i = i + 1;
    }
    proof {
        assert(response@.take(n as int) =~= response@);
    }
    Ok(())
}

/// The wire line that submits an operation: `OPERATION`, the operator, and
/// the operand in decimal, encoded as bytes.
pub open spec fn wire_line(op: Operation) -> Seq<u8> {
    encode_utf8(spec_line(ProtocolModel::Operation(op_args_text(op))))
}

/// Folding the pure wraparound arithmetic over a sequence of operations.
pub open spec fn fold_apply(acc: u8, ops: Seq<Operation>) -> u8
    decreases ops.len(),
{
    if ops.len() == 0 {
        acc
    } else {
        fold_apply(spec_apply(acc, ops[0]), ops.drop_first())
    }
}

/// The accumulator after replaying operations through the wire protocol:
/// each operation's line is encoded to bytes, decoded again, and dispatched
/// by the connection step.
pub open spec fn replay_wire(acc: u8, ops: Seq<Operation>) -> u8
    decreases ops.len(),
{
    if ops.len() == 0 {
        acc
    } else {
        replay_wire(
            spec_respond(acc, spec_decode(decode_utf8(wire_line(ops[0])))).0,
            ops.drop_first(),
        )
    }
}

/// One wire round trip of a well-formed operation: its line decodes back to
/// the operation request, which the connection step applies and answers
/// `OK`.
pub proof fn lemma_wire_step(acc: u8, op: Operation)
    requires
        valid_op(op),
    ensures
        spec_respond(acc, spec_decode(decode_utf8(wire_line(op)))) == (
            spec_apply(acc, op),
            ProtocolModel::Okay,
        ),
{
    lemma_parse_op_text(op);
    assert(canonical_message(ProtocolModel::Operation(op_args_text(op))));
    lemma_wire_round_trip(ProtocolModel::Operation(op_args_text(op)));
}

/// Replaying any sequence of well-formed operations through the wire
/// protocol leaves the accumulator exactly where folding the pure
/// arithmetic does; from a fresh accumulator, the two agree on the final
/// value.
pub proof fn lemma_replay_equals_fold(acc: u8, ops: Seq<Operation>)
    requires
        forall|i: int| 0 <= i < ops.len() ==> valid_op(#[trigger] ops[i]),
    ensures
        replay_wire(acc, ops) == fold_apply(acc, ops),
    decreases ops.len(),
{
    if ops.len() > 0 {
        lemma_wire_step(acc, ops[0]);
        assert(forall|i: int|
            0 <= i < ops.drop_first().len() ==> #[trigger] ops.drop_first()[i] == ops[i + 1]);
        lemma_replay_equals_fold(spec_apply(acc, ops[0]), ops.drop_first());
    }
}

/// Two consecutive `GET` requests with no operation between them answer
/// identical `VALUE` text, and neither changes the accumulator.
pub proof fn lemma_get_twice(acc: u8)
    ensures
        spec_respond(acc, ProtocolModel::Get).0 == acc,
        spec_respond(spec_respond(acc, ProtocolModel::Get).0, ProtocolModel::Get).1 == spec_respond(
            acc,
            ProtocolModel::Get,
        ).1,
{
}

/// The line `OPERATION / 0` is answered with exactly `division by zero`
/// and leaves the accumulator unchanged, whatever its value.
pub proof fn lemma_division_by_zero(acc: u8)
    ensures
        spec_respond(acc, spec_decode("OPERATION / 0"@)) == (
            acc,
            ProtocolModel::ErrorOperation("division by zero"@),
        ),
{
    reveal_strlit("OPERATION / 0");
    reveal_strlit("OPERATION");
    reveal_strlit("/ 0");
    reveal_strlit("/");
    reveal_strlit("0");
    reveal_strlit("+");
    reveal_strlit("-");
    reveal_strlit("*");
    reveal_strlit("division by zero");
    let rest = "/"@ + seq![' '] + "0"@;
    assert("OPERATION / 0"@ =~= "OPERATION"@ + seq![' '] + rest);
    lemma_split_leading_token("OPERATION"@, rest);
    lemma_split_two_tokens("/"@, "0"@);
    let toks = split_ws("OPERATION / 0"@);
    assert(toks == seq!["OPERATION"@] + seq!["/"@, "0"@]);
    assert(toks.len() == 3 && toks[0] == "OPERATION"@ && toks[1] == "/"@ && toks[2] == "0"@);
    assert(spec_decode("OPERATION / 0"@) == ProtocolModel::Operation("/"@ + seq![' '] + "0"@));
    assert("/ 0"@ =~= rest);
    assert(split_ws("/ 0"@) == seq!["/"@, "0"@]);
    assert("0"@ =~= seq!['0']);
    assert(spec_parse_u8("0"@) == Ok::<u8, crate::numbers::NumError>(0u8)) by {
        assert(seq!['0'].drop_first() =~= Seq::<char>::empty());
        assert(crate::numbers::parse_digits(seq!['0'], 0) == crate::numbers::parse_digits(
            Seq::<char>::empty(),
            0,
        ));
    }
    assert("/"@[0] == '/' && "+"@[0] == '+' && "-"@[0] == '-' && "*"@[0] == '*');
    assert("/"@ != "+"@ && "/"@ != "-"@ && "/"@ != "*"@);
    assert(spec_parse_operation("/ 0"@) == Err::<Operation, Seq<char>>("division by zero"@));
}

/// The line `OPERATION % 5` is answered with exactly
/// `parsing error: unknown operation: %` and leaves the accumulator
/// unchanged, whatever its value.
pub proof fn lemma_unknown_operation(acc: u8)
    ensures
        spec_respond(acc, spec_decode("OPERATION % 5"@)) == (
            acc,
            ProtocolModel::ErrorOperation("parsing error: unknown operation: %"@),
        ),
{
    reveal_strlit("OPERATION % 5");
    reveal_strlit("OPERATION");
    reveal_strlit("% 5");
    reveal_strlit("%");
    reveal_strlit("5");
    reveal_strlit("+");
    reveal_strlit("-");
    reveal_strlit("*");
    reveal_strlit("/");
    reveal_strlit("parsing error: unknown operation: ");
    reveal_strlit("parsing error: unknown operation: %");
    let rest = "%"@ + seq![' '] + "5"@;
    assert("OPERATION % 5"@ =~= "OPERATION"@ + seq![' '] + rest);
    lemma_split_leading_token("OPERATION"@, rest);
    lemma_split_two_tokens("%"@, "5"@);
    let toks = split_ws("OPERATION % 5"@);
    assert(toks == seq!["OPERATION"@] + seq!["%"@, "5"@]);
    assert(toks.len() == 3 && toks[0] == "OPERATION"@ && toks[1] == "%"@ && toks[2] == "5"@);
    assert(spec_decode("OPERATION % 5"@) == ProtocolModel::Operation("%"@ + seq![' '] + "5"@));
    assert("%"@ + seq![' '] + "5"@ =~= "% 5"@);
    assert("% 5"@ =~= rest);
    assert(split_ws("% 5"@) == seq!["%"@, "5"@]);
    assert("5"@ =~= seq!['5']);
    assert(spec_parse_u8("5"@) == Ok::<u8, crate::numbers::NumError>(5u8)) by {
        assert(seq!['5'].drop_first() =~= Seq::<char>::empty());
        assert(crate::numbers::parse_digits(seq!['5'], 0) == crate::numbers::parse_digits(
            Seq::<char>::empty(),
            5,
        ));
    }
    assert("%"@[0] == '%' && "+"@[0] == '+' && "-"@[0] == '-' && "*"@[0] == '*' && "/"@[0] == '/');
    assert("%"@ != "+"@ && "%"@ != "-"@ && "%"@ != "*"@ && "%"@ != "/"@);
    assert("parsing error: unknown operation: "@ + "%"@ =~= "parsing error: unknown operation: %"@);
    assert(spec_parse_operation("% 5"@) == Err::<Operation, Seq<char>>(
        "parsing error: unknown operation: %"@,
    ));
}

/// The malformed line `hola` is answered with exactly
/// `unexpected message: hola` and leaves the accumulator unchanged: the
/// connection stays usable afterwards.
pub proof fn lemma_unexpected_line(acc: u8)
    ensures
        spec_respond(acc, spec_decode("hola"@)) == (
            acc,
            ProtocolModel::ErrorOperation("unexpected message: hola"@),
        ),
{
    reveal_strlit("hola");
    reveal_strlit("GET");
    reveal_strlit("OK");
    reveal_strlit("ERROR");
    reveal_strlit("VALUE");
    reveal_strlit("unexpected message: ");
    reveal_strlit("unexpected message: hola");
    lemma_split_single_token("hola"@);
    let toks = split_ws("hola"@);
    assert(toks == seq!["hola"@]);
    assert(toks[0] == "hola"@);
    assert("hola"@ != "GET"@ && "hola"@ != "OK"@ && "hola"@ != "ERROR"@);
    assert(spec_decode("hola"@) == ProtocolModel::SynthaxError(crate::text::join_sp(toks)));
    assert(crate::text::join_sp(toks) == "hola"@);
    assert("unexpected message: "@ + "hola"@ =~= "unexpected message: hola"@);
}

} // verus!
