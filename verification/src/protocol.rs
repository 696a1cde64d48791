//! The line-oriented wire protocol shared by server and client.
//!
//! A message is one line of text.  Decoding splits the line on whitespace
//! and matches the leading keyword; encoding writes the keyword form back,
//! terminated by a newline.  Anything that matches no keyword becomes a
//! `SynthaxError`, the one open case of the protocol.  A `SynthaxError`
//! carries raw text with no keyword of its own; by design its encoding is
//! normalized to end in a newline like every other variant's, so that every
//! encoded message is one full line.

use vstd::prelude::*;

use vstd::utf8::decode_utf8;
use vstd::utf8::encode_utf8;
use vstd::utf8::encode_utf8_decode_utf8;
use vstd::string::StringSliceAdditionalSpecFns;
use vstd::utf8::length_of_first_scalar;
use vstd::utf8::valid_first_scalar;
use vstd::utf8::valid_utf8;

use vstd::utf8::encode_utf8_valid_utf8;

use crate::numbers::dec_digits;
use crate::numbers::usize_to_dec;
use crate::text::canonical_text;
use crate::text::is_wspace;
use crate::text::join_from;
use crate::text::join_sp;
use crate::text::lemma_join_split;
use crate::text::lemma_split_leading_token;
use crate::text::lemma_split_push_space;
use crate::text::lemma_split_single_token;
use crate::text::single_spaced;
use crate::text::split_ws;
use crate::text::str_eq;
use crate::text::tokenize;

verus! {

/// A protocol message; the same kind serializes requests and responses.
#[derive(Debug)]
pub enum Protocol {
    /// An arithmetic request, carrying the operand text.
    Operation(String),
    /// A request for the current value.
    Get,
    /// The response to an accepted operation.
    Okay,
    /// A rejection, carrying a human-readable reason.
    ErrorOperation(String),
    /// The current value, as decimal text.
    Value(String),
    /// Anything that matched no keyword, carrying the offending text.
    SynthaxError(String),
}

/// The mathematical model of a message: the same variants over character
/// sequences.
pub enum ProtocolModel {
    /// Model of `Protocol::Operation`.
    Operation(Seq<char>),
    /// Model of `Protocol::Get`.
    Get,
    /// Model of `Protocol::Okay`.
    Okay,
    /// Model of `Protocol::ErrorOperation`.
    ErrorOperation(Seq<char>),
    /// Model of `Protocol::Value`.
    Value(Seq<char>),
    /// Model of `Protocol::SynthaxError`.
    SynthaxError(Seq<char>),
}

impl View for Protocol {
    type V = ProtocolModel;

    open spec fn view(&self) -> ProtocolModel {
        match self {
            Protocol::Operation(s) => ProtocolModel::Operation(s@),
            Protocol::Get => ProtocolModel::Get,
            Protocol::Okay => ProtocolModel::Okay,
            Protocol::ErrorOperation(s) => ProtocolModel::ErrorOperation(s@),
            Protocol::Value(s) => ProtocolModel::Value(s@),
            Protocol::SynthaxError(s) => ProtocolModel::SynthaxError(s@),
        }
    }
}

/// The message the whitespace tokens of a line stand for.
///
/// `OPERATION` takes exactly two further tokens, rejoined with one space;
/// `GET` and `OK` stand alone; `ERROR` takes any number of further tokens;
/// `VALUE` takes exactly one.  Every other shape, the empty line included,
/// is a syntax error carrying the tokens rejoined with single spaces.
pub open spec fn spec_from_tokens(toks: Seq<Seq<char>>) -> ProtocolModel {
    if toks.len() == 3 && toks[0] == "OPERATION"@ {
        ProtocolModel::Operation(toks[1] + seq![' '] + toks[2])
    } else if toks.len() == 1 && toks[0] == "GET"@ {
        ProtocolModel::Get
    } else if toks.len() == 1 && toks[0] == "OK"@ {
        ProtocolModel::Okay
    } else if toks.len() >= 1 && toks[0] == "ERROR"@ {
        ProtocolModel::ErrorOperation(join_sp(toks.drop_first()))
    } else if toks.len() == 2 && toks[0] == "VALUE"@ {
        ProtocolModel::Value(toks[1])
    } else {
        ProtocolModel::SynthaxError(join_sp(toks))
    }
}

/// The message one line of text decodes to.
pub open spec fn spec_decode(text: Seq<char>) -> ProtocolModel {
    spec_from_tokens(split_ws(text))
}

/// The text of a message without its line ending.
pub open spec fn spec_body(m: ProtocolModel) -> Seq<char> {
    match m {
        ProtocolModel::Operation(args) => "OPERATION "@ + args,
        ProtocolModel::Get => "GET"@,
        ProtocolModel::Okay => "OK"@,
        ProtocolModel::ErrorOperation(t) => "ERROR \""@ + t + "\""@,
        ProtocolModel::Value(v) => "VALUE "@ + v,
        ProtocolModel::SynthaxError(t) => t,
    }
}

/// The full line a message encodes to: its body and a newline.
pub open spec fn spec_line(m: ProtocolModel) -> Seq<char> {
    spec_body(m) + "\n"@
}

/// The text of a message as its whitespace tokens rejoined: the keyword,
/// one space, and the payload, with nothing added.  For a decoded message
/// this is the received line's own tokens joined with single spaces; it
/// differs from [`spec_body`] only for an error response, whose wire form
/// adds quotes around the payload.
pub open spec fn spec_token_text(m: ProtocolModel) -> Seq<char> {
    match m {
        ProtocolModel::ErrorOperation(t) => if t.len() == 0 {
            "ERROR"@
        } else {
            "ERROR "@ + t
        },
        _ => spec_body(m),
    }
}

/// True when the bytes are a non-empty proper prefix of some valid UTF-8
/// scalar encoding: input that stops inside one character.
pub open spec fn incomplete_scalar_tail(tail: Seq<u8>) -> bool {
    exists|ext: Seq<u8>|
        #![auto]
        valid_first_scalar(tail + ext) && tail.len() < length_of_first_scalar(tail + ext)
}

/// The diagnostic text for a UTF-8 decode failure, in the wording of the
/// standard decoder: the length of the offending sequence where one exists,
/// and the index of the longest cleanly decoded prefix.
pub open spec fn utf8_failure_text(vup: int, elen: Option<int>) -> Seq<char> {
    match elen {
        Some(n) => "invalid utf-8 sequence of length "@ + dec_digits(n as nat) + " from index "@
            + dec_digits(vup as nat),
        None => "incomplete utf-8 byte sequence from index "@ + dec_digits(vup as nat),
    }
}

/// True when `m` describes a UTF-8 decode failure of `bytes`: some prefix
/// of the input is valid, what follows it is not, and the text reports that
/// position.
pub open spec fn is_utf8_failure_text(bytes: Seq<u8>, m: Seq<char>) -> bool {
    exists|vup: int, elen: Option<int>|
        #![auto]
        {
            &&& 0 <= vup <= bytes.len()
            &&& valid_utf8(bytes.take(vup))
            &&& match elen {
                Some(n) => 1 <= n <= 3 && vup + n <= bytes.len() && !incomplete_scalar_tail(
                    bytes.skip(vup),
                ),
                None => vup < bytes.len() && incomplete_scalar_tail(bytes.skip(vup)),
            }
            &&& m == utf8_failure_text(vup, elen)
        }
}

/// Relies on `std::str::from_utf8`: it succeeds exactly on valid UTF-8,
/// returning the `str` over those bytes; on failure, `Utf8Error` reports
/// the length of the valid prefix (`valid_up_to`) and, in `error_len`, the
/// length of the offending sequence (one to three bytes).  `error_len` is
/// `None` exactly when the input ends inside one character — the remaining
/// bytes begin a valid encoding that is cut short — and `Some` otherwise.
#[verifier::external_body]
fn utf8_to_str(bytes: &[u8]) -> (r: Result<&str, (usize, Option<usize>)>)
    ensures
        r matches Ok(s) ==> valid_utf8(bytes@) && s.spec_bytes() == bytes@,
        r is Err ==> !valid_utf8(bytes@),
        r matches Err((vup, elen)) ==> {
            &&& vup <= bytes@.len()
            &&& valid_utf8(bytes@.take(vup as int))
            &&& match elen {
                Some(n) => 1 <= n <= 3 && vup + n <= bytes@.len() && !incomplete_scalar_tail(
                    bytes@.skip(vup as int),
                ),
                None => vup < bytes@.len() && incomplete_scalar_tail(bytes@.skip(vup as int)),
            }
        },
{
    match std::str::from_utf8(bytes) {
        Ok(s) => Ok(s),
        Err(e) => Err((e.valid_up_to(), e.error_len())),
    }
}

impl Protocol {
    /// Decodes one line of raw bytes into a message.  This never fails:
    /// bytes that are not UTF-8 decode to a `SynthaxError` carrying the
    /// decode-failure description.
    pub fn from_bytes(bytes: &[u8]) -> (r: Protocol)
        ensures
            valid_utf8(bytes@) ==> r@ == spec_decode(decode_utf8(bytes@)),
            !valid_utf8(bytes@) ==> (r@ matches ProtocolModel::SynthaxError(m)
                && is_utf8_failure_text(bytes@, m)),
    {
        match utf8_to_str(bytes) {
            Ok(message) => {
                proof {
                    encode_utf8_decode_utf8(message@);
                }
                let vector: Vec<&str> = tokenize(message);
                Protocol::from_str(vector)
            },
            Err((vup, elen)) => {
                let text = match elen {
                    Some(n) => {
                        let mut t = ("invalid utf-8 sequence of length ").to_owned();
                        t.append(usize_to_dec(n).as_str());
                        t.append(" from index ");
                        t.append(usize_to_dec(vup).as_str());
                        proof {
                            assert(t@ == utf8_failure_text(vup as int, Some(n as int)));
                        }
                        t
                    },
                    None => {
                        let mut t = ("incomplete utf-8 byte sequence from index ").to_owned();
                        t.append(usize_to_dec(vup).as_str());
                        proof {
                            assert(t@ == utf8_failure_text(vup as int, None::<int>));
                        }
                        t
                    },
                };
                Protocol::SynthaxError(text)
            },
        }
    }

    /// Builds the message the given whitespace tokens stand for.
    pub fn from_str(message: Vec<&str>) -> (r: Protocol)
        ensures
            r@ == spec_from_tokens(message.deep_view()),
    {
        proof {
            reveal_strlit(" ");
            assert(message.deep_view().len() == message@.len());
            if message@.len() > 0 {
                assert(message.deep_view()[0] == message@[0]@);
            }
            if message@.len() > 1 {
                assert(message.deep_view()[1] == message@[1]@);
            }
            if message@.len() > 2 {
                assert(message.deep_view()[2] == message@[2]@);
            }
        }
        if message.len() == 3 && str_eq(message[0], "OPERATION") {
            let mut args = message[1].to_owned();
            args.append(" ");
            args.append(message[2]);
            proof {
                assert(args@ == message.deep_view()[1] + seq![' '] + message.deep_view()[2]);
            }
            Protocol::Operation(args)
        } else if message.len() == 1 && str_eq(message[0], "GET") {
            Protocol::Get
        } else if message.len() == 1 && str_eq(message[0], "OK") {
            Protocol::Okay
        } else if message.len() >= 1 && str_eq(message[0], "ERROR") {
            let args = join_from(&message, 1);
            proof {
                assert(message.deep_view().skip(1) =~= message.deep_view().drop_first());
            }
            Protocol::ErrorOperation(args)
        } else if message.len() == 2 && str_eq(message[0], "VALUE") {
            let only: &str = message[1];
            Protocol::Value(only.to_owned())
        } else {
            let text = join_from(&message, 0);
            proof {
                assert(message.deep_view().skip(0) =~= message.deep_view());
            }
            Protocol::SynthaxError(text)
        }
    }

    /// The text of this message without its line ending.
    pub fn body_text(&self) -> (r: String)
        ensures
            r@ == spec_body(self@),
    {
        match self {
            Protocol::Operation(args) => {
                let mut s = ("OPERATION ").to_owned();
                s.append(args.as_str());
                s
            },
            Protocol::Get => ("GET").to_owned(),
            Protocol::Okay => ("OK").to_owned(),
            Protocol::ErrorOperation(t) => {
                let mut s = ("ERROR \"").to_owned();
                s.append(t.as_str());
                s.append("\"");
                s
            },
            Protocol::Value(v) => {
                let mut s = ("VALUE ").to_owned();
                s.append(v.as_str());
                s
            },
            Protocol::SynthaxError(t) => t.clone(),
        }
    }

    /// The text of this message as its tokens rejoined, exactly
    /// [`spec_token_text`]: what the peer's line said, with no quoting
    /// added.
    pub fn token_text(&self) -> (r: String)
        ensures
            r@ == spec_token_text(self@),
    {
        match self {
            Protocol::ErrorOperation(t) => {
                if t.as_str().is_empty() {
                    ("ERROR").to_owned()
                } else {
                    let mut s = ("ERROR ").to_owned();
                    s.append(t.as_str());
                    s
                }
            },
            _ => self.body_text(),
        }
    }

    /// The full line this message encodes to, newline included.
    pub fn to_text(&self) -> (r: String)
        ensures
            r@ == spec_line(self@),
    {
        let mut out = self.body_text();
        out.append("\n");
        out
    }

    /// Encodes this message as the bytes to send on the wire.
    pub fn to_bytes(&self) -> (r: Vec<u8>)
        ensures
            r@ == encode_utf8(spec_line(self@)),
    {
        let line = self.to_text();
        line.as_str().as_bytes_vec()
    }
}

/// A message in the canonical shape on which encoding and decoding are
/// inverse: an operation's text is exactly two tokens joined by one space,
/// a value is one non-empty whitespace-free token, and `GET` and `OK` carry
/// nothing.  An error response is never canonical, because its text gains
/// quotes on the wire; a syntax error is the one open case of the protocol.
pub open spec fn canonical_message(m: ProtocolModel) -> bool {
    match m {
        ProtocolModel::Operation(args) => split_ws(args).len() == 2 && join_sp(split_ws(args))
            == args,
        ProtocolModel::Get => true,
        ProtocolModel::Okay => true,
        ProtocolModel::ErrorOperation(_) => false,
        ProtocolModel::Value(v) => v.len() > 0 && (forall|i: int|
            0 <= i < v.len() ==> !is_wspace(v[i])),
        ProtocolModel::SynthaxError(_) => false,
    }
}

/// Decoding the encoding of a canonical message gives the message back.
pub proof fn lemma_decode_encode(m: ProtocolModel)
    requires
        canonical_message(m),
    ensures
        spec_decode(spec_line(m)) == m,
{
    reveal_strlit("OPERATION ");
    reveal_strlit("OPERATION");
    reveal_strlit("GET");
    reveal_strlit("OK");
    reveal_strlit("ERROR");
    reveal_strlit("VALUE ");
    reveal_strlit("VALUE");
    reveal_strlit("\n");
    let line = spec_line(m);
    match m {
        ProtocolModel::Operation(args) => {
            let kw = "OPERATION"@;
            assert(line =~= (kw + seq![' '] + args).push('\n'));
            lemma_split_push_space(kw + seq![' '] + args, seq![], '\n');
            lemma_split_leading_token(kw, args);
            let toks = split_ws(line);
            assert(toks == seq![kw] + split_ws(args));
            assert(toks.len() == 3);
            assert(toks[0] == kw);
            assert(toks[1] == split_ws(args)[0] && toks[2] == split_ws(args)[1]);
            let ts = split_ws(args);
            assert(ts.drop_first() =~= seq![ts[1]]);
            assert(join_sp(seq![ts[1]]) == ts[1]);
            assert(join_sp(ts) == ts[0] + seq![' '] + join_sp(ts.drop_first()));
        },
        ProtocolModel::Get => {
            assert(line =~= "GET"@.push('\n'));
            lemma_split_push_space("GET"@, seq![], '\n');
            lemma_split_single_token("GET"@);
            assert(split_ws(line) == seq!["GET"@]);
        },
        ProtocolModel::Okay => {
            assert(line =~= "OK"@.push('\n'));
            lemma_split_push_space("OK"@, seq![], '\n');
            lemma_split_single_token("OK"@);
            assert(split_ws(line) == seq!["OK"@]);
            assert("OK"@ != "GET"@);
        },
        ProtocolModel::Value(v) => {
            let kw = "VALUE"@;
            assert(line =~= (kw + seq![' '] + v).push('\n'));
            lemma_split_push_space(kw + seq![' '] + v, seq![], '\n');
            lemma_split_leading_token(kw, v);
            lemma_split_single_token(v);
            let toks = split_ws(line);
            assert(toks == seq![kw] + seq![v]);
            assert(toks.len() == 2);
            assert(toks[0] == kw && toks[1] == v);
            assert(kw != "ERROR"@) by {
                assert(kw[0] == 'V');
                assert("ERROR"@[0] == 'E');
            }
        },
        _ => {
        },
    }
}

/// Decoding the encoding of an error response gives an error response whose
/// text carries the quotes the wire form added, the one variant for which
/// the round trip is not the identity.
pub proof fn lemma_decode_encode_error(t: Seq<char>)
    requires
        single_spaced(t),
    ensures
        spec_decode(spec_line(ProtocolModel::ErrorOperation(t))) == ProtocolModel::ErrorOperation(
            seq!['"'] + t + seq!['"'],
        ),
{
    reveal_strlit("ERROR \"");
    reveal_strlit("ERROR");
    reveal_strlit("\"");
    reveal_strlit("\n");
    reveal_strlit("OPERATION");
    reveal_strlit("GET");
    reveal_strlit("OK");
    let q = seq!['"'] + t + seq!['"'];
    let kw = "ERROR"@;
    let line = spec_line(ProtocolModel::ErrorOperation(t));
    assert(line =~= (kw + seq![' '] + q).push('\n'));
    lemma_split_push_space(kw + seq![' '] + q, seq![], '\n');
    lemma_split_leading_token(kw, q);
    assert(canonical_text(q)) by {
        assert(q[0] == '"');
        assert(q[q.len() - 1] == '"');
        assert forall|i: int| 0 <= i < q.len() && #[trigger] is_wspace(q[i]) implies q[i] == ' ' && i
            + 1 < q.len() && !is_wspace(q[i + 1]) by {
            assert(q[i] == t[i - 1]);
            if i + 1 < q.len() - 1 {
                assert(q[i + 1] == t[i]);
            }
        }
    }
    lemma_join_split(q);
    let toks = split_ws(line);
    assert(toks == seq![kw] + split_ws(q));
    assert(toks.len() >= 2);
    assert(toks[0] == kw);
    assert(kw != "OPERATION"@);
    assert(toks.drop_first() =~= split_ws(q));
    assert(join_sp(toks.drop_first()) == q);
}

/// Over the wire, the encoding of a canonical message is valid UTF-8 and
/// decodes back to the message.
pub proof fn lemma_wire_round_trip(m: ProtocolModel)
    requires
        canonical_message(m),
    ensures
        valid_utf8(encode_utf8(spec_line(m))),
        spec_decode(decode_utf8(encode_utf8(spec_line(m)))) == m,
{
    encode_utf8_valid_utf8(spec_line(m));
    encode_utf8_decode_utf8(spec_line(m));
    lemma_decode_encode(m);
}

} // verus!
