//! Decoding the base64 XDR in which the RPC hands out topics and event bodies.
use vstd::prelude::*;

use crate::codec::base64_decode;
use crate::codec::base64_decoded;
use crate::errors::ErrorSource;
use crate::errors::TridentError;
use crate::scval::ScVal;
use crate::scval::ScView;
use crate::text::dec;
use crate::text::push_dec;
use crate::xdr::lift;
use crate::xdr::read_scval;
use crate::xdr::xdr_scval;

verus! {

broadcast use vstd::string::group_string_axioms;

/// How deep the reads of one value may nest. A container takes four to five nested reads, so this
/// admits the hundred container levels that the Soroban host itself permits.
pub const MAX_SCVAL_DEPTH: u32 = 500;

/// The most bytes that the XDR of one value may have.
pub const MAX_SCVAL_BYTES: usize = 2_097_152;

/// The most characters that the base64 text of one value may have: four for each three bytes, and
/// four for the padding.
pub const MAX_SCVAL_B64_LEN: usize = 2_796_208;

/// The length of a text in bytes of UTF-8.
pub open spec fn byte_len(s: Seq<char>) -> usize {
    vstd::utf8::encode_utf8(s).len() as usize
}

/// The message for an input that is too long.
pub open spec fn too_large_text(n: nat, unit: Seq<char>, limit: nat) -> Seq<char> {
    "event XDR too large: "@ + dec(n) + unit + dec(limit) + ")"@
}

fn too_large(n: usize, unit: &str, limit: usize) -> (r: TridentError)
    ensures
        r is ParseError,
        r.cause().text() == too_large_text(n as nat, unit@, limit as nat),
{
    let mut text = "event XDR too large: ".to_owned();
    push_dec(&mut text, n as u128);
    text.append(unit);
    push_dec(&mut text, limit as u128);
    text.append(")");
    TridentError::parse(ErrorSource::msg(text))
}

/// What is made of the outcome of reading a value out of `len` bytes: a value that leaves bytes
/// behind is refused.
pub open spec fn accepted(read: Result<(ScView, nat), Seq<char>>, len: nat) -> Result<
    ScView,
    Seq<char>,
> {
    match read {
        Err(e) => Err("XDR decode ScVal"@ + ": "@ + e),
        Ok((v, consumed)) => if consumed == len {
            Ok(v)
        } else {
            Err("trailing bytes after ScVal: consumed "@ + dec(consumed) + " of "@ + dec(len))
        },
    }
}

/// Accepts the outcome of reading a value out of `len` bytes.
pub fn accept_scval(read: Result<(ScVal, usize), String>, len: usize) -> (r: Result<
    ScVal,
    TridentError,
>)
    ensures
        ({
            let outcome = accepted(
                match read {
                    Ok((v, consumed)) => Ok((v@, consumed as nat)),
                    Err(e) => Err(e@),
                },
                len as nat,
            );
            match r {
                Ok(v) => outcome == Ok::<ScView, Seq<char>>(v@),
                Err(e) => e is ParseError && outcome == Err::<ScView, Seq<char>>(e.cause().text()),
            }
        }),
{
    match read {
        Err(e) => Err(
            TridentError::parse(ErrorSource::msg(e).context("XDR decode ScVal".to_owned())),
        ),
        Ok((v, consumed)) => {
            if consumed != len {
                let mut text = "trailing bytes after ScVal: consumed ".to_owned();
                push_dec(&mut text, consumed as u128);
                text.append(" of ");
                push_dec(&mut text, len as u128);
                return Err(TridentError::parse(ErrorSource::msg(text)));
            }
            Ok(v)
        },
    }
}

/// What the XDR of a value decodes to: the value, or the text of the cause of the error.
pub open spec fn bytes_decoded(bytes: Seq<u8>) -> Result<ScView, Seq<char>> {
    if bytes.len() > MAX_SCVAL_BYTES {
        Err(too_large_text(bytes.len(), " bytes (limit "@, MAX_SCVAL_BYTES as nat))
    } else {
        accepted(xdr_scval(bytes, MAX_SCVAL_DEPTH as nat), bytes.len())
    }
}

/// Whether `x` is `w` with bytes cut off at the end, or with bytes added there.
pub open spec fn cuts_or_lengthens(x: Seq<u8>, w: Seq<u8>) -> bool {
    if x.len() < w.len() {
        x == w.take(x.len() as int)
    } else {
        x.len() > w.len() && w == x.take(w.len() as int)
    }
}

/// Decodes the XDR of a value. Of bytes that decode, neither a part from the front nor what is
/// made by adding to them decodes.
pub fn decode_scval_bytes(bytes: &[u8]) -> (r: Result<ScVal, TridentError>)
    ensures
        match r {
            Ok(v) => bytes_decoded(bytes@) == Ok::<ScView, Seq<char>>(v@),
            Err(e) => e is ParseError && bytes_decoded(bytes@) == Err::<ScView, Seq<char>>(
                e.cause().text(),
            ),
        },
        r is Ok ==> forall|x: Seq<u8>| #[trigger]
            cuts_or_lengthens(x, bytes@) ==> bytes_decoded(x) is Err,
{
    if bytes.len() > MAX_SCVAL_BYTES {
        return Err(too_large(bytes.len(), " bytes (limit ", MAX_SCVAL_BYTES));
    }
    let read = match read_scval(bytes, MAX_SCVAL_DEPTH) {
        Ok((v, n)) => {
            proof {
                let depth = MAX_SCVAL_DEPTH as nat;
                if n == bytes@.len() {
                    assert forall|x: Seq<u8>| #[trigger] cuts_or_lengthens(x, bytes@) implies (
                    bytes_decoded(x) is Err) by {
                        if x.len() < bytes@.len() {
                            assert(xdr_scval(bytes@.take(x.len() as int), depth) is Err);
                        } else {
                            let rest = x.skip(n as int);
                            assert(x =~= bytes@.take(n as int) + rest);
                            assert(xdr_scval(bytes@.take(n as int) + rest, depth) is Ok);
                        }
                    }
                }
            }
            Ok((lift(v), n))
        },
        Err(e) => Err(e),
    };
    accept_scval(read, bytes.len())
}

/// What the base64 text of a value decodes to: the value, or the text of the cause of the error.
pub open spec fn scval_decoded(b64: Seq<char>) -> Result<ScView, Seq<char>> {
    if byte_len(b64) > MAX_SCVAL_B64_LEN {
        Err(too_large_text(byte_len(b64) as nat, " base64 chars (limit "@, MAX_SCVAL_B64_LEN as nat))
    } else {
        match base64_decoded(b64) {
            Err(e) => Err("base64 decode"@ + ": "@ + e),
            Ok(bytes) => bytes_decoded(bytes),
        }
    }
}

/// Decodes the base64 XDR of a value.
///
/// The size of the input and the depth of the value are bounded, and a value that leaves bytes
/// behind is refused. Of a text that decodes, no text of fewer of its bytes from the front or of
/// more bytes behind them decodes.
pub fn decode_scval(b64: &str) -> (r: Result<ScVal, TridentError>)
    ensures
        match r {
            Ok(v) => scval_decoded(b64@) == Ok::<ScView, Seq<char>>(v@),
            Err(e) => e is ParseError && scval_decoded(b64@) == Err::<ScView, Seq<char>>(
                e.cause().text(),
            ),
        },
        r is Ok ==> base64_decoded(b64@) is Ok && forall|other: Seq<char>|
            (#[trigger] base64_decoded(other)) is Ok && cuts_or_lengthens(
                base64_decoded(other)->Ok_0,
                base64_decoded(b64@)->Ok_0,
            ) ==> scval_decoded(other) is Err,
{
    let len: usize = b64.len();
    if len > MAX_SCVAL_B64_LEN {
        return Err(too_large(len, " base64 chars (limit ", MAX_SCVAL_B64_LEN));
    }
    match base64_decode(b64) {
        Err(e) => Err(TridentError::parse(ErrorSource::msg(e).context("base64 decode".to_owned()))),
        Ok(bytes) => decode_scval_bytes(&bytes),
    }
}

/// The padded base64 text of bytes within their limit is within the limit of texts: what the bytes
/// decode to, the text decodes to.
pub proof fn encodings_within_the_limit_are_read(b64: Seq<char>, bytes: Seq<u8>)
    requires
        base64_decoded(b64) == Ok::<Seq<u8>, Seq<char>>(bytes),
        vstd::utf8::is_ascii_chars(b64),
        b64.len() == 4 * ((bytes.len() + 2) / 3),
        bytes.len() <= MAX_SCVAL_BYTES,
    ensures
        byte_len(b64) <= MAX_SCVAL_B64_LEN,
        scval_decoded(b64) == bytes_decoded(bytes),
{
    vstd::utf8::is_ascii_chars_encode_utf8(b64);
}

/// A value comes out of a text only where the text is base64 of XDR within the limits that the
/// value takes up to the last byte.
pub proof fn decoding_accepts_nothing_but_whole_values(b64: Seq<char>)
    ensures
        scval_decoded(b64) is Ok <==> {
            &&& byte_len(b64) <= MAX_SCVAL_B64_LEN
            &&& base64_decoded(b64) is Ok
            &&& base64_decoded(b64)->Ok_0.len() <= MAX_SCVAL_BYTES
            &&& xdr_scval(base64_decoded(b64)->Ok_0, MAX_SCVAL_DEPTH as nat) is Ok
            &&& xdr_scval(base64_decoded(b64)->Ok_0, MAX_SCVAL_DEPTH as nat)->Ok_0.1
                == base64_decoded(b64)->Ok_0.len()
        },
{
}

/// What cannot be decoded is refused with what is wrong with it: its size as a text, that it is no
/// base64, its size as bytes, that it is no value, or that bytes are left behind the value.
pub proof fn refusals_name_what_is_wrong(
    b64: Seq<char>,
    bytes: Seq<u8>,
    v: ScView,
    consumed: nat,
    e: Seq<char>,
)
    ensures
        byte_len(b64) > 2_796_208 ==> scval_decoded(b64) == Err::<ScView, Seq<char>>(
            "event XDR too large: "@ + dec(byte_len(b64) as nat) + " base64 chars (limit "@ + dec(
                2_796_208,
            ) + ")"@,
        ),
        byte_len(b64) <= 2_796_208 && base64_decoded(b64) == Err::<Seq<u8>, Seq<char>>(e)
            ==> scval_decoded(b64) == Err::<ScView, Seq<char>>("base64 decode"@ + ": "@ + e),
        bytes.len() > 2_097_152 ==> bytes_decoded(bytes) == Err::<ScView, Seq<char>>(
            "event XDR too large: "@ + dec(bytes.len()) + " bytes (limit "@ + dec(2_097_152)
                + ")"@,
        ),
        bytes.len() <= 2_097_152 && xdr_scval(bytes, 500) == Err::<(ScView, nat), Seq<char>>(e)
            ==> bytes_decoded(bytes) == Err::<ScView, Seq<char>>(
            "XDR decode ScVal"@ + ": "@ + e,
        ),
        bytes.len() <= 2_097_152 && xdr_scval(bytes, 500) == Ok::<(ScView, nat), Seq<char>>(
            (v, consumed),
        ) && consumed != bytes.len() ==> bytes_decoded(bytes) == Err::<ScView, Seq<char>>(
            "trailing bytes after ScVal: consumed "@ + dec(consumed) + " of "@ + dec(bytes.len()),
        ),
        bytes.len() <= 2_097_152 && xdr_scval(bytes, 500) == Ok::<(ScView, nat), Seq<char>>(
            (v, bytes.len()),
        ) ==> bytes_decoded(bytes) == Ok::<ScView, Seq<char>>(v),
{
}

} // verus!
