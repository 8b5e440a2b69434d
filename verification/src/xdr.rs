//! Soroban values out of XDR: what the XDR reader hands back is opened one level at a time and
//! lifted into [`ScVal`].
use stellar_xdr::curr::AccountId;
use stellar_xdr::curr::ClaimableBalanceId;
use stellar_xdr::curr::ContractExecutable as XdrExecutable;
use stellar_xdr::curr::Limited;
use stellar_xdr::curr::Limits;
use stellar_xdr::curr::PublicKey;
use stellar_xdr::curr::ReadXdr;
use stellar_xdr::curr::ScAddress as XdrAddress;
use stellar_xdr::curr::ScError as XdrError;
use stellar_xdr::curr::ScMapEntry as XdrMapEntry;
use stellar_xdr::curr::ScVal as XdrScVal;
use vstd::prelude::*;

use crate::scval::ContractExecutable;
use crate::scval::ScAddress;
use crate::scval::ScEntryView;
use crate::scval::ScError;
use crate::scval::ScErrorCode;
use crate::scval::ScMapEntry;
use crate::scval::ScVal;
use crate::scval::ScView;

verus! {

broadcast use vstd::string::group_string_axioms;

/// A value as the XDR reader hands it back.
#[verifier::external_type_specification]
#[verifier::external_body]
pub struct ExXdrScVal(XdrScVal);

/// A map entry as the XDR reader hands it back.
#[verifier::external_type_specification]
#[verifier::external_body]
pub struct ExXdrMapEntry(XdrMapEntry);

/// What a value that the XDR reader handed back holds.
pub uninterp spec fn scval_contents(v: XdrScVal) -> ScView;

/// What a map entry that the XDR reader handed back holds.
pub uninterp spec fn entry_contents(e: XdrMapEntry) -> ScEntryView;

/// What a sequence of values holds.
pub open spec fn all_contents(items: Seq<XdrScVal>) -> Seq<ScView> {
    Seq::new(items.len(), |i: int| scval_contents(items[i]))
}

/// What a sequence of map entries holds.
pub open spec fn all_entries(entries: Seq<XdrMapEntry>) -> Seq<ScEntryView> {
    Seq::new(entries.len(), |i: int| entry_contents(entries[i]))
}

/// What the XDR reader makes of some bytes when it may nest `depth` reads: the value and the
/// number of bytes that it took, or the text of the error.
pub uninterp spec fn xdr_scval(bytes: Seq<u8>, depth: nat) -> Result<(ScView, nat), Seq<char>>;

/// `ScVal::read_xdr` of the `stellar_xdr` crate, limited to `depth` nested reads and to the bytes
/// that are there. The error is handed on as its text. The reader goes through the bytes once and
/// from the front: with fewer bytes than a value takes it fails, and what stands behind the value
/// makes no difference.
#[verifier::external_body]
pub(crate) fn read_scval(bytes: &[u8], depth: u32) -> (r: Result<
    (XdrScVal, usize),
    String,
>)
    requires
        depth <= 500,
    ensures
        match r {
            Ok((v, n)) => xdr_scval(bytes@, depth as nat) == Ok::<(ScView, nat), Seq<char>>(
                (scval_contents(v), n as nat),
            ) && n <= bytes@.len() && (forall|k: int|
                0 <= k < n ==> (#[trigger] xdr_scval(bytes@.take(k), depth as nat)) is Err) && (
            forall|rest: Seq<u8>| #[trigger]
                xdr_scval(bytes@.take(n as int) + rest, depth as nat) == Ok::<
                    (ScView, nat),
                    Seq<char>,
                >((scval_contents(v), n as nat))),
            Err(e) => xdr_scval(bytes@, depth as nat) == Err::<(ScView, nat), Seq<char>>(e@),
        },
{
    let mut cursor = std::io::Cursor::new(bytes);
    let limits = Limits { depth, len: bytes.len() };
    match XdrScVal::read_xdr(&mut Limited::new(&mut cursor, limits)) {
        Ok(v) => Ok((v, cursor.position() as usize)),
        Err(e) => Err(format!("{:#}", anyhow::Error::new(e))),
    }
}

/// The variants of `stellar_xdr`'s `ScVal` with at most 64 bits: booleans, the empty value and
/// the small integers. Any other value is handed back.
#[verifier::external_body]
pub(crate) fn open_small(v: XdrScVal) -> (r: Result<ScVal, XdrScVal>)
    ensures
        match r {
            Ok(s) => scval_contents(v) == s@,
            Err(same) => same == v && !(scval_contents(v) is Bool) && !(scval_contents(v) is Void)
                && !(scval_contents(v) is U32) && !(scval_contents(v) is I32) && !(scval_contents(v)
                is U64) && !(scval_contents(v) is I64),
        },
{
    match v {
        XdrScVal::Bool(b) => Ok(ScVal::Bool(b)),
        XdrScVal::Void => Ok(ScVal::Void),
        XdrScVal::U32(n) => Ok(ScVal::U32(n)),
        XdrScVal::I32(n) => Ok(ScVal::I32(n)),
        XdrScVal::U64(n) => Ok(ScVal::U64(n)),
        XdrScVal::I64(n) => Ok(ScVal::I64(n)),
        other => Err(other),
    }
}

/// The variants of `stellar_xdr`'s `ScVal` that hold a time or stand for a ledger key. Any other
/// value is handed back.
#[verifier::external_body]
pub(crate) fn open_moment(v: XdrScVal) -> (r: Result<
    ScVal,
    XdrScVal,
>)
    ensures
        match r {
            Ok(s) => scval_contents(v) == s@,
            Err(same) => same == v && !(scval_contents(v) is Timepoint) && !(scval_contents(v)
                is Duration) && !(scval_contents(v) is LedgerKeyContractInstance)
                && !(scval_contents(v) is LedgerKeyNonce),
        },
{
    match v {
        XdrScVal::Timepoint(t) => Ok(ScVal::Timepoint(t.0)),
        XdrScVal::Duration(d) => Ok(ScVal::Duration(d.0)),
        XdrScVal::LedgerKeyContractInstance => Ok(ScVal::LedgerKeyContractInstance),
        XdrScVal::LedgerKeyNonce(key) => Ok(ScVal::LedgerKeyNonce(key.nonce)),
        other => Err(other),
    }
}

/// The variants of `stellar_xdr`'s `ScVal` that hold a 128-bit or a 256-bit integer in limbs. Any
/// other value is handed back.
#[verifier::external_body]
pub(crate) fn open_wide(v: XdrScVal) -> (r: Result<ScVal, XdrScVal>)
    ensures
        match r {
            Ok(s) => scval_contents(v) == s@,
            Err(same) => same == v && !(scval_contents(v) is U128) && !(scval_contents(v) is I128)
                && !(scval_contents(v) is U256) && !(scval_contents(v) is I256),
        },
{
    match v {
        XdrScVal::U128(p) => Ok(ScVal::U128 { hi: p.hi, lo: p.lo }),
        XdrScVal::I128(p) => Ok(ScVal::I128 { hi: p.hi, lo: p.lo }),
        XdrScVal::U256(p) => Ok(
            ScVal::U256 { hi_hi: p.hi_hi, hi_lo: p.hi_lo, lo_hi: p.lo_hi, lo_lo: p.lo_lo },
        ),
        XdrScVal::I256(p) => Ok(
            ScVal::I256 { hi_hi: p.hi_hi, hi_lo: p.hi_lo, lo_hi: p.lo_hi, lo_lo: p.lo_lo },
        ),
        other => Err(other),
    }
}

/// The variants of `stellar_xdr`'s `ScVal` that hold bytes. Any other value is handed back.
#[verifier::external_body]
pub(crate) fn open_bytes(v: XdrScVal) -> (r: Result<
    ScVal,
    XdrScVal,
>)
    ensures
        match r {
            Ok(s) => scval_contents(v) == s@,
            Err(same) => same == v && !(scval_contents(v) is Bytes) && !(scval_contents(v)
                is String) && !(scval_contents(v) is Symbol),
        },
{
    match v {
        XdrScVal::Bytes(b) => Ok(ScVal::Bytes(b.0.into_vec())),
        XdrScVal::String(s) => Ok(ScVal::String(s.0.into_vec())),
        XdrScVal::Symbol(s) => Ok(ScVal::Symbol(s.0.into_vec())),
        other => Err(other),
    }
}

/// The reason with the given number.
pub open spec fn code_of(n: u32) -> ScErrorCode {
    if n == 0 {
        ScErrorCode::ArithDomain
    } else if n == 1 {
        ScErrorCode::IndexBounds
    } else if n == 2 {
        ScErrorCode::InvalidInput
    } else if n == 3 {
        ScErrorCode::MissingValue
    } else if n == 4 {
        ScErrorCode::ExistingValue
    } else if n == 5 {
        ScErrorCode::ExceededLimit
    } else if n == 6 {
        ScErrorCode::InvalidAction
    } else if n == 7 {
        ScErrorCode::InternalError
    } else if n == 8 {
        ScErrorCode::UnexpectedType
    } else {
        ScErrorCode::UnexpectedSize
    }
}

/// The error with the given number of its kind, and its own number or that of its reason.
pub open spec fn error_of(kind: i32, n: u32) -> ScError {
    if kind == 0 {
        ScError::Contract(n)
    } else if kind == 1 {
        ScError::WasmVm(code_of(n))
    } else if kind == 2 {
        ScError::Context(code_of(n))
    } else if kind == 3 {
        ScError::Storage(code_of(n))
    } else if kind == 4 {
        ScError::Object(code_of(n))
    } else if kind == 5 {
        ScError::Crypto(code_of(n))
    } else if kind == 6 {
        ScError::Events(code_of(n))
    } else if kind == 7 {
        ScError::Budget(code_of(n))
    } else if kind == 8 {
        ScError::Value(code_of(n))
    } else {
        ScError::Auth(code_of(n))
    }
}

fn code_from(n: u32) -> (r: ScErrorCode)
    ensures
        r == code_of(n),
{
    match n {
        0 => ScErrorCode::ArithDomain,
        1 => ScErrorCode::IndexBounds,
        2 => ScErrorCode::InvalidInput,
        3 => ScErrorCode::MissingValue,
        4 => ScErrorCode::ExistingValue,
        5 => ScErrorCode::ExceededLimit,
        6 => ScErrorCode::InvalidAction,
        7 => ScErrorCode::InternalError,
        8 => ScErrorCode::UnexpectedType,
        _ => ScErrorCode::UnexpectedSize,
    }
}

fn error_from(kind: i32, n: u32) -> (r: ScError)
    ensures
        r == error_of(kind, n),
{
    match kind {
        0 => ScError::Contract(n),
        1 => ScError::WasmVm(code_from(n)),
        2 => ScError::Context(code_from(n)),
        3 => ScError::Storage(code_from(n)),
        4 => ScError::Object(code_from(n)),
        5 => ScError::Crypto(code_from(n)),
        6 => ScError::Events(code_from(n)),
        7 => ScError::Budget(code_from(n)),
        8 => ScError::Value(code_from(n)),
        _ => ScError::Auth(code_from(n)),
    }
}

/// The error of `stellar_xdr`'s `ScVal::Error`, as the discriminant of its kind and the number
/// that it carries: its own, or the discriminant of its reason. Any other value is handed back.
#[verifier::external_body]
pub(crate) fn open_error(v: XdrScVal) -> (r: Result<
    (i32, u32),
    XdrScVal,
>)
    ensures
        match r {
            Ok((kind, n)) => scval_contents(v) == ScView::Error(error_of(kind, n)),
            Err(same) => same == v && !(scval_contents(v) is Error),
        },
{
    match v {
        XdrScVal::Error(e) => {
            let kind = e.discriminant() as i32;
            match e {
                XdrError::Contract(n) => Ok((kind, n)),
                XdrError::WasmVm(c) | XdrError::Context(c) | XdrError::Storage(c)
                | XdrError::Object(c) | XdrError::Crypto(c) | XdrError::Events(c)
                | XdrError::Budget(c) | XdrError::Value(c) | XdrError::Auth(c) => {
                    Ok((kind, c as u32))
                },
            }
        },
        other => Err(other),
    }
}

/// The address of `stellar_xdr`'s `ScVal::Address`. Any other value is handed back.
#[verifier::external_body]
pub(crate) fn open_address(v: XdrScVal) -> (r: Result<
    ScAddress,
    XdrScVal,
>)
    ensures
        match r {
            Ok(a) => scval_contents(v) == ScView::Address(a@),
            Err(same) => same == v && !(scval_contents(v) is Address),
        },
{
    match v {
        XdrScVal::Address(a) => Ok(match a {
            XdrAddress::Account(AccountId(PublicKey::PublicKeyTypeEd25519(key))) => {
                ScAddress::Account(key.0)
            },
            XdrAddress::Contract(id) => ScAddress::Contract(id.0.0),
            XdrAddress::MuxedAccount(m) => ScAddress::MuxedAccount { id: m.id, ed25519: m.ed25519.0 },
            XdrAddress::ClaimableBalance(ClaimableBalanceId::ClaimableBalanceIdTypeV0(h)) => {
                ScAddress::ClaimableBalance(h.0)
            },
            XdrAddress::LiquidityPool(pool) => ScAddress::LiquidityPool(pool.0.0),
        }),
        other => Err(other),
    }
}

/// The items of `stellar_xdr`'s `ScVal::Vec`. Any other value is handed back.
#[verifier::external_body]
pub(crate) fn open_vec(v: XdrScVal) -> (r: Result<
    Option<Vec<XdrScVal>>,
    XdrScVal,
>)
    ensures
        match r {
            Ok(None) => scval_contents(v) == ScView::Vec(None),
            Ok(Some(items)) => scval_contents(v) == ScView::Vec(Some(all_contents(items@))),
            Err(same) => same == v && !(scval_contents(v) is Vec),
        },
{
    match v {
        XdrScVal::Vec(items) => Ok(items.map(|items| items.0.into_vec())),
        other => Err(other),
    }
}

/// The entries of `stellar_xdr`'s `ScVal::Map`. Any other value is handed back.
#[verifier::external_body]
pub(crate) fn open_map(v: XdrScVal) -> (r: Result<
    Option<Vec<XdrMapEntry>>,
    XdrScVal,
>)
    ensures
        match r {
            Ok(None) => scval_contents(v) == ScView::Mapping(None),
            Ok(Some(entries)) => scval_contents(v) == ScView::Mapping(Some(all_entries(entries@))),
            Err(same) => same == v && !(scval_contents(v) is Mapping),
        },
{
    match v {
        XdrScVal::Map(entries) => Ok(entries.map(|entries| entries.0.into_vec())),
        other => Err(other),
    }
}

/// The key and the value of `stellar_xdr`'s `ScMapEntry`.
#[verifier::external_body]
pub(crate) fn open_entry(e: XdrMapEntry) -> (r: (
    XdrScVal,
    XdrScVal,
))
    ensures
        entry_contents(e) == (ScEntryView { key: scval_contents(r.0), val: scval_contents(r.1) }),
{
    (e.key, e.val)
}

/// What `stellar_xdr`'s `ScVal::ContractInstance` runs and stores. Any other value is handed back.
#[verifier::external_body]
pub(crate) fn open_instance(v: XdrScVal) -> (r: Result<
    (ContractExecutable, Option<Vec<XdrMapEntry>>),
    XdrScVal,
>)
    ensures
        match r {
            Ok((executable, None)) => scval_contents(v) == (ScView::ContractInstance {
                executable: executable@,
                storage: None,
            }),
            Ok((executable, Some(entries))) => scval_contents(v) == (ScView::ContractInstance {
                executable: executable@,
                storage: Some(all_entries(entries@)),
            }),
            Err(same) => same == v && !(scval_contents(v) is ContractInstance),
        },
{
    match v {
        XdrScVal::ContractInstance(i) => {
            let executable = match i.executable {
                XdrExecutable::Wasm(hash) => ContractExecutable::Wasm(hash.0),
                XdrExecutable::StellarAsset => ContractExecutable::StellarAsset,
            };
            Ok((executable, i.storage.map(|entries| entries.0.into_vec())))
        },
        other => Err(other),
    }
}

/// Lifts a value that the XDR reader handed back.
pub(crate) fn lift(v: XdrScVal) -> (r: ScVal)
    ensures
        r@ == scval_contents(v),
    decreases scval_contents(v), 0nat,
{
    let v = match open_small(v) {
        Ok(s) => return s,
        Err(v) => v,
    };
    let v = match open_moment(v) {
        Ok(s) => return s,
        Err(v) => v,
    };
    let v = match open_wide(v) {
        Ok(s) => return s,
        Err(v) => v,
    };
    let v = match open_bytes(v) {
        Ok(s) => return s,
        Err(v) => v,
    };
    let v = match open_error(v) {
        Ok((kind, n)) => return ScVal::Error(error_from(kind, n)),
        Err(v) => v,
    };
    let v = match open_address(v) {
        Ok(a) => return ScVal::Address(a),
        Err(v) => v,
    };
    let ghost contents = scval_contents(v);
    let v = match open_vec(v) {
        Ok(None) => return ScVal::Vec(None),
        Ok(Some(items)) => {
            proof {
                assert(decreases_to!(contents => contents->Vec_0));
                assert(decreases_to!(contents->Vec_0 => contents->Vec_0->0));
            }
            return ScVal::Vec(Some(lift_items(items)));
        },
        Err(v) => v,
    };
    let v = match open_map(v) {
        Ok(None) => return ScVal::Mapping(None),
        Ok(Some(entries)) => {
            proof {
                assert(decreases_to!(contents => contents->Mapping_0));
                assert(decreases_to!(contents->Mapping_0 => contents->Mapping_0->0));
            }
            return ScVal::Mapping(Some(lift_entries(entries)));
        },
        Err(v) => v,
    };
    match open_instance(v) {
        Ok((executable, None)) => ScVal::ContractInstance { executable, storage: None },
        Ok((executable, Some(entries))) => {
            proof {
                assert(decreases_to!(contents => contents->ContractInstance_storage));
                assert(decreases_to!(contents->ContractInstance_storage =>
                    contents->ContractInstance_storage->0));
            }
            let stored = lift_entries(entries);
            ScVal::ContractInstance { executable, storage: Some(stored) }
        },
        Err(_) => vstd::pervasive::unreached(),
    }
}

fn lift_items(items: Vec<XdrScVal>) -> (r: Vec<ScVal>)
    ensures
        crate::scval::sc_views(r@) == all_contents(items@),
    decreases all_contents(items@), 1nat,
{
    let mut out: Vec<ScVal> = Vec::new();
    let ghost all = all_contents(items@);
    let ghost n = items@.len();
    for item in it: items
        invariant
            it.seq() == items@,
            n == items@.len(),
            all == all_contents(items@),
            out@.len() == it.index(),
            out@.len() <= n,
            crate::scval::sc_views(out@) == all.take(out@.len() as int),
    {
        let ghost k = out@.len() as int;
        let ghost before = out@;
        proof {
            assert(item == items@[k]);
            assert(decreases_to!(all => all[k]));
        }
        let lifted = lift(item);
        out.push(lifted);
        proof {
            assert(out@.drop_last() =~= before);
            assert(all.take(k + 1) =~= all.take(k).push(all[k]));
        }
    }
    assert(all.take(n as int) =~= all);
    out
}

fn lift_entries(entries: Vec<XdrMapEntry>) -> (r: Vec<ScMapEntry>)
    ensures
        crate::scval::entry_views(r@) == all_entries(entries@),
    decreases all_entries(entries@), 1nat,
{
    let mut out: Vec<ScMapEntry> = Vec::new();
    let ghost all = all_entries(entries@);
    let ghost n = entries@.len();
    for item in it: entries
        invariant
            it.seq() == entries@,
            n == entries@.len(),
            all == all_entries(entries@),
            out@.len() == it.index(),
            out@.len() <= n,
            crate::scval::entry_views(out@) == all.take(out@.len() as int),
    {
        let ghost k = out@.len() as int;
        let ghost before = out@;
        proof {
            assert(item == entries@[k]);
            assert(decreases_to!(all => all[k]));
            assert(decreases_to!(all[k] => all[k].key));
            assert(decreases_to!(all[k] => all[k].val));
        }
        let (key, val) = open_entry(item);
        let key = lift(key);
        let val = lift(val);
        out.push(ScMapEntry { key, val });
        proof {
            assert(out@.drop_last() =~= before);
            assert(all.take(k + 1) =~= all.take(k).push(all[k]));
        }
    }
    assert(all.take(n as int) =~= all);
    out
}

/// The reasons of an error go by these numbers, and so do its kinds; an error of a contract has a
/// number of its own.
pub proof fn errors_go_by_their_numbers(n: u32)
    ensures
        code_of(0) == ScErrorCode::ArithDomain,
        code_of(1) == ScErrorCode::IndexBounds,
        code_of(2) == ScErrorCode::InvalidInput,
        code_of(3) == ScErrorCode::MissingValue,
        code_of(4) == ScErrorCode::ExistingValue,
        code_of(5) == ScErrorCode::ExceededLimit,
        code_of(6) == ScErrorCode::InvalidAction,
        code_of(7) == ScErrorCode::InternalError,
        code_of(8) == ScErrorCode::UnexpectedType,
        code_of(9) == ScErrorCode::UnexpectedSize,
        error_of(0, n) == ScError::Contract(n),
        error_of(1, n) == ScError::WasmVm(code_of(n)),
        error_of(2, n) == ScError::Context(code_of(n)),
        error_of(3, n) == ScError::Storage(code_of(n)),
        error_of(4, n) == ScError::Object(code_of(n)),
        error_of(5, n) == ScError::Crypto(code_of(n)),
        error_of(6, n) == ScError::Events(code_of(n)),
        error_of(7, n) == ScError::Budget(code_of(n)),
        error_of(8, n) == ScError::Value(code_of(n)),
        error_of(9, n) == ScError::Auth(code_of(n)),
{
}

} // verus!
