//! Soroban values, as topics and bodies of events hold them, and their renderings as text and as
//! JSON.
use vstd::prelude::*;

use crate::codec::hex_encode;
use crate::codec::hex_text;
use crate::codec::utf8_lossy;
use crate::codec::utf8_text;
use crate::strkey::account_strkey;
use crate::strkey::claimable_strkey;
use crate::strkey::contract_strkey;
use crate::strkey::muxed_strkey;
use crate::strkey::pool_strkey;
use crate::strkey::strkey_account;
use crate::strkey::strkey_claimable;
use crate::strkey::strkey_contract;
use crate::strkey::strkey_muxed;
use crate::strkey::strkey_pool;
use crate::text::dec;
use crate::text::dec_int;
use crate::text::dec_int_text;
use crate::text::dec_text;
use crate::text::join;
use crate::wide::i256_text;
use crate::wide::u128_value;
use crate::wide::u256_text;
use crate::wide::u256_value;

verus! {

broadcast use vstd::string::group_string_axioms;

/// The reason that the host gives with an error of its own.
#[derive(Debug, Clone, Copy, PartialEq, Eq, Structural)]
pub enum ScErrorCode {
    ArithDomain,
    IndexBounds,
    InvalidInput,
    MissingValue,
    ExistingValue,
    ExceededLimit,
    InvalidAction,
    InternalError,
    UnexpectedType,
    UnexpectedSize,
}

/// An error value: a contract's own number, or a part of the host with its reason.
#[derive(Debug, Clone, Copy, PartialEq, Eq, Structural)]
pub enum ScError {
    Contract(u32),
    WasmVm(ScErrorCode),
    Context(ScErrorCode),
    Storage(ScErrorCode),
    Object(ScErrorCode),
    Crypto(ScErrorCode),
    Events(ScErrorCode),
    Budget(ScErrorCode),
    Value(ScErrorCode),
    Auth(ScErrorCode),
}

/// The address of an account, a contract or another holder of value.
#[derive(Debug, Clone, Copy, PartialEq, Eq)]
pub enum ScAddress {
    Account([u8; 32]),
    Contract([u8; 32]),
    MuxedAccount { id: u64, ed25519: [u8; 32] },
    ClaimableBalance([u8; 32]),
    LiquidityPool([u8; 32]),
}

/// What an address is.
pub enum AddressView {
    Account(Seq<u8>),
    Contract(Seq<u8>),
    MuxedAccount { id: u64, ed25519: Seq<u8> },
    ClaimableBalance(Seq<u8>),
    LiquidityPool(Seq<u8>),
}

impl View for ScAddress {
    type V = AddressView;

    open spec fn view(&self) -> AddressView {
        match *self {
            ScAddress::Account(key) => AddressView::Account(key@),
            ScAddress::Contract(hash) => AddressView::Contract(hash@),
            ScAddress::MuxedAccount { id, ed25519 } => AddressView::MuxedAccount {
                id,
                ed25519: ed25519@,
            },
            ScAddress::ClaimableBalance(hash) => AddressView::ClaimableBalance(hash@),
            ScAddress::LiquidityPool(hash) => AddressView::LiquidityPool(hash@),
        }
    }
}

/// What a contract instance runs.
#[derive(Debug, Clone, Copy, PartialEq, Eq)]
pub enum ContractExecutable {
    Wasm([u8; 32]),
    StellarAsset,
}

/// What a contract instance runs.
pub enum ExecutableView {
    Wasm(Seq<u8>),
    StellarAsset,
}

impl View for ContractExecutable {
    type V = ExecutableView;

    open spec fn view(&self) -> ExecutableView {
        match *self {
            ContractExecutable::Wasm(hash) => ExecutableView::Wasm(hash@),
            ContractExecutable::StellarAsset => ExecutableView::StellarAsset,
        }
    }
}

/// A Soroban value.
#[allow(inconsistent_fields)]
#[derive(Debug, PartialEq, Eq)]
pub enum ScVal {
    Bool(bool),
    Void,
    Error(ScError),
    U32(u32),
    I32(i32),
    U64(u64),
    I64(i64),
    Timepoint(u64),
    Duration(u64),
    U128 { hi: u64, lo: u64 },
    I128 { hi: i64, lo: u64 },
    U256 { hi_hi: u64, hi_lo: u64, lo_hi: u64, lo_lo: u64 },
    I256 { hi_hi: i64, hi_lo: u64, lo_hi: u64, lo_lo: u64 },
    Bytes(Vec<u8>),
    String(Vec<u8>),
    Symbol(Vec<u8>),
    Vec(Option<Vec<ScVal>>),
    Mapping(Option<Vec<ScMapEntry>>),
    Address(ScAddress),
    ContractInstance { executable: ContractExecutable, storage: Option<Vec<ScMapEntry>> },
    LedgerKeyContractInstance,
    LedgerKeyNonce(i64),
}

/// An entry of a map value.
#[derive(Debug, PartialEq, Eq)]
pub struct ScMapEntry {
    pub key: ScVal,
    pub val: ScVal,
}

/// What a Soroban value is.
#[allow(inconsistent_fields)]
pub enum ScView {
    Bool(bool),
    Void,
    Error(ScError),
    U32(u32),
    I32(i32),
    U64(u64),
    I64(i64),
    Timepoint(u64),
    Duration(u64),
    U128 { hi: u64, lo: u64 },
    I128 { hi: i64, lo: u64 },
    U256 { hi_hi: u64, hi_lo: u64, lo_hi: u64, lo_lo: u64 },
    I256 { hi_hi: i64, hi_lo: u64, lo_hi: u64, lo_lo: u64 },
    Bytes(Seq<u8>),
    String(Seq<u8>),
    Symbol(Seq<u8>),
    Vec(Option<Seq<ScView>>),
    Mapping(Option<Seq<ScEntryView>>),
    Address(AddressView),
    ContractInstance { executable: ExecutableView, storage: Option<Seq<ScEntryView>> },
    LedgerKeyContractInstance,
    LedgerKeyNonce(i64),
}

/// What an entry of a map value is.
pub struct ScEntryView {
    pub key: ScView,
    pub val: ScView,
}

/// What a `ScVal` stands for.
pub open spec fn sc_view(v: ScVal) -> ScView
    decreases v,
{
    match v {
        ScVal::Bool(b) => ScView::Bool(b),
        ScVal::Void => ScView::Void,
        ScVal::Error(e) => ScView::Error(e),
        ScVal::U32(n) => ScView::U32(n),
        ScVal::I32(n) => ScView::I32(n),
        ScVal::U64(n) => ScView::U64(n),
        ScVal::I64(n) => ScView::I64(n),
        ScVal::Timepoint(n) => ScView::Timepoint(n),
        ScVal::Duration(n) => ScView::Duration(n),
        ScVal::U128 { hi, lo } => ScView::U128 { hi, lo },
        ScVal::I128 { hi, lo } => ScView::I128 { hi, lo },
        ScVal::U256 { hi_hi, hi_lo, lo_hi, lo_lo } => ScView::U256 { hi_hi, hi_lo, lo_hi, lo_lo },
        ScVal::I256 { hi_hi, hi_lo, lo_hi, lo_lo } => ScView::I256 { hi_hi, hi_lo, lo_hi, lo_lo },
        ScVal::Bytes(b) => ScView::Bytes(b@),
        ScVal::String(b) => ScView::String(b@),
        ScVal::Symbol(b) => ScView::Symbol(b@),
        ScVal::Vec(None) => ScView::Vec(None),
        ScVal::Vec(Some(items)) => ScView::Vec(Some(sc_views(items@))),
        ScVal::Mapping(None) => ScView::Mapping(None),
        ScVal::Mapping(Some(entries)) => ScView::Mapping(Some(entry_views(entries@))),
        ScVal::Address(a) => ScView::Address(a@),
        ScVal::ContractInstance { executable, storage: None } => ScView::ContractInstance {
            executable: executable@,
            storage: None,
        },
        ScVal::ContractInstance { executable, storage: Some(entries) } => ScView::ContractInstance {
            executable: executable@,
            storage: Some(entry_views(entries@)),
        },
        ScVal::LedgerKeyContractInstance => ScView::LedgerKeyContractInstance,
        ScVal::LedgerKeyNonce(n) => ScView::LedgerKeyNonce(n),
    }
}

/// What a sequence of values stands for.
pub open spec fn sc_views(items: Seq<ScVal>) -> Seq<ScView>
    decreases items,
{
    if items.len() == 0 {
        Seq::empty()
    } else {
        sc_views(items.drop_last()).push(sc_view(items.last()))
    }
}

/// How many containers the deepest part of a value lies in.
pub open spec fn nesting(v: ScView) -> nat
    decreases v,
{
    match v {
        ScView::Vec(Some(items)) => items_nesting(items) + 1,
        ScView::Mapping(Some(entries)) => entries_nesting(entries) + 1,
        ScView::ContractInstance { storage: Some(entries), .. } => entries_nesting(entries) + 1,
        _ => 0,
    }
}

/// How deep the deepest of some values nests.
pub open spec fn items_nesting(items: Seq<ScView>) -> nat
    decreases items,
{
    if items.len() == 0 {
        0
    } else {
        deeper(items_nesting(items.drop_last()), nesting(items.last()))
    }
}

/// How deep the deepest of the keys and values of some entries nests.
pub open spec fn entries_nesting(entries: Seq<ScEntryView>) -> nat
    decreases entries,
{
    if entries.len() == 0 {
        0
    } else {
        deeper(
            entries_nesting(entries.drop_last()),
            deeper(nesting(entries.last().key), nesting(entries.last().val)),
        )
    }
}

/// The larger of two depths.
pub open spec fn deeper(a: nat, b: nat) -> nat {
    if a >= b {
        a
    } else {
        b
    }
}

/// What a sequence of map entries stands for.
pub open spec fn entry_views(entries: Seq<ScMapEntry>) -> Seq<ScEntryView>
    decreases entries,
{
    if entries.len() == 0 {
        Seq::empty()
    } else {
        entry_views(entries.drop_last()).push(
            ScEntryView { key: sc_view(entries.last().key), val: sc_view(entries.last().val) },
        )
    }
}

impl View for ScVal {
    type V = ScView;

    open spec fn view(&self) -> ScView {
        sc_view(*self)
    }
}

/// The values of a prefix are the prefix of the values.
pub proof fn lemma_sc_views(items: Seq<ScVal>)
    ensures
        sc_views(items).len() == items.len(),
        forall|i: int| 0 <= i < items.len() ==> #[trigger] sc_views(items)[i] == sc_view(items[i]),
    decreases items.len(),
{
    if items.len() > 0 {
        lemma_sc_views(items.drop_last());
        assert forall|i: int| 0 <= i < items.len() implies #[trigger] sc_views(items)[i] == sc_view(
            items[i],
        ) by {
            if i < items.len() - 1 {
                assert(sc_views(items)[i] == sc_views(items.drop_last())[i]);
                assert(items.drop_last()[i] == items[i]);
            }
        }
    }
}

/// The entries of a prefix are the prefix of the entries.
pub proof fn lemma_entry_views(entries: Seq<ScMapEntry>)
    ensures
        entry_views(entries).len() == entries.len(),
        forall|i: int|
            0 <= i < entries.len() ==> #[trigger] entry_views(entries)[i] == (ScEntryView {
                key: sc_view(entries[i].key),
                val: sc_view(entries[i].val),
            }),
    decreases entries.len(),
{
    if entries.len() > 0 {
        lemma_entry_views(entries.drop_last());
        assert forall|i: int| 0 <= i < entries.len() implies #[trigger] entry_views(entries)[i]
            == (ScEntryView {
            key: sc_view(entries[i].key),
            val: sc_view(entries[i].val),
        }) by {
            if i < entries.len() - 1 {
                assert(entry_views(entries)[i] == entry_views(entries.drop_last())[i]);
                assert(entries.drop_last()[i] == entries[i]);
            }
        }
    }
}


/// The name of a reason.
pub open spec fn code_text(c: ScErrorCode) -> Seq<char> {
    match c {
        ScErrorCode::ArithDomain => "ArithDomain"@,
        ScErrorCode::IndexBounds => "IndexBounds"@,
        ScErrorCode::InvalidInput => "InvalidInput"@,
        ScErrorCode::MissingValue => "MissingValue"@,
        ScErrorCode::ExistingValue => "ExistingValue"@,
        ScErrorCode::ExceededLimit => "ExceededLimit"@,
        ScErrorCode::InvalidAction => "InvalidAction"@,
        ScErrorCode::InternalError => "InternalError"@,
        ScErrorCode::UnexpectedType => "UnexpectedType"@,
        ScErrorCode::UnexpectedSize => "UnexpectedSize"@,
    }
}

fn code_str(c: ScErrorCode) -> (r: &'static str)
    ensures
        r@ == code_text(c),
{
    match c {
        ScErrorCode::ArithDomain => "ArithDomain",
        ScErrorCode::IndexBounds => "IndexBounds",
        ScErrorCode::InvalidInput => "InvalidInput",
        ScErrorCode::MissingValue => "MissingValue",
        ScErrorCode::ExistingValue => "ExistingValue",
        ScErrorCode::ExceededLimit => "ExceededLimit",
        ScErrorCode::InvalidAction => "InvalidAction",
        ScErrorCode::InternalError => "InternalError",
        ScErrorCode::UnexpectedType => "UnexpectedType",
        ScErrorCode::UnexpectedSize => "UnexpectedSize",
    }
}

/// The text of an error value: its kind, with the number or the reason in brackets.
pub open spec fn error_text(e: ScError) -> Seq<char> {
    match e {
        ScError::Contract(n) => "Contract("@ + dec(n as nat) + ")"@,
        ScError::WasmVm(c) => "WasmVm("@ + code_text(c) + ")"@,
        ScError::Context(c) => "Context("@ + code_text(c) + ")"@,
        ScError::Storage(c) => "Storage("@ + code_text(c) + ")"@,
        ScError::Object(c) => "Object("@ + code_text(c) + ")"@,
        ScError::Crypto(c) => "Crypto("@ + code_text(c) + ")"@,
        ScError::Events(c) => "Events("@ + code_text(c) + ")"@,
        ScError::Budget(c) => "Budget("@ + code_text(c) + ")"@,
        ScError::Value(c) => "Value("@ + code_text(c) + ")"@,
        ScError::Auth(c) => "Auth("@ + code_text(c) + ")"@,
    }
}

fn bracketed(head: &str, inner: &str) -> (r: String)
    ensures
        r@ == head@ + inner@ + ")"@,
{
    let mut out = head.to_owned();
    out.append(inner);
    out.append(")");
    out
}

/// The text of an error value.
pub fn error_to_string(e: &ScError) -> (r: String)
    ensures
        r@ == error_text(*e),
{
    match e {
        ScError::Contract(n) => bracketed("Contract(", dec_text(*n as u128).as_str()),
        ScError::WasmVm(c) => bracketed("WasmVm(", code_str(*c)),
        ScError::Context(c) => bracketed("Context(", code_str(*c)),
        ScError::Storage(c) => bracketed("Storage(", code_str(*c)),
        ScError::Object(c) => bracketed("Object(", code_str(*c)),
        ScError::Crypto(c) => bracketed("Crypto(", code_str(*c)),
        ScError::Events(c) => bracketed("Events(", code_str(*c)),
        ScError::Budget(c) => bracketed("Budget(", code_str(*c)),
        ScError::Value(c) => bracketed("Value(", code_str(*c)),
        ScError::Auth(c) => bracketed("Auth(", code_str(*c)),
    }
}

/// The strkey of an address.
pub open spec fn address_text(a: AddressView) -> Seq<char> {
    match a {
        AddressView::Account(key) => strkey_account(key),
        AddressView::Contract(hash) => strkey_contract(hash),
        AddressView::MuxedAccount { id, ed25519 } => strkey_muxed(id, ed25519),
        AddressView::ClaimableBalance(hash) => strkey_claimable(hash),
        AddressView::LiquidityPool(hash) => strkey_pool(hash),
    }
}

/// Renders any address as its strkey.
pub fn scaddress_to_string(addr: &ScAddress) -> (r: String)
    ensures
        r@ == address_text(addr@),
        r@.len() >= 56,
{
    match addr {
        ScAddress::Account(key) => account_strkey(key),
        ScAddress::Contract(hash) => contract_strkey(hash),
        ScAddress::MuxedAccount { id, ed25519 } => muxed_strkey(*id, ed25519),
        ScAddress::ClaimableBalance(hash) => claimable_strkey(hash),
        ScAddress::LiquidityPool(hash) => pool_strkey(hash),
    }
}

/// The compact text of a value.
pub open spec fn sc_text(v: ScView) -> Seq<char>
    decreases v,
{
    match v {
        ScView::Symbol(b) => utf8_lossy(b),
        ScView::String(b) => utf8_lossy(b),
        ScView::Bool(b) => if b {
            "true"@
        } else {
            "false"@
        },
        ScView::Void => "void"@,
        ScView::U32(n) => dec(n as nat),
        ScView::I32(n) => dec_int(n as int),
        ScView::U64(n) => dec(n as nat),
        ScView::I64(n) => dec_int(n as int),
        ScView::U128 { hi, lo } => dec(u128_value(hi as int, lo as int) as nat),
        ScView::I128 { hi, lo } => dec_int(u128_value(hi as int, lo as int)),
        ScView::U256 { hi_hi, hi_lo, lo_hi, lo_lo } => dec(
            u256_value(hi_hi as int, hi_lo as int, lo_hi as int, lo_lo as int) as nat,
        ),
        ScView::I256 { hi_hi, hi_lo, lo_hi, lo_lo } => dec_int(
            u256_value(hi_hi as int, hi_lo as int, lo_hi as int, lo_lo as int),
        ),
        ScView::Bytes(b) => hex_text(b),
        ScView::Address(a) => address_text(a),
        ScView::Timepoint(n) => dec(n as nat),
        ScView::Duration(n) => dec(n as nat),
        ScView::Error(e) => error_text(e),
        ScView::Vec(Some(items)) => "["@ + items_text(items) + "]"@,
        ScView::Vec(None) => "Vec(None)"@,
        ScView::Mapping(Some(entries)) => "{"@ + entries_text(entries) + "}"@,
        ScView::Mapping(None) => "Map(None)"@,
        ScView::ContractInstance { executable, .. } => match executable {
            ExecutableView::Wasm(hash) => "contract_instance(wasm:"@ + hex_text(hash) + ")"@,
            ExecutableView::StellarAsset => "contract_instance(stellar_asset)"@,
        },
        ScView::LedgerKeyContractInstance => "ledger_key_contract_instance"@,
        ScView::LedgerKeyNonce(n) => dec_int(n as int),
    }
}

/// The texts of the items, with a comma between each two.
pub open spec fn items_text(items: Seq<ScView>) -> Seq<char>
    decreases items,
{
    if items.len() == 0 {
        Seq::empty()
    } else if items.len() == 1 {
        sc_text(items[0])
    } else {
        items_text(items.drop_last()) + ","@ + sc_text(items.last())
    }
}

/// The entries as `key:value`, with a comma between each two.
pub open spec fn entries_text(entries: Seq<ScEntryView>) -> Seq<char>
    decreases entries,
{
    if entries.len() == 0 {
        Seq::empty()
    } else {
        (if entries.len() == 1 {
            Seq::empty()
        } else {
            entries_text(entries.drop_last()) + ","@
        }) + sc_text(entries.last().key) + ":"@ + sc_text(entries.last().val)
    }
}

/// Whether a value holds text or bytes of length nought.
pub open spec fn is_blank(v: ScView) -> bool {
    match v {
        ScView::Symbol(b) => b.len() == 0,
        ScView::String(b) => b.len() == 0,
        ScView::Bytes(b) => b.len() == 0,
        _ => false,
    }
}

/// Every value whose text this library writes itself has one.
proof fn lemma_text_is_not_empty(v: ScView)
    requires
        !(v is Symbol) && !(v is String) && !(v is Address),
        !is_blank(v),
    ensures
        sc_text(v).len() > 0,
{
    reveal_strlit("true");
    reveal_strlit("false");
    reveal_strlit("void");
    reveal_strlit("Vec(None)");
    reveal_strlit("Map(None)");
    reveal_strlit("[");
    reveal_strlit("{");
    reveal_strlit(")");
    reveal_strlit("contract_instance(stellar_asset)");
    reveal_strlit("ledger_key_contract_instance");
}

/// The compact text of a value, as topics hold it. No value but one of empty text or bytes is
/// written as the empty text.
pub fn scval_to_string(val: &ScVal) -> (r: String)
    ensures
        r@ == sc_text(val@),
        r@.len() == 0 ==> is_blank(val@),
    decreases val,
{
    proof {
        if !(val@ is Symbol) && !(val@ is String) && !(val@ is Address) && !is_blank(val@) {
            lemma_text_is_not_empty(val@);
        }
    }
    match val {
        ScVal::Symbol(b) => utf8_text(b),
        ScVal::String(b) => utf8_text(b),
        ScVal::Bool(b) => if *b {
            "true".to_owned()
        } else {
            "false".to_owned()
        },
        ScVal::Void => "void".to_owned(),
        ScVal::U32(n) => dec_text(*n as u128),
        ScVal::I32(n) => dec_int_text(*n as i128),
        ScVal::U64(n) => dec_text(*n as u128),
        ScVal::I64(n) => dec_int_text(*n as i128),
        ScVal::U128 { hi, lo } => dec_text(u128_of(*hi, *lo)),
        ScVal::I128 { hi, lo } => dec_int_text(i128_of(*hi, *lo)),
        ScVal::U256 { hi_hi, hi_lo, lo_hi, lo_lo } => u256_text(*hi_hi, *hi_lo, *lo_hi, *lo_lo),
        ScVal::I256 { hi_hi, hi_lo, lo_hi, lo_lo } => i256_text(*hi_hi, *hi_lo, *lo_hi, *lo_lo),
        ScVal::Bytes(b) => hex_encode(b),
        ScVal::Address(a) => scaddress_to_string(a),
        ScVal::Timepoint(n) => dec_text(*n as u128),
        ScVal::Duration(n) => dec_text(*n as u128),
        ScVal::Error(e) => error_to_string(e),
        ScVal::Vec(None) => "Vec(None)".to_owned(),
        ScVal::Vec(Some(items)) => {
            let mut out = "[".to_owned();
            let mut i: usize = 0;
            assert(items@.take(0) =~= Seq::<ScVal>::empty());
            assert("["@ + Seq::<char>::empty() =~= "["@);
            while i < items.len()
                invariant
                    i <= items.len(),
                    *val == ScVal::Vec(Some(*items)),
                    out@ == "["@ + items_text(sc_views(items@.take(i as int))),
                decreases items.len() - i,
            {
                proof {
                    lemma_sc_views(items@.take(i as int));
                    assert(items@.take(i + 1).drop_last() =~= items@.take(i as int));
                    assert(sc_views(items@.take(i + 1)).drop_last() =~= sc_views(
                        items@.take(i as int),
                    ));
                }
                if i > 0 {
                    out.append(",");
                }
                proof {
                    assert(decreases_to!(*val => val->Vec_0));
                    assert(decreases_to!(val->Vec_0 => val->Vec_0->0));
                    assert(decreases_to!(*items => items@));
                    assert(decreases_to!(items@ => items@[i as int]));
                }
                let text = scval_to_string(&items[i]);
                out.append(text.as_str());
                proof {
                    let now = sc_views(items@.take(i + 1));
                    assert(now.last() == items@[i as int]@);
                    if i == 0 {
                        assert(items_text(sc_views(items@.take(0))) =~= Seq::<char>::empty());
                    }
                    assert(out@ =~= "["@ + items_text(now));
                }
                i = i + 1;
            }
            assert(items@.take(i as int) =~= items@);
            out.append("]");
            out
        },
        ScVal::Mapping(None) => "Map(None)".to_owned(),
        ScVal::Mapping(Some(entries)) => {
            let mut out = "{".to_owned();
            let mut i: usize = 0;
            assert(entries@.take(0) =~= Seq::<ScMapEntry>::empty());
            assert("{"@ + Seq::<char>::empty() =~= "{"@);
            while i < entries.len()
                invariant
                    i <= entries.len(),
                    *val == ScVal::Mapping(Some(*entries)),
                    out@ == "{"@ + entries_text(entry_views(entries@.take(i as int))),
                decreases entries.len() - i,
            {
                proof {
                    lemma_entry_views(entries@.take(i as int));
                    assert(entries@.take(i + 1).drop_last() =~= entries@.take(i as int));
                    assert(entry_views(entries@.take(i + 1)).drop_last() =~= entry_views(
                        entries@.take(i as int),
                    ));
                }
                if i > 0 {
                    out.append(",");
                }
                proof {
                    assert(decreases_to!(*val => val->Mapping_0));
                    assert(decreases_to!(val->Mapping_0 => val->Mapping_0->0));
                    assert(decreases_to!(*entries => entries@));
                    assert(decreases_to!(entries@ => entries@[i as int]));
                    assert(decreases_to!(entries@[i as int] => entries@[i as int].key));
                    assert(decreases_to!(entries@[i as int] => entries@[i as int].val));
                }
                let key = scval_to_string(&entries[i].key);
                out.append(key.as_str());
                out.append(":");
                let text = scval_to_string(&entries[i].val);
                out.append(text.as_str());
                proof {
                    let now = entry_views(entries@.take(i + 1));
                    if i == 0 {
                        assert(entries_text(entry_views(entries@.take(0)))
                            =~= Seq::<char>::empty());
                    }
                    assert(out@ =~= "{"@ + entries_text(now));
                }
                i = i + 1;
            }
            assert(entries@.take(i as int) =~= entries@);
            out.append("}");
            out
        },
        ScVal::ContractInstance { executable, .. } => match executable {
            ContractExecutable::Wasm(hash) => {
                bracketed("contract_instance(wasm:", hex_encode(hash).as_str())
            },
            ContractExecutable::StellarAsset => "contract_instance(stellar_asset)".to_owned(),
        },
        ScVal::LedgerKeyContractInstance => "ledger_key_contract_instance".to_owned(),
        ScVal::LedgerKeyNonce(n) => dec_int_text(*n as i128),
    }
}

/// The number made of a high and a low limb.
pub fn u128_of(hi: u64, lo: u64) -> (r: u128)
    ensures
        r == u128_value(hi as int, lo as int),
{
    (hi as u128) * crate::wide::LIMB + lo as u128
}

/// The signed number made of a high and a low limb.
pub fn i128_of(hi: i64, lo: u64) -> (r: i128)
    ensures
        r == u128_value(hi as int, lo as int),
{
    (hi as i128) * 0x1_0000_0000_0000_0000 + lo as i128
}

/// Each kind of address is written with the strkey of that kind, of its own bytes.
pub proof fn addresses_are_written_by_their_kind(key: Seq<u8>, id: u64)
    ensures
        address_text(AddressView::Account(key)) == strkey_account(key),
        address_text(AddressView::Contract(key)) == strkey_contract(key),
        address_text(AddressView::MuxedAccount { id, ed25519: key }) == strkey_muxed(id, key),
        address_text(AddressView::ClaimableBalance(key)) == strkey_claimable(key),
        address_text(AddressView::LiquidityPool(key)) == strkey_pool(key),
{
}

/// What an address shows is the bytes that it holds, under the same kind.
pub proof fn addresses_show_their_bytes(key: [u8; 32], id: u64)
    ensures
        ScAddress::Account(key)@ == AddressView::Account(key@),
        ScAddress::Contract(key)@ == AddressView::Contract(key@),
        (ScAddress::MuxedAccount { id, ed25519: key })@ == (AddressView::MuxedAccount {
            id,
            ed25519: key@,
        }),
        ScAddress::ClaimableBalance(key)@ == AddressView::ClaimableBalance(key@),
        ScAddress::LiquidityPool(key)@ == AddressView::LiquidityPool(key@),
        ContractExecutable::Wasm(key)@ == ExecutableView::Wasm(key@),
        ContractExecutable::StellarAsset@ == ExecutableView::StellarAsset,
{
}

/// Every whole number is written in full in decimal, whatever its width: the limbs of a wide one
/// count from the most significant down, and a signed one has its sign.
pub proof fn numbers_are_written_in_full(a: u64, b: u64, c: u64, d: u64, n: i64, small: u32, m: i32)
    ensures
        sc_text(ScView::U32(small)) == dec_int(small as int),
        sc_text(ScView::I32(m)) == dec_int(m as int),
        sc_text(ScView::U64(a)) == dec_int(a as int),
        sc_text(ScView::I64(n)) == dec_int(n as int),
        sc_text(ScView::Timepoint(a)) == dec_int(a as int),
        sc_text(ScView::Duration(a)) == dec_int(a as int),
        sc_text(ScView::LedgerKeyNonce(n)) == dec_int(n as int),
        sc_text(ScView::U128 { hi: a, lo: b }) == dec_int(a * 0x1_0000_0000_0000_0000 + b),
        sc_text(ScView::I128 { hi: n, lo: b }) == dec_int(n * 0x1_0000_0000_0000_0000 + b),
        sc_text(ScView::U256 { hi_hi: a, hi_lo: b, lo_hi: c, lo_lo: d }) == dec_int(
            ((a * 0x1_0000_0000_0000_0000 + b) * 0x1_0000_0000_0000_0000 + c)
                * 0x1_0000_0000_0000_0000 + d,
        ),
        sc_text(ScView::I256 { hi_hi: n, hi_lo: b, lo_hi: c, lo_lo: d }) == dec_int(
            ((n * 0x1_0000_0000_0000_0000 + b) * 0x1_0000_0000_0000_0000 + c)
                * 0x1_0000_0000_0000_0000 + d,
        ),
{
}

/// Texts are written as they are, bytes in hexadecimal, addresses as strkeys, and what has no content
/// of its own as a word.
pub proof fn plain_values_are_written_as_they_are(bytes: Seq<u8>, address: AddressView, error: u32)
    ensures
        sc_text(ScView::Symbol(bytes)) == utf8_lossy(bytes),
        sc_text(ScView::String(bytes)) == utf8_lossy(bytes),
        sc_text(ScView::Bytes(bytes)) == hex_text(bytes),
        sc_text(ScView::Address(address)) == address_text(address),
        sc_text(ScView::Bool(true)) == "true"@,
        sc_text(ScView::Bool(false)) == "false"@,
        sc_text(ScView::Void) == "void"@,
        sc_text(ScView::Vec(None)) == "Vec(None)"@,
        sc_text(ScView::Mapping(None)) == "Map(None)"@,
        sc_text(ScView::LedgerKeyContractInstance) == "ledger_key_contract_instance"@,
        sc_text(ScView::Error(ScError::Contract(error))) == "Contract("@ + dec_int(error as int) + ")"@,
{
}

/// A contract instance is written by what it runs, whatever it stores.
pub proof fn instances_are_written_by_what_they_run(
    hash: Seq<u8>,
    storage: Option<Seq<ScEntryView>>,
)
    ensures
        sc_text(ScView::ContractInstance { executable: ExecutableView::Wasm(hash), storage })
            == "contract_instance(wasm:"@ + hex_text(hash) + ")"@,
        sc_text(ScView::ContractInstance { executable: ExecutableView::StellarAsset, storage })
            == "contract_instance(stellar_asset)"@,
{
}

/// An error of the host is written as its part with the name of the reason in brackets.
pub proof fn host_errors_are_written_with_their_reason(c: ScErrorCode)
    ensures
        error_text(ScError::WasmVm(c)) == "WasmVm("@ + code_text(c) + ")"@,
        error_text(ScError::Context(c)) == "Context("@ + code_text(c) + ")"@,
        error_text(ScError::Storage(c)) == "Storage("@ + code_text(c) + ")"@,
        error_text(ScError::Object(c)) == "Object("@ + code_text(c) + ")"@,
        error_text(ScError::Crypto(c)) == "Crypto("@ + code_text(c) + ")"@,
        error_text(ScError::Events(c)) == "Events("@ + code_text(c) + ")"@,
        error_text(ScError::Budget(c)) == "Budget("@ + code_text(c) + ")"@,
        error_text(ScError::Value(c)) == "Value("@ + code_text(c) + ")"@,
        error_text(ScError::Auth(c)) == "Auth("@ + code_text(c) + ")"@,
        code_text(ScErrorCode::ArithDomain) == "ArithDomain"@,
        code_text(ScErrorCode::IndexBounds) == "IndexBounds"@,
        code_text(ScErrorCode::InvalidInput) == "InvalidInput"@,
        code_text(ScErrorCode::MissingValue) == "MissingValue"@,
        code_text(ScErrorCode::ExistingValue) == "ExistingValue"@,
        code_text(ScErrorCode::ExceededLimit) == "ExceededLimit"@,
        code_text(ScErrorCode::InvalidAction) == "InvalidAction"@,
        code_text(ScErrorCode::InternalError) == "InternalError"@,
        code_text(ScErrorCode::UnexpectedType) == "UnexpectedType"@,
        code_text(ScErrorCode::UnexpectedSize) == "UnexpectedSize"@,
{
}

/// The text of a list holds the texts of all its items in their order, with a comma between each two,
/// in square brackets.
pub proof fn lists_are_written_in_order(items: Seq<ScView>)
    ensures
        sc_text(ScView::Vec(Some(items))) == "["@ + join(
            items.map_values(|v: ScView| sc_text(v)),
            ","@,
        ) + "]"@,
{
    lemma_items_text(items);
}

proof fn lemma_items_text(items: Seq<ScView>)
    ensures
        items_text(items) == join(items.map_values(|v: ScView| sc_text(v)), ","@),
    decreases items.len(),
{
    let texts = items.map_values(|v: ScView| sc_text(v));
    if items.len() > 1 {
        lemma_items_text(items.drop_last());
        assert(texts.drop_last() =~= items.drop_last().map_values(|v: ScView| sc_text(v)));
    }
}

/// The text of a map holds the texts of all its entries in their order, key before value with a colon
/// between them and a comma between each two entries, in braces.
pub proof fn maps_are_written_in_order(entries: Seq<ScEntryView>)
    ensures
        sc_text(ScView::Mapping(Some(entries))) == "{"@ + join(
            entries.map_values(|e: ScEntryView| sc_text(e.key) + ":"@ + sc_text(e.val)),
            ","@,
        ) + "}"@,
{
    lemma_entries_text(entries);
}

proof fn lemma_entries_text(entries: Seq<ScEntryView>)
    ensures
        entries_text(entries) == join(
            entries.map_values(|e: ScEntryView| sc_text(e.key) + ":"@ + sc_text(e.val)),
            ","@,
        ),
    decreases entries.len(),
{
    let texts = entries.map_values(|e: ScEntryView| sc_text(e.key) + ":"@ + sc_text(e.val));
    if entries.len() == 1 {
        assert(Seq::<char>::empty() + sc_text(entries.last().key) + ":"@ + sc_text(
            entries.last().val,
        ) =~= texts[0]);
    } else if entries.len() > 1 {
        lemma_entries_text(entries.drop_last());
        assert(texts.drop_last() =~= entries.drop_last().map_values(
            |e: ScEntryView| sc_text(e.key) + ":"@ + sc_text(e.val),
        ));
        assert(join(texts.drop_last(), ","@) + ","@ + sc_text(entries.last().key) + ":"@ + sc_text(
            entries.last().val,
        ) =~= join(texts.drop_last(), ","@) + ","@ + texts.last());
    }
}

} // verus!
