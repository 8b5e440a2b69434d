//! The JSON rendering of Soroban values, as event bodies hold it.
use vstd::prelude::*;

use crate::codec::hex_encode;
use crate::codec::hex_text;
use crate::codec::utf8_lossy;
use crate::codec::utf8_text;
use crate::json::push_item;
use crate::json::set_member;
use crate::json::Json;
use crate::json::JsonMember;
use crate::json::JsonView;
use crate::scval::address_text;
use crate::scval::error_text;
use crate::scval::error_to_string;
use crate::scval::i128_of;
use crate::scval::sc_text;
use crate::scval::scaddress_to_string;
use crate::scval::scval_to_string;
use crate::scval::u128_of;
use crate::scval::ContractExecutable;
use crate::scval::ExecutableView;
use crate::scval::ScEntryView;
use crate::scval::ScMapEntry;
use crate::scval::ScVal;
use crate::scval::ScView;
use crate::text::dec;
use crate::text::dec_int;
use crate::text::dec_int_text;
use crate::text::dec_text;
use crate::wide::i256_text;
use crate::wide::u128_value;
use crate::wide::u256_text;
use crate::wide::u256_value;

verus! {

broadcast use vstd::string::group_string_axioms;

/// The JSON rendering of a value: numbers that fit 64 bits stay numbers, wider ones become
/// decimal strings, and bytes become lower-case hexadecimal.
pub open spec fn sc_json(v: ScView) -> JsonView
    decreases v,
{
    match v {
        ScView::Void => JsonView::Null,
        ScView::Bool(b) => JsonView::Bool(b),
        ScView::Symbol(b) => JsonView::String(utf8_lossy(b)),
        ScView::String(b) => JsonView::String(utf8_lossy(b)),
        ScView::U32(n) => JsonView::Number(n as int),
        ScView::I32(n) => JsonView::Number(n as int),
        ScView::U64(n) => JsonView::Number(n as int),
        ScView::I64(n) => JsonView::Number(n as int),
        ScView::U128 { hi, lo } => {
            let n = u128_value(hi as int, lo as int);
            if n <= u64::MAX {
                JsonView::Number(n)
            } else {
                JsonView::String(dec(n as nat))
            }
        },
        ScView::I128 { hi, lo } => {
            let n = u128_value(hi as int, lo as int);
            if i64::MIN <= n <= i64::MAX {
                JsonView::Number(n)
            } else {
                JsonView::String(dec_int(n))
            }
        },
        ScView::U256 { hi_hi, hi_lo, lo_hi, lo_lo } => JsonView::String(
            dec(u256_value(hi_hi as int, hi_lo as int, lo_hi as int, lo_lo as int) as nat),
        ),
        ScView::I256 { hi_hi, hi_lo, lo_hi, lo_lo } => JsonView::String(
            dec_int(u256_value(hi_hi as int, hi_lo as int, lo_hi as int, lo_lo as int)),
        ),
        ScView::Bytes(b) => JsonView::String(hex_text(b)),
        ScView::Address(a) => JsonView::String(address_text(a)),
        ScView::Timepoint(n) => JsonView::String(dec(n as nat)),
        ScView::Duration(n) => JsonView::String(dec(n as nat)),
        ScView::Error(e) => JsonView::String(error_text(e)),
        ScView::Vec(Some(items)) => JsonView::Array(items_json(items)),
        ScView::Vec(None) => JsonView::Array(Seq::empty()),
        ScView::Mapping(Some(entries)) => JsonView::Object(entries_json(entries)),
        ScView::Mapping(None) => JsonView::Object(Map::empty()),
        ScView::ContractInstance { executable, storage } => JsonView::Object(
            Map::empty().insert("executable"@, executable_json(executable)).insert(
                "storage"@,
                match storage {
                    Some(entries) => JsonView::Object(entries_json(entries)),
                    None => JsonView::Null,
                },
            ),
        ),
        ScView::LedgerKeyContractInstance => JsonView::String("ledger_key_contract_instance"@),
        ScView::LedgerKeyNonce(n) => JsonView::Object(
            Map::empty().insert("nonce"@, JsonView::String(dec_int(n as int))),
        ),
    }
}

/// The renderings of the items.
pub open spec fn items_json(items: Seq<ScView>) -> Seq<JsonView>
    decreases items,
{
    if items.len() == 0 {
        Seq::empty()
    } else {
        items_json(items.drop_last()).push(sc_json(items.last()))
    }
}

/// The object whose members are named by the texts of the keys: where two keys have the same
/// text, the later entry counts.
pub open spec fn entries_json(entries: Seq<ScEntryView>) -> Map<Seq<char>, JsonView>
    decreases entries,
{
    if entries.len() == 0 {
        Map::empty()
    } else {
        entries_json(entries.drop_last()).insert(
            sc_text(entries.last().key),
            sc_json(entries.last().val),
        )
    }
}

/// The rendering of what a contract instance runs.
pub open spec fn executable_json(e: ExecutableView) -> JsonView {
    match e {
        ExecutableView::Wasm(hash) => JsonView::Object(
            Map::empty().insert("type"@, JsonView::String("wasm"@)).insert(
                "wasm_hash"@,
                JsonView::String(hex_text(hash)),
            ),
        ),
        ExecutableView::StellarAsset => JsonView::Object(
            Map::empty().insert("type"@, JsonView::String("stellar_asset"@)),
        ),
    }
}

fn executable_to_json(e: &ContractExecutable) -> (r: Json)
    ensures
        r@ == executable_json(e@),
{
    let mut members: Vec<JsonMember> = Vec::new();
    match e {
        ContractExecutable::Wasm(hash) => {
            set_member(&mut members, "type".to_owned(), Json::String("wasm".to_owned()));
            set_member(&mut members, "wasm_hash".to_owned(), Json::String(hex_encode(hash)));
        },
        ContractExecutable::StellarAsset => {
            set_member(&mut members, "type".to_owned(), Json::String("stellar_asset".to_owned()));
        },
    }
    Json::Object(members)
}

/// The JSON rendering of a value.
pub fn scval_to_json(val: &ScVal) -> (r: Json)
    ensures
        r@ == sc_json(val@),
    decreases val,
{
    match val {
        ScVal::Void => Json::Null,
        ScVal::Bool(b) => Json::Bool(*b),
        ScVal::Symbol(b) => Json::String(utf8_text(b)),
        ScVal::String(b) => Json::String(utf8_text(b)),
        ScVal::U32(n) => Json::Number(*n as i128),
        ScVal::I32(n) => Json::Number(*n as i128),
        ScVal::U64(n) => Json::Number(*n as i128),
        ScVal::I64(n) => Json::Number(*n as i128),
        ScVal::U128 { hi, lo } => {
            let n: u128 = u128_of(*hi, *lo);
            if n <= u64::MAX as u128 {
                Json::Number(n as i128)
            } else {
                Json::String(dec_text(n))
            }
        },
        ScVal::I128 { hi, lo } => {
            let n: i128 = i128_of(*hi, *lo);
            if n >= i64::MIN as i128 && n <= i64::MAX as i128 {
                Json::Number(n)
            } else {
                Json::String(dec_int_text(n))
            }
        },
        ScVal::U256 { hi_hi, hi_lo, lo_hi, lo_lo } => Json::String(
            u256_text(*hi_hi, *hi_lo, *lo_hi, *lo_lo),
        ),
        ScVal::I256 { hi_hi, hi_lo, lo_hi, lo_lo } => Json::String(
            i256_text(*hi_hi, *hi_lo, *lo_hi, *lo_lo),
        ),
        ScVal::Bytes(b) => Json::String(hex_encode(b)),
        ScVal::Address(a) => Json::String(scaddress_to_string(a)),
        ScVal::Timepoint(n) => Json::String(dec_text(*n as u128)),
        ScVal::Duration(n) => Json::String(dec_text(*n as u128)),
        ScVal::Error(e) => Json::String(error_to_string(e)),
        ScVal::Vec(None) => {
            assert(crate::json::json_views(Seq::<Json>::empty()) =~= Seq::<JsonView>::empty());
            Json::Array(Vec::new())
        },
        ScVal::Vec(Some(items)) => {
            let mut out: Vec<Json> = Vec::new();
            let mut i: usize = 0;
            assert(items@.take(0) =~= Seq::<ScVal>::empty());
            while i < items.len()
                invariant
                    i <= items.len(),
                    *val == ScVal::Vec(Some(*items)),
                    crate::json::json_views(out@) == items_json(
                        crate::scval::sc_views(items@.take(i as int)),
                    ),
                decreases items.len() - i,
            {
                proof {
                    assert(items@.take(i + 1).drop_last() =~= items@.take(i as int));
                    let now = crate::scval::sc_views(items@.take(i + 1));
                    assert(now.drop_last() =~= crate::scval::sc_views(items@.take(i as int)));
                    assert(now.last() == items@[i as int]@);
                    assert(decreases_to!(*val => val->Vec_0));
                    assert(decreases_to!(val->Vec_0 => val->Vec_0->0));
                    assert(decreases_to!(*items => items@));
                    assert(decreases_to!(items@ => items@[i as int]));
                }
                let item = scval_to_json(&items[i]);
                push_item(&mut out, item);
                i = i + 1;
            }
            assert(items@.take(i as int) =~= items@);
            Json::Array(out)
        },
        ScVal::Mapping(None) => {
            assert(crate::json::members_view(Seq::<JsonMember>::empty()) =~= Map::<
                Seq<char>,
                JsonView,
            >::empty());
            Json::Object(Vec::new())
        },
        ScVal::Mapping(Some(entries)) => {
            proof {
                assert(decreases_to!(*val => val->Mapping_0));
                assert(decreases_to!(val->Mapping_0 => val->Mapping_0->0));
            }
            Json::Object(scmap_to_json(entries))
        },
        ScVal::ContractInstance { executable, storage } => {
            let mut members: Vec<JsonMember> = Vec::new();
            set_member(&mut members, "executable".to_owned(), executable_to_json(executable));
            let stored = match storage {
                Some(entries) => {
                    proof {
                        assert(decreases_to!(*val => val->ContractInstance_storage));
                        assert(decreases_to!(val->ContractInstance_storage =>
                            val->ContractInstance_storage->0));
                    }
                    Json::Object(scmap_to_json(entries))
                },
                None => Json::Null,
            };
            set_member(&mut members, "storage".to_owned(), stored);
            Json::Object(members)
        },
        ScVal::LedgerKeyContractInstance => Json::String(
            "ledger_key_contract_instance".to_owned(),
        ),
        ScVal::LedgerKeyNonce(n) => {
            let mut members: Vec<JsonMember> = Vec::new();
            set_member(&mut members, "nonce".to_owned(), Json::String(dec_int_text(*n as i128)));
            Json::Object(members)
        },
    }
}

/// The members of the object that a map value becomes.
fn scmap_to_json(entries: &Vec<ScMapEntry>) -> (r: Vec<JsonMember>)
    ensures
        crate::json::members_view(r@) == entries_json(crate::scval::entry_views(entries@)),
    decreases entries,
{
    let mut out: Vec<JsonMember> = Vec::new();
    let mut i: usize = 0;
    assert(entries@.take(0) =~= Seq::<ScMapEntry>::empty());
    while i < entries.len()
        invariant
            i <= entries.len(),
            crate::json::members_view(out@) == entries_json(
                crate::scval::entry_views(entries@.take(i as int)),
            ),
        decreases entries.len() - i,
    {
        proof {
            assert(entries@.take(i + 1).drop_last() =~= entries@.take(i as int));
            let now = crate::scval::entry_views(entries@.take(i + 1));
            assert(now.drop_last() =~= crate::scval::entry_views(entries@.take(i as int)));
            assert(decreases_to!(*entries => entries@));
            assert(decreases_to!(entries@ => entries@[i as int]));
            assert(decreases_to!(entries@[i as int] => entries@[i as int].val));
        }
        let name = scval_to_string(&entries[i].key);
        let value = scval_to_json(&entries[i].val);
        set_member(&mut out, name, value);
        i = i + 1;
    }
    assert(entries@.take(i as int) =~= entries@);
    out
}

/// A whole number stays a number where 64 bits hold it, and is a decimal text where they do not; one of
/// 256 bits, a time and a duration are always a text.
pub proof fn numbers_keep_their_value(a: u64, b: u64, c: u64, d: u64, n: i64, small: u32, m: i32)
    ensures
        sc_json(ScView::U32(small)) == JsonView::Number(small as int),
        sc_json(ScView::I32(m)) == JsonView::Number(m as int),
        sc_json(ScView::U64(a)) == JsonView::Number(a as int),
        sc_json(ScView::I64(n)) == JsonView::Number(n as int),
        sc_json(ScView::Timepoint(a)) == JsonView::String(dec_int(a as int)),
        sc_json(ScView::Duration(a)) == JsonView::String(dec_int(a as int)),
        sc_json(ScView::U128 { hi: 0, lo: b }) == JsonView::Number(b as int),
        a > 0 ==> sc_json(ScView::U128 { hi: a, lo: b }) == JsonView::String(
            dec_int(a * 0x1_0000_0000_0000_0000 + b),
        ),
        ({
            let v = n * 0x1_0000_0000_0000_0000 + b;
            sc_json(ScView::I128 { hi: n, lo: b }) == if -0x8000_0000_0000_0000 <= v
                <= 0x7fff_ffff_ffff_ffff {
                JsonView::Number(v)
            } else {
                JsonView::String(dec_int(v))
            }
        }),
        sc_json(ScView::U256 { hi_hi: a, hi_lo: b, lo_hi: c, lo_lo: d }) == JsonView::String(
            dec_int(
                ((a * 0x1_0000_0000_0000_0000 + b) * 0x1_0000_0000_0000_0000 + c)
                    * 0x1_0000_0000_0000_0000 + d,
            ),
        ),
        sc_json(ScView::I256 { hi_hi: n, hi_lo: b, lo_hi: c, lo_lo: d }) == JsonView::String(
            dec_int(
                ((n * 0x1_0000_0000_0000_0000 + b) * 0x1_0000_0000_0000_0000 + c)
                    * 0x1_0000_0000_0000_0000 + d,
            ),
        ),
{
}

/// Texts, bytes, addresses and errors are the same text in JSON as on their own; a truth value stays
/// one, and nothing is null.
pub proof fn plain_values_keep_their_text(v: ScView)
    ensures
        v is Symbol || v is String || v is Bytes || v is Address || v is Error || v is U256 || v is I256
            || v is Timepoint || v is Duration || v is LedgerKeyContractInstance ==> sc_json(v)
            == JsonView::String(sc_text(v)),
        v matches ScView::Bool(b) ==> sc_json(v) == JsonView::Bool(b),
        v is Void ==> sc_json(v) == JsonView::Null,
        v matches ScView::LedgerKeyNonce(n) ==> sc_json(v) == JsonView::Object(
            Map::<Seq<char>, JsonView>::empty().insert("nonce"@, JsonView::String(dec_int(n as int))),
        ),
        v == ScView::Vec(None) ==> sc_json(v) == JsonView::Array(Seq::empty()),
        v == ScView::Mapping(None) ==> sc_json(v) == JsonView::Object(Map::empty()),
{
}

/// A list becomes an array with the JSON of each item at its place.
pub proof fn lists_become_arrays(items: Seq<ScView>)
    ensures
        sc_json(ScView::Vec(Some(items))) == JsonView::Array(
            items.map_values(|v: ScView| sc_json(v)),
        ),
{
    lemma_items_json(items);
}

proof fn lemma_items_json(items: Seq<ScView>)
    ensures
        items_json(items) == items.map_values(|v: ScView| sc_json(v)),
    decreases items.len(),
{
    if items.len() > 0 {
        lemma_items_json(items.drop_last());
        assert(items_json(items) =~= items.map_values(|v: ScView| sc_json(v)));
    } else {
        assert(items_json(items) =~= items.map_values(|v: ScView| sc_json(v)));
    }
}

/// A map becomes an object that has a member for the text of each key and no others: the JSON of the
/// value of the last entry with that text.
pub proof fn maps_become_objects(entries: Seq<ScEntryView>, name: Seq<char>)
    ensures
        sc_json(ScView::Mapping(Some(entries))) is Object,
        ({
            let members = sc_json(ScView::Mapping(Some(entries)))->Object_0;
            &&& members.dom().contains(name) <==> exists|i: int|
                0 <= i < entries.len() && sc_text((#[trigger] entries[i]).key) == name
            &&& forall|i: int|
                0 <= i < entries.len() && sc_text((#[trigger] entries[i]).key) == name && (forall|
                    j: int,
                |
                    i < j < entries.len() ==> sc_text((#[trigger] entries[j]).key) != name)
                    ==> members[name] == sc_json(entries[i].val)
        }),
{
    lemma_entries_json(entries, name);
}

proof fn lemma_entries_json(entries: Seq<ScEntryView>, name: Seq<char>)
    ensures
        entries_json(entries).dom().contains(name) <==> exists|i: int|
            0 <= i < entries.len() && sc_text((#[trigger] entries[i]).key) == name,
        forall|i: int|
            0 <= i < entries.len() && sc_text((#[trigger] entries[i]).key) == name && (forall|j: int|
                i < j < entries.len() ==> sc_text((#[trigger] entries[j]).key) != name)
                ==> entries_json(entries)[name] == sc_json(entries[i].val),
    decreases entries.len(),
{
    if entries.len() > 0 {
        let rest = entries.drop_last();
        let n = entries.len() - 1;
        lemma_entries_json(rest, name);
        assert(entries.last() == entries[n]);
        if exists|i: int| 0 <= i < rest.len() && sc_text((#[trigger] rest[i]).key) == name {
            let i = choose|i: int| 0 <= i < rest.len() && sc_text((#[trigger] rest[i]).key) == name;
            assert(entries[i] == rest[i]);
        }
        if exists|i: int| 0 <= i < entries.len() && sc_text((#[trigger] entries[i]).key) == name {
            let i = choose|i: int|
                0 <= i < entries.len() && sc_text((#[trigger] entries[i]).key) == name;
            if i < n {
                assert(rest[i] == entries[i]);
            }
        }
        assert forall|i: int|
            0 <= i < entries.len() && sc_text((#[trigger] entries[i]).key) == name && (forall|j: int|
                i < j < entries.len() ==> sc_text((#[trigger] entries[j]).key) != name) implies entries_json(
            entries,
        )[name] == sc_json(entries[i].val) by {
            if i < n {
                assert(rest[i] == entries[i]);
                assert(sc_text(entries[n].key) != name);
                assert forall|j: int| i < j < rest.len() implies sc_text(
                    (#[trigger] rest[j]).key,
                ) != name by {
                    assert(rest[j] == entries[j]);
                }
            }
        }
    }
}

/// A contract instance becomes an object of what it runs and what it stores.
pub proof fn instances_become_objects(hash: Seq<u8>, storage: Option<Seq<ScEntryView>>)
    ensures
        ({
            let stored = match storage {
                Some(entries) => sc_json(ScView::Mapping(Some(entries))),
                None => JsonView::Null,
            };
            &&& sc_json(ScView::ContractInstance { executable: ExecutableView::Wasm(hash), storage })
                == JsonView::Object(
                Map::<Seq<char>, JsonView>::empty().insert(
                    "executable"@,
                    JsonView::Object(
                        Map::<Seq<char>, JsonView>::empty().insert(
                            "type"@,
                            JsonView::String("wasm"@),
                        ).insert("wasm_hash"@, JsonView::String(hex_text(hash))),
                    ),
                ).insert("storage"@, stored),
            )
            &&& sc_json(
                ScView::ContractInstance { executable: ExecutableView::StellarAsset, storage },
            ) == JsonView::Object(
                Map::<Seq<char>, JsonView>::empty().insert(
                    "executable"@,
                    JsonView::Object(
                        Map::<Seq<char>, JsonView>::empty().insert(
                            "type"@,
                            JsonView::String("stellar_asset"@),
                        ),
                    ),
                ).insert("storage"@, stored),
            )
        }),
{
}

} // verus!
