//! Snapshots of what a token contract stores: the balances of the holders that an indexed page
//! touched.
use vstd::prelude::*;

use crate::codec::base64_encoded;
use crate::errors::TridentError;
use crate::indexer::ledger::balance_key;
use crate::indexer::ledger::balance_key_of;
use crate::indexer::ledger::decode_entry;
use crate::indexer::ledger::encode_key;
use crate::indexer::ledger::entry_of;
use crate::indexer::ledger::LedgerEntry;
use crate::indexer::ledger::LedgerEntryView;
use crate::indexer::rpc::client::LedgerEntryResult;
use crate::json::member_of;
use crate::json::set_member;
use crate::json::Json;
use crate::json::JsonMember;
use crate::json::JsonView;
use crate::scval::i128_of;
use crate::scval::nesting;
use crate::scval::ScVal;
use crate::scval::ScView;
use crate::text::dec_int;
use crate::text::dec_int_text;
use crate::text::same;
use crate::text::views;
use crate::wide::u128_value;
use crate::xdr::lift;
use crate::xdr::scval_contents;

verus! {

broadcast use vstd::string::group_string_axioms;

/// A value that a contract was seen to store.
#[derive(Debug)]
pub struct StorageObservation {
    pub storage_key: String,
    pub key_json: Json,
    pub value_json: Option<Json>,
}

/// A value that a contract was seen to store.
pub struct ObservationView {
    pub storage_key: Seq<char>,
    pub key_json: JsonView,
    pub value_json: Option<JsonView>,
}

impl View for StorageObservation {
    type V = ObservationView;

    open spec fn view(&self) -> ObservationView {
        ObservationView {
            storage_key: self.storage_key@,
            key_json: self.key_json@,
            value_json: match self.value_json {
                Some(v) => Some(v@),
                None => None,
            },
        }
    }
}

/// The keys of the balances of some holders, as the RPC takes them, or the message for the first
/// holder that has none.
pub open spec fn balance_keys_of(contract_id: Seq<char>, holders: Seq<Seq<char>>) -> Result<
    Seq<Seq<char>>,
    Seq<char>,
>
    decreases holders.len(),
{
    if holders.len() == 0 {
        Ok(Seq::empty())
    } else {
        match balance_keys_of(contract_id, holders.drop_last()) {
            Err(e) => Err(e),
            Ok(keys) => match balance_key_of(contract_id, holders.last()) {
                Err(e) => Err(e),
                Ok(key) => Ok(keys.push(base64_encoded(key))),
            },
        }
    }
}

proof fn lemma_key_error_stays(contract_id: Seq<char>, holders: Seq<Seq<char>>, k: int)
    requires
        0 <= k <= holders.len(),
        balance_keys_of(contract_id, holders.take(k)) is Err,
    ensures
        balance_keys_of(contract_id, holders) == balance_keys_of(contract_id, holders.take(k)),
    decreases holders.len() - k,
{
    if k == holders.len() {
        assert(holders.take(k) =~= holders);
    } else {
        assert(holders.take(k + 1).drop_last() =~= holders.take(k));
        lemma_key_error_stays(contract_id, holders, k + 1);
    }
}

/// The keys to ask the RPC for, one for each holder.
pub fn balance_keys(contract_id: &str, holders: &[String]) -> (r: Result<
    Vec<String>,
    TridentError,
>)
    ensures
        match r {
            Ok(keys) => balance_keys_of(contract_id@, views(holders@)) == Ok::<
                Seq<Seq<char>>,
                Seq<char>,
            >(views(keys@)),
            Err(e) => e is ParseError && balance_keys_of(contract_id@, views(holders@)) == Err::<
                Seq<Seq<char>>,
                Seq<char>,
            >(e.cause().text()),
        },
{
    let ghost all = views(holders@);
    let mut keys: Vec<String> = Vec::new();
    let mut i: usize = 0;
    assert(all.take(0) =~= Seq::<Seq<char>>::empty());
    assert(views(keys@) =~= Seq::<Seq<char>>::empty());
    while i < holders.len()
        invariant
            i <= holders.len(),
            all == views(holders@),
            balance_keys_of(contract_id@, all.take(i as int)) == Ok::<Seq<Seq<char>>, Seq<char>>(
                views(keys@),
            ),
        decreases holders.len() - i,
    {
        assert(all.take(i + 1).drop_last() =~= all.take(i as int));
        assert(all.take(i + 1).last() == holders@[i as int]@);
        match balance_key(contract_id, holders[i].as_str()) {
            Err(e) => {
                proof {
                    lemma_key_error_stays(contract_id@, all, i + 1);
                }
                return Err(e);
            },
            Ok(key) => {
                let ghost before = keys@;
                let text = encode_key(key.as_slice());
                keys.push(text);
                assert(views(keys@) =~= views(before).push(text@));
            },
        }
        i = i + 1;
    }
    assert(all.take(i as int) =~= all);
    Ok(keys)
}

/// A Soroban value as Rust code writes it for debugging.
pub uninterp spec fn scval_debug(v: ScView) -> Seq<char>;

/// The `Debug` text of the `stellar_xdr` crate's `ScVal`, of a value that does not nest too deep
/// to be walked on the stack.
#[verifier::external_body]
fn debug_text(v: &stellar_xdr::curr::ScVal) -> (r: String)
    requires
        nesting(scval_contents(*v)) <= 500,
    ensures
        r@ == scval_debug(scval_contents(*v)),
{
    format!("{:?}", v)
}

/// The position of the first of some keys that is the given one.
pub open spec fn position(keys: Seq<Seq<char>>, key: Seq<char>) -> Option<int>
    decreases keys.len(),
{
    if keys.len() == 0 {
        None
    } else {
        match position(keys.drop_last(), key) {
            Some(i) => Some(i),
            None => if keys.last() == key {
                Some(keys.len() - 1)
            } else {
                None
            },
        }
    }
}

proof fn lemma_position(keys: Seq<Seq<char>>, key: Seq<char>, i: int)
    requires
        0 <= i <= keys.len(),
        forall|k: int| 0 <= k < i ==> keys[k] != key,
    ensures
        position(keys.take(i), key) is None,
        i < keys.len() && keys[i] == key ==> position(keys, key) == Some(i),
    decreases i,
{
    if i > 0 {
        assert(keys.take(i).drop_last() =~= keys.take(i - 1));
        lemma_position(keys, key, i - 1);
    }
    if i < keys.len() && keys[i] == key {
        assert(keys.take(i + 1).drop_last() =~= keys.take(i));
        lemma_position_stays(keys, key, i + 1);
    }
}

proof fn lemma_position_stays(keys: Seq<Seq<char>>, key: Seq<char>, k: int)
    requires
        0 <= k <= keys.len(),
        position(keys.take(k), key) is Some,
    ensures
        position(keys, key) == position(keys.take(k), key),
    decreases keys.len() - k,
{
    if k == keys.len() {
        assert(keys.take(k) =~= keys);
    } else {
        assert(keys.take(k + 1).drop_last() =~= keys.take(k));
        lemma_position_stays(keys, key, k + 1);
    }
}

fn find_key(keys: &[String], key: &str) -> (r: Option<usize>)
    ensures
        match r {
            Some(i) => i < keys@.len() && position(views(keys@), key@) == Some(i as int),
            None => position(views(keys@), key@) is None,
        },
{
    let ghost all = views(keys@);
    let mut i: usize = 0;
    while i < keys.len()
        invariant
            i <= keys.len(),
            all == views(keys@),
            forall|k: int| 0 <= k < i ==> all[k] != key@,
        decreases keys.len() - i,
    {
        assert(all[i as int] == keys@[i as int]@);
        if same(keys[i].as_str(), key) {
            proof {
                lemma_position(all, key@, i as int);
            }
            return Some(i);
        }
        i = i + 1;
    }
    proof {
        lemma_position(all, key@, i as int);
        assert(all.take(i as int) =~= all);
    }
    None
}

/// A balance as JSON: a 128-bit integer in decimal, anything else as its debugging text.
pub open spec fn balance_json(value: ScView) -> JsonView {
    match value {
        ScView::I128 { hi, lo } => JsonView::String(dec_int(u128_value(hi as int, lo as int))),
        other => JsonView::String(scval_debug(other)),
    }
}

/// What the entries that the RPC returned say of the balances, or the message of the first error.
/// Entries that were not asked for, and those that hold no contract data, are left out.
pub open spec fn observed(
    holders: Seq<Seq<char>>,
    keys: Seq<Seq<char>>,
    entries: Seq<LedgerEntryResult>,
) -> Result<Seq<ObservationView>, Seq<char>>
    decreases entries.len(),
{
    if entries.len() == 0 {
        Ok(Seq::empty())
    } else {
        let entry = entries.last();
        match observed(holders, keys, entries.drop_last()) {
            Err(e) => Err(e),
            Ok(before) => match position(keys, entry.key@) {
                None => Ok(before),
                Some(i) => match entry_of(entry.xdr@) {
                    Err(e) => Err(e),
                    Ok(LedgerEntryView::Data(value)) => Ok(
                        before.push(
                            ObservationView {
                                storage_key: entry.key@,
                                key_json: JsonView::Object(
                                    Map::empty().insert("Balance"@, JsonView::String(holders[i])),
                                ),
                                value_json: Some(balance_json(value)),
                            },
                        ),
                    ),
                    Ok(_) => Ok(before),
                },
            },
        }
    }
}

/// What some observations are.
pub open spec fn observation_views(v: Seq<StorageObservation>) -> Seq<ObservationView> {
    v.map_values(|o: StorageObservation| o@)
}

proof fn lemma_observed_error_stays(
    holders: Seq<Seq<char>>,
    keys: Seq<Seq<char>>,
    entries: Seq<LedgerEntryResult>,
    k: int,
)
    requires
        0 <= k <= entries.len(),
        observed(holders, keys, entries.take(k)) is Err,
    ensures
        observed(holders, keys, entries) == observed(holders, keys, entries.take(k)),
    decreases entries.len() - k,
{
    if k == entries.len() {
        assert(entries.take(k) =~= entries);
    } else {
        assert(entries.take(k + 1).drop_last() =~= entries.take(k));
        lemma_observed_error_stays(holders, keys, entries, k + 1);
    }
}

/// What the entries that the RPC returned for the keys say of the holders' balances.
pub fn balance_observations(
    holders: &[String],
    keys: &[String],
    entries: &[LedgerEntryResult],
) -> (r: Result<Vec<StorageObservation>, TridentError>)
    requires
        keys@.len() == holders@.len(),
    ensures
        match r {
            Ok(observations) => observed(views(holders@), views(keys@), entries@) == Ok::<
                Seq<ObservationView>,
                Seq<char>,
            >(observation_views(observations@)),
            Err(e) => e is ParseError && observed(views(holders@), views(keys@), entries@) == Err::<
                Seq<ObservationView>,
                Seq<char>,
            >(e.cause().text()),
        },
{
    let ghost hs = views(holders@);
    let ghost ks = views(keys@);
    let mut out: Vec<StorageObservation> = Vec::new();
    let mut i: usize = 0;
    assert(entries@.take(0) =~= Seq::<LedgerEntryResult>::empty());
    assert(observation_views(out@) =~= Seq::<ObservationView>::empty());
    while i < entries.len()
        invariant
            i <= entries.len(),
            hs == views(holders@),
            ks == views(keys@),
            keys@.len() == holders@.len(),
            observed(hs, ks, entries@.take(i as int)) == Ok::<Seq<ObservationView>, Seq<char>>(
                observation_views(out@),
            ),
        decreases entries.len() - i,
    {
        assert(entries@.take(i + 1).drop_last() =~= entries@.take(i as int));
        assert(entries@.take(i + 1).last() == entries@[i as int]);
        let entry = &entries[i];
        if let Some(at) = find_key(keys, entry.key.as_str()) {
            let found = match decode_entry(entry.xdr.as_str()) {
                Ok(found) => found,
                Err(e) => {
                    proof {
                        lemma_observed_error_stays(hs, ks, entries@, i + 1);
                    }
                    return Err(e);
                },
            };
            if let LedgerEntry::Data(value) = found {
                let ghost contents = scval_contents(value);
                let shown = debug_text(&value);
                let text = match lift(value) {
                    ScVal::I128 { hi, lo } => dec_int_text(i128_of(hi, lo)),
                    _ => shown,
                };
                let mut members: Vec<JsonMember> = Vec::new();
                set_member(&mut members, "Balance".to_owned(), Json::String(holders[at].clone()));
                let key_json = Json::Object(members);
                let ghost before = out@;
                let made = StorageObservation {
                    storage_key: entry.key.clone(),
                    key_json,
                    value_json: Some(Json::String(text)),
                };
                let ghost m = made@;
                out.push(made);
                assert(observation_views(out@) =~= observation_views(before).push(m));
            }
        }
        i = i + 1;
    }
    assert(entries@.take(i as int) =~= entries@);
    Ok(out)
}

proof fn lemma_position_of(keys: Seq<Seq<char>>, i: int)
    requires
        0 <= i < keys.len(),
        forall|k: int| 0 <= k < keys.len() && k != i ==> #[trigger] keys[k] != keys[i],
    ensures
        position(keys, keys[i]) == Some(i),
{
    lemma_position(keys, keys[i], i);
}

proof fn lemma_no_position(keys: Seq<Seq<char>>, key: Seq<char>)
    requires
        !keys.contains(key),
    ensures
        position(keys, key) is None,
{
    assert forall|k: int| 0 <= k < keys.len() implies keys[k] != key by {
        assert(keys.contains(keys[k]));
    }
    lemma_position(keys, key, keys.len() as int);
    assert(keys.take(keys.len() as int) =~= keys);
}

/// Each entry adds at most one observation. An entry under the key that was made for a holder adds
/// one of that holder, with the decimal text where the value is a 128-bit number; one that was not
/// asked for, or that holds no contract data, adds none; and one that does not decode ends it all.
pub proof fn entries_are_put_down_to_their_holder(
    holders: Seq<Seq<char>>,
    keys: Seq<Seq<char>>,
    entries: Seq<LedgerEntryResult>,
    entry: LedgerEntryResult,
    i: int,
)
    requires
        keys.len() == holders.len(),
        observed(holders, keys, entries) is Ok,
    ensures
        observed(holders, keys, Seq::empty()) == Ok::<Seq<ObservationView>, Seq<char>>(Seq::empty()),
        ({
            let before = observed(holders, keys, entries)->Ok_0;
            let after = observed(holders, keys, entries.push(entry));
            &&& !keys.contains(entry.key@) ==> after == Ok::<Seq<ObservationView>, Seq<char>>(before)
            &&& 0 <= i < keys.len() && keys[i] == entry.key@ && (forall|k: int|
                0 <= k < keys.len() && k != i ==> #[trigger] keys[k] != keys[i]) ==> match entry_of(
                entry.xdr@,
            ) {
                Err(e) => after == Err::<Seq<ObservationView>, Seq<char>>(e),
                Ok(LedgerEntryView::Data(value)) => {
                    &&& after is Ok
                    &&& after->Ok_0.len() == before.len() + 1
                    &&& after->Ok_0.drop_last() == before
                    &&& after->Ok_0.last().storage_key == entry.key@
                    &&& after->Ok_0.last().key_json == JsonView::Object(
                        Map::<Seq<char>, JsonView>::empty().insert(
                            "Balance"@,
                            JsonView::String(holders[i]),
                        ),
                    )
                    &&& value matches ScView::I128 { hi, lo } ==> after->Ok_0.last().value_json
                        == Some(
                        JsonView::String(dec_int(hi * 0x1_0000_0000_0000_0000 + lo)),
                    )
                    &&& !(value is I128) ==> after->Ok_0.last().value_json == Some(
                        JsonView::String(scval_debug(value)),
                    )
                },
                Ok(_) => after == Ok::<Seq<ObservationView>, Seq<char>>(before),
            }
        }),
{
    assert(entries.push(entry).drop_last() =~= entries);
    if !keys.contains(entry.key@) {
        lemma_no_position(keys, entry.key@);
    }
    if 0 <= i < keys.len() && keys[i] == entry.key@ && (forall|k: int|
        0 <= k < keys.len() && k != i ==> #[trigger] keys[k] != keys[i]) {
        lemma_position_of(keys, i);
        if let Ok(LedgerEntryView::Data(value)) = entry_of(entry.xdr@) {
            let after = observed(holders, keys, entries.push(entry))->Ok_0;
            assert(after.drop_last() =~= observed(holders, keys, entries)->Ok_0);
        }
    }
}

/// Every observation is of an entry that was returned, names the holder whose key that entry has, and
/// gives what the entry holds.
pub proof fn observations_name_the_holder_of_their_key(
    holders: Seq<Seq<char>>,
    keys: Seq<Seq<char>>,
    entries: Seq<LedgerEntryResult>,
    at: int,
    i: int,
)
    requires
        keys.len() == holders.len(),
        observed(holders, keys, entries) is Ok,
        0 <= at < observed(holders, keys, entries)->Ok_0.len(),
        0 <= i < keys.len(),
        forall|k: int| 0 <= k < keys.len() && k != i ==> #[trigger] keys[k] != keys[i],
        observed(holders, keys, entries)->Ok_0[at].storage_key == keys[i],
    ensures
        ({
            let o = observed(holders, keys, entries)->Ok_0[at];
            &&& o.key_json == JsonView::Object(
                Map::<Seq<char>, JsonView>::empty().insert("Balance"@, JsonView::String(holders[i])),
            )
            &&& exists|m: int|
                {
                    &&& 0 <= m < entries.len()
                    &&& (#[trigger] entries[m]).key@ == o.storage_key
                    &&& entry_of(entries[m].xdr@) is Ok
                    &&& entry_of(entries[m].xdr@)->Ok_0 matches LedgerEntryView::Data(
                        value,
                    ) && o.value_json == Some(balance_json(value))
                }
        }),
    decreases entries.len(),
{
    if entries.len() > 0 {
        let rest = entries.drop_last();
        let before = observed(holders, keys, rest)->Ok_0;
        let n = entries.len() - 1;
        assert(entries.last() == entries[n]);
        if at < before.len() {
            observations_name_the_holder_of_their_key(holders, keys, rest, at, i);
            let m = choose|m: int|
                {
                    &&& 0 <= m < rest.len()
                    &&& (#[trigger] rest[m]).key@ == before[at].storage_key
                    &&& entry_of(rest[m].xdr@) is Ok
                    &&& entry_of(rest[m].xdr@)->Ok_0 matches LedgerEntryView::Data(
                        value,
                    ) && before[at].value_json == Some(balance_json(value))
                };
            assert(rest[m] == entries[m]);
        } else {
            lemma_position_of(keys, i);
            assert(entries[n].key@ == keys[i]);
        }
    }
}

/// There is one key for each holder, in their order: the base64 text of the key of the holder's
/// balance. There are none where a holder has no key.
pub proof fn keys_go_with_their_holders(contract_id: Seq<char>, holders: Seq<Seq<char>>)
    ensures
        match balance_keys_of(contract_id, holders) {
            Ok(keys) => keys.len() == holders.len() && forall|i: int|
                0 <= i < holders.len() ==> balance_key_of(contract_id, #[trigger] holders[i]) is Ok
                    && keys[i] == base64_encoded(balance_key_of(contract_id, holders[i])->Ok_0),
            Err(e) => exists|i: int|
                0 <= i < holders.len() && balance_key_of(contract_id, #[trigger] holders[i]) == Err::<
                    Seq<u8>,
                    Seq<char>,
                >(e) && forall|k: int|
                    0 <= k < i ==> balance_key_of(contract_id, #[trigger] holders[k]) is Ok,
        },
    decreases holders.len(),
{
    if holders.len() > 0 {
        let rest = holders.drop_last();
        let n = holders.len() - 1;
        keys_go_with_their_holders(contract_id, rest);
        assert(holders.last() == holders[n]);
        match balance_keys_of(contract_id, rest) {
            Err(e) => {
                let i = choose|i: int|
                    0 <= i < rest.len() && balance_key_of(contract_id, #[trigger] rest[i]) == Err::<
                        Seq<u8>,
                        Seq<char>,
                    >(e) && forall|k: int|
                        0 <= k < i ==> balance_key_of(contract_id, #[trigger] rest[k]) is Ok;
                assert(holders[i] == rest[i]);
                assert forall|k: int| 0 <= k < i implies balance_key_of(
                    contract_id,
                    #[trigger] holders[k],
                ) is Ok by {
                    assert(holders[k] == rest[k]);
                }
            },
            Ok(keys) => {
                assert forall|k: int| 0 <= k < n implies balance_key_of(
                    contract_id,
                    #[trigger] holders[k],
                ) is Ok && keys[k] == base64_encoded(
                    balance_key_of(contract_id, holders[k])->Ok_0,
                ) by {
                    assert(holders[k] == rest[k]);
                }
            },
        }
    }
}

/// What is observed of an entry is put down to the holder whose key the entry has: with keys that
/// are all different, each observation names the holder at the place of its key.
pub proof fn observations_go_to_the_holder_of_the_key(
    holders: &[String],
    keys: &[String],
    entries: &[LedgerEntryResult],
    out: Vec<StorageObservation>,
    at: int,
    i: int,
)
    requires
        call_ensures(balance_observations, (holders, keys, entries), Ok(out)),
        keys@.len() == holders@.len(),
        0 <= at < out@.len(),
        0 <= i < keys@.len(),
        forall|k: int| 0 <= k < keys@.len() && k != i ==> (#[trigger] keys@[k])@ != keys@[i]@,
        out@[at].storage_key@ == keys@[i]@,
    ensures
        member_of(out@[at].key_json@, "Balance"@) == Some(JsonView::String(holders@[i]@)),
{
    let h = views(holders@);
    let ks = views(keys@);
    assert(observation_views(out@)[at] == out@[at]@);
    assert(ks[i] == keys@[i]@);
    assert(h[i] == holders@[i]@);
    assert forall|k: int| 0 <= k < ks.len() && k != i implies #[trigger] ks[k] != ks[i] by {
        assert(ks[k] == keys@[k]@);
    }
    observations_name_the_holder_of_their_key(h, ks, entries@, at, i);
}

/// An observation is seen with each field in its own place.
pub proof fn observations_show_their_fields(o: StorageObservation)
    ensures
        o@.storage_key == o.storage_key@,
        o@.key_json == o.key_json@,
        o.value_json is None ==> o@.value_json is None,
        o.value_json is Some ==> o@.value_json == Some(o.value_json->0@),
{
}

} // verus!
