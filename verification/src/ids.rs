//! The ids of events: UUIDs that follow from what makes an event unique, so that the same event
//! always gets the same id.
use vstd::prelude::*;

use crate::codec::hex_text;
use crate::text::all_digits;
use crate::text::dec;
use crate::text::dec_injective;
use crate::text::is_digit;
use crate::text::lemma_dec_value;
use crate::text::push_dec;

verus! {

broadcast use vstd::string::group_string_axioms;

/// The version 5 UUID of a name in a namespace.
pub uninterp spec fn uuid_v5(namespace: Seq<u8>, name: Seq<u8>) -> Seq<u8>;

/// `Uuid::new_v5` of the `uuid` crate.
#[verifier::external_body]
fn new_v5(namespace: [u8; 16], name: &[u8]) -> (r: [u8; 16])
    ensures
        r@ == uuid_v5(namespace@, name@),
{
    uuid::Uuid::new_v5(&uuid::Uuid::from_bytes(namespace), name).into_bytes()
}

/// The text of a UUID: its bytes in lower-case hexadecimal, in groups of four, two, two, two and
/// six bytes with a `-` between each two.
pub open spec fn uuid_text(bytes: Seq<u8>) -> Seq<char> {
    let hex = hex_text(bytes);
    hex.subrange(0, 8) + seq!['-'] + hex.subrange(8, 12) + seq!['-'] + hex.subrange(12, 16)
        + seq!['-'] + hex.subrange(16, 20) + seq!['-'] + hex.subrange(20, 32)
}

/// The UUID that a text reads as.
pub uninterp spec fn uuid_read(text: Seq<char>) -> Option<Seq<u8>>;

/// `Uuid::to_string` of the `uuid` crate: the hyphenated form in lower case. The text reads back as
/// the UUID.
#[verifier::external_body]
pub(crate) fn write_uuid(bytes: [u8; 16]) -> (r: String)
    ensures
        r@ == uuid_text(bytes@),
        uuid_read(r@) == Some(bytes@),
{
    uuid::Uuid::from_bytes(bytes).to_string()
}

/// `Uuid::parse_str` of the `uuid` crate.
#[verifier::external_body]
pub(crate) fn read_uuid(text: &str) -> (r: Option<[u8; 16]>)
    ensures
        match r {
            Some(bytes) => uuid_read(text@) == Some(bytes@),
            None => uuid_read(text@) is None,
        },
{
    uuid::Uuid::parse_str(text).ok().map(|id| id.into_bytes())
}

/// The namespace of domain names, in which the ids of events are made. Which one it is does not
/// matter, only that it stays the same.
pub open spec fn event_namespace() -> Seq<u8> {
    seq![
        0x6bu8, 0xa7, 0xb8, 0x10, 0x9d, 0xad, 0x11, 0xd1, 0x80, 0xb4, 0x00, 0xc0, 0x4f, 0xd4, 0x30,
        0xc8,
    ]
}

/// What makes an event unique, as the text that its id is made of.
pub open spec fn event_key(contract_id: Seq<char>, ledger: nat, index: nat) -> Seq<char> {
    contract_id + ":"@ + dec(ledger) + ":"@ + dec(index)
}

/// The id of an event.
pub open spec fn event_id(contract_id: Seq<char>, ledger: nat, index: nat) -> Seq<u8> {
    uuid_v5(event_namespace(), vstd::utf8::encode_utf8(event_key(contract_id, ledger, index)))
}

/// The id of an event.
pub fn event_uuid(contract_id: &str, ledger_sequence: u64, event_index: u32) -> (r: [u8; 16])
    ensures
        r@ == event_id(contract_id@, ledger_sequence as nat, event_index as nat),
{
    let mut key = contract_id.to_owned();
    key.append(":");
    push_dec(&mut key, ledger_sequence as u128);
    key.append(":");
    push_dec(&mut key, event_index as u128);
    let namespace: [u8; 16] = [
        0x6b, 0xa7, 0xb8, 0x10, 0x9d, 0xad, 0x11, 0xd1, 0x80, 0xb4, 0x00, 0xc0, 0x4f, 0xd4, 0x30,
        0xc8,
    ];
    assert(namespace@ =~= event_namespace());
    new_v5(namespace, key.as_str().as_bytes())
}

proof fn lemma_last_part(a: Seq<char>, x: Seq<char>, b: Seq<char>, y: Seq<char>)
    requires
        all_digits(x),
        all_digits(y),
        a + ":"@ + x == b + ":"@ + y,
    ensures
        a == b,
        x == y,
{
    reveal_strlit(":");
    let s = a + ":"@ + x;
    let t = b + ":"@ + y;
    assert(s.len() == a.len() + 1 + x.len());
    assert(t.len() == b.len() + 1 + y.len());
    assert(s[a.len() as int] == ':');
    assert(t[b.len() as int] == ':');
    if a.len() < b.len() {
        assert(s[b.len() as int] == x[b.len() - a.len() - 1]);
        assert(0 <= b.len() - a.len() - 1 < x.len());
        assert(is_digit(x[b.len() - a.len() - 1]));
    } else if b.len() < a.len() {
        assert(t[a.len() as int] == y[a.len() - b.len() - 1]);
        assert(0 <= a.len() - b.len() - 1 < y.len());
        assert(is_digit(y[a.len() - b.len() - 1]));
    }
    assert(a =~= s.take(a.len() as int));
    assert(b =~= t.take(b.len() as int));
    assert(x =~= s.skip(a.len() as int + 1));
    assert(y =~= t.skip(b.len() as int + 1));
}

/// No two events share the text that their ids are made of: it tells the contract, the ledger and
/// the position apart, whatever the contract is called.
pub proof fn event_keys_are_distinct(
    contract: Seq<char>,
    ledger: nat,
    index: nat,
    other_contract: Seq<char>,
    other_ledger: nat,
    other_index: nat,
)
    requires
        event_key(contract, ledger, index) == event_key(other_contract, other_ledger, other_index),
    ensures
        contract == other_contract,
        ledger == other_ledger,
        index == other_index,
{
    lemma_dec_value(ledger);
    lemma_dec_value(index);
    lemma_dec_value(other_ledger);
    lemma_dec_value(other_index);
    lemma_last_part(
        contract + ":"@ + dec(ledger),
        dec(index),
        other_contract + ":"@ + dec(other_ledger),
        dec(other_index),
    );
    lemma_last_part(contract, dec(ledger), other_contract, dec(other_ledger));
    dec_injective(ledger, other_ledger);
    dec_injective(index, other_index);
}

/// The id of an event is the version 5 UUID, in the namespace of domain names, of contract, ledger and
/// position with a colon between each two: for the event at position seven of ledger forty-two the
/// text ends in `:42:7`.
pub proof fn event_ids_are_made_of_contract_ledger_and_position(
    contract: Seq<char>,
    ledger: nat,
    index: nat,
)
    ensures
        event_id(contract, ledger, index) == uuid_v5(
            seq![
                0x6bu8,
                0xa7,
                0xb8,
                0x10,
                0x9d,
                0xad,
                0x11,
                0xd1,
                0x80,
                0xb4,
                0x00,
                0xc0,
                0x4f,
                0xd4,
                0x30,
                0xc8,
            ],
            vstd::utf8::encode_utf8(
                contract + seq![':'] + dec(ledger) + seq![':'] + dec(index),
            ),
        ),
{
    reveal_strlit(":");
    assert(":"@ =~= seq![':']);
}

/// The text of a UUID has 36 characters: a hyphen behind the fourth, the sixth, the eighth and the
/// tenth byte, and each byte in two digits.
pub proof fn uuid_texts_show_all_bytes(bytes: Seq<u8>)
    requires
        bytes.len() == 16,
    ensures
        uuid_text(bytes).len() == 36,
        uuid_text(bytes)[8] == '-',
        uuid_text(bytes)[13] == '-',
        uuid_text(bytes)[18] == '-',
        uuid_text(bytes)[23] == '-',
        forall|i: int| #![trigger bytes[i]]
            0 <= i < 16 ==> {
                let at = 2 * i + if i < 4 {
                    0int
                } else if i < 6 {
                    1
                } else if i < 8 {
                    2
                } else if i < 10 {
                    3
                } else {
                    4
                };
                uuid_text(bytes)[at] == hex_text(bytes)[2 * i] && uuid_text(bytes)[at + 1]
                    == hex_text(bytes)[2 * i + 1]
            },
{
}

} // verus!
