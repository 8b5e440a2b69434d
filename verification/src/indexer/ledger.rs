//! Keys and entries of the ledger, as the RPC takes and gives them: base64 XDR.
use stellar_xdr::curr::AccountId;
use stellar_xdr::curr::ContractDataDurability;
use stellar_xdr::curr::ContractId;
use stellar_xdr::curr::LedgerEntryData;
use stellar_xdr::curr::LedgerKey;
use stellar_xdr::curr::LedgerKeyContractCode;
use stellar_xdr::curr::LedgerKeyContractData;
use stellar_xdr::curr::Limited;
use stellar_xdr::curr::Limits;
use stellar_xdr::curr::PublicKey;
use stellar_xdr::curr::ReadXdr;
use stellar_xdr::curr::ScAddress as XdrAddress;
use stellar_xdr::curr::ScSymbol;
use stellar_xdr::curr::ScVal as XdrScVal;
use stellar_xdr::curr::ScVec;
use stellar_xdr::curr::Uint256;
use stellar_xdr::curr::WriteXdr;
use vstd::prelude::*;

use crate::codec::base64_decode;
use crate::codec::base64_decoded;
use crate::codec::base64_encode;
use crate::codec::base64_encoded;
use crate::decode::MAX_SCVAL_DEPTH;
use crate::errors::ErrorSource;
use crate::errors::TridentError;
use crate::indexer::rpc::filters::symbol_xdr;
use crate::scval::nesting;
use crate::scval::ScView;
use crate::strkey::read_contract_strkey;
use crate::strkey::read_strkey;
use crate::strkey::strkey_contract_read;
use crate::strkey::strkey_read;
use crate::strkey::Strkey;
use crate::strkey::StrkeyView;
use crate::xdr::scval_contents;

verus! {

broadcast use vstd::string::group_string_axioms;

/// The hash of the contract that a text names, or the message of the error.
pub open spec fn contract_of(contract_id: Seq<char>) -> Result<Seq<u8>, Seq<char>> {
    match strkey_contract_read(contract_id) {
        Some(hash) => Ok(hash),
        None => Err("invalid contract id "@ + contract_id + ": the strkey is invalid"@),
    }
}

/// The hash of the contract that a text names.
pub fn contract_address(contract_id: &str) -> (r: Result<[u8; 32], TridentError>)
    ensures
        match r {
            Ok(hash) => contract_of(contract_id@) == Ok::<Seq<u8>, Seq<char>>(hash@),
            Err(e) => e is ParseError && contract_of(contract_id@) == Err::<Seq<u8>, Seq<char>>(
                e.cause().text(),
            ),
        },
{
    match read_contract_strkey(contract_id) {
        Some(hash) => Ok(hash),
        None => {
            let mut message = "invalid contract id ".to_owned();
            message.append(contract_id);
            message.append(": the strkey is invalid");
            Err(TridentError::parse(ErrorSource::msg(message)))
        },
    }
}

/// The account or the contract that a text names, or the message of the error.
pub open spec fn holder_of(text: Seq<char>) -> Result<StrkeyView, Seq<char>> {
    match strkey_read(text) {
        Some(StrkeyView::Account(key)) => Ok(StrkeyView::Account(key)),
        Some(StrkeyView::Contract(hash)) => Ok(StrkeyView::Contract(hash)),
        _ => Err("unsupported address strkey: "@ + text),
    }
}

/// An account or a contract.
#[derive(Debug, Clone, Copy, PartialEq, Eq)]
pub enum Holder {
    Account([u8; 32]),
    Contract([u8; 32]),
}

impl View for Holder {
    type V = StrkeyView;

    open spec fn view(&self) -> StrkeyView {
        match *self {
            Holder::Account(key) => StrkeyView::Account(key@),
            Holder::Contract(hash) => StrkeyView::Contract(hash@),
        }
    }
}

/// The account or the contract that a text names.
pub fn decode_address(strkey: &str) -> (r: Result<Holder, TridentError>)
    ensures
        match r {
            Ok(holder) => holder_of(strkey@) == Ok::<StrkeyView, Seq<char>>(holder@),
            Err(e) => e is ParseError && holder_of(strkey@) == Err::<StrkeyView, Seq<char>>(
                e.cause().text(),
            ),
        },
{
    match read_strkey(strkey) {
        Some(Strkey::Account(key)) => Ok(Holder::Account(key)),
        Some(Strkey::Contract(hash)) => Ok(Holder::Contract(hash)),
        _ => {
            let mut message = "unsupported address strkey: ".to_owned();
            message.append(strkey);
            Err(TridentError::parse(ErrorSource::msg(message)))
        },
    }
}

/// The XDR of an address: its kind, for an account that of its key too, and 32 bytes.
pub open spec fn address_xdr(holder: StrkeyView) -> Seq<u8> {
    match holder {
        StrkeyView::Account(key) => seq![0u8, 0, 0, 0, 0, 0, 0, 0] + key,
        StrkeyView::Contract(hash) => seq![0u8, 0, 0, 1] + hash,
        StrkeyView::Other => Seq::empty(),
    }
}

/// The XDR of the ledger key of an entry that a contract stores for good, with the given XDR of
/// its key.
pub open spec fn data_key_xdr(contract: Seq<u8>, key: Seq<u8>) -> Seq<u8> {
    seq![0u8, 0, 0, 6] + address_xdr(StrkeyView::Contract(contract)) + key + seq![0u8, 0, 0, 1]
}

/// The XDR of the ledger key of a contract's instance.
pub open spec fn instance_key_xdr(contract: Seq<u8>) -> Seq<u8> {
    data_key_xdr(contract, seq![0u8, 0, 0, 20])
}

/// The XDR of the ledger key of the code with a hash.
pub open spec fn code_key_xdr(hash: Seq<u8>) -> Seq<u8> {
    seq![0u8, 0, 0, 7] + hash
}

/// The XDR of the ledger key of what a contract stores under a symbol and an address.
pub open spec fn pair_key_xdr(contract: Seq<u8>, symbol: Seq<u8>, holder: StrkeyView) -> Seq<u8> {
    data_key_xdr(
        contract,
        seq![0u8, 0, 0, 16, 0, 0, 0, 1, 0, 0, 0, 2] + symbol_xdr(symbol) + seq![0u8, 0, 0, 18]
            + address_xdr(holder),
    )
}

/// `WriteXdr::to_xdr` of the `stellar_xdr` crate on the `LedgerKey` of a contract's instance.
/// Writing to memory without limits always succeeds.
#[verifier::external_body]
fn write_instance_key(contract: [u8; 32]) -> (r: Result<Vec<u8>, String>)
    ensures
        r is Ok,
        r->Ok_0@ == instance_key_xdr(contract@),
{
    let key = LedgerKey::ContractData(LedgerKeyContractData {
        contract: XdrAddress::Contract(ContractId(stellar_xdr::curr::Hash(contract))),
        key: XdrScVal::LedgerKeyContractInstance,
        durability: ContractDataDurability::Persistent,
    });
    key.to_xdr(Limits::none()).map_err(|e| e.to_string())
}

/// `WriteXdr::to_xdr` of the `stellar_xdr` crate on the `LedgerKey` of code. Writing to memory
/// without limits always succeeds.
#[verifier::external_body]
fn write_code_key(hash: [u8; 32]) -> (r: Result<Vec<u8>, String>)
    ensures
        r is Ok,
        r->Ok_0@ == code_key_xdr(hash@),
{
    let key = LedgerKey::ContractCode(LedgerKeyContractCode { hash: stellar_xdr::curr::Hash(hash) });
    key.to_xdr(Limits::none()).map_err(|e| e.to_string())
}

/// `WriteXdr::to_xdr` of the `stellar_xdr` crate on the `LedgerKey` of what a contract stores under
/// a symbol and an address. A text of more than 32 bytes is no symbol; writing to memory without
/// limits always succeeds.
#[verifier::external_body]
fn write_pair_key(contract: [u8; 32], symbol: &str, holder: Holder) -> (r: Option<Vec<u8>>)
    ensures
        match r {
            Some(bytes) => vstd::utf8::encode_utf8(symbol@).len() <= 32 && bytes@ == pair_key_xdr(
                contract@,
                vstd::utf8::encode_utf8(symbol@),
                holder@,
            ),
            None => vstd::utf8::encode_utf8(symbol@).len() > 32,
        },
{
    let address = match holder {
        Holder::Account(key) => XdrAddress::Account(
            AccountId(PublicKey::PublicKeyTypeEd25519(Uint256(key))),
        ),
        Holder::Contract(hash) => XdrAddress::Contract(ContractId(stellar_xdr::curr::Hash(hash))),
    };
    let symbol = ScSymbol::try_from(symbol.to_string()).ok()?;
    let items = vec![XdrScVal::Symbol(symbol), XdrScVal::Address(address)];
    let key = LedgerKey::ContractData(LedgerKeyContractData {
        contract: XdrAddress::Contract(ContractId(stellar_xdr::curr::Hash(contract))),
        key: XdrScVal::Vec(Some(ScVec(items.try_into().ok()?))),
        durability: ContractDataDurability::Persistent,
    });
    key.to_xdr(Limits::none()).ok()
}

/// A ledger key as the RPC takes it: the padded base64 of its bytes, which decodes to them.
pub fn encode_key(key: &[u8]) -> (r: String)
    ensures
        r@ == base64_encoded(key@),
        base64_decoded(r@) == Ok::<Seq<u8>, Seq<char>>(key@),
        vstd::utf8::is_ascii_chars(r@),
        r@.len() == 4 * ((key@.len() + 2) / 3),
{
    base64_encode(key)
}

/// The ledger key of the instance of a contract, or the message of the error.
pub open spec fn instance_key_of(contract_id: Seq<char>) -> Result<Seq<u8>, Seq<char>> {
    match contract_of(contract_id) {
        Ok(hash) => Ok(instance_key_xdr(hash)),
        Err(e) => Err(e),
    }
}

/// The ledger key of the instance of a contract.
pub fn instance_key(contract_id: &str) -> (r: Result<Vec<u8>, TridentError>)
    ensures
        match r {
            Ok(key) => instance_key_of(contract_id@) == Ok::<Seq<u8>, Seq<char>>(key@),
            Err(e) => e is ParseError && instance_key_of(contract_id@) == Err::<
                Seq<u8>,
                Seq<char>,
            >(e.cause().text()),
        },
{
    let hash = match contract_address(contract_id) {
        Ok(hash) => hash,
        Err(e) => return Err(e),
    };
    match write_instance_key(hash) {
        Ok(key) => Ok(key),
        Err(e) => Err(
            TridentError::parse(ErrorSource::msg(e).context("encode LedgerKey".to_owned())),
        ),
    }
}

/// The ledger key of the code with a hash.
pub fn code_key(hash: [u8; 32]) -> (r: Result<Vec<u8>, TridentError>)
    ensures
        r is Ok,
        r->Ok_0@ == code_key_xdr(hash@),
{
    match write_code_key(hash) {
        Ok(key) => Ok(key),
        Err(e) => Err(
            TridentError::parse(ErrorSource::msg(e).context("encode LedgerKey".to_owned())),
        ),
    }
}

/// The ledger key of a holder's balance of a token, or the message of the error. The holder is
/// looked at first.
pub open spec fn balance_key_of(contract_id: Seq<char>, holder: Seq<char>) -> Result<
    Seq<u8>,
    Seq<char>,
> {
    match holder_of(holder) {
        Err(e) => Err(e),
        Ok(h) => match contract_of(contract_id) {
            Err(e) => Err(e),
            Ok(contract) => Ok(
                pair_key_xdr(contract, vstd::utf8::encode_utf8("Balance"@), h),
            ),
        },
    }
}

proof fn lemma_balance_is_short()
    ensures
        vstd::utf8::encode_utf8("Balance"@).len() == 7,
{
    reveal_strlit("Balance");
    assert(vstd::utf8::is_ascii_chars("Balance"@));
    vstd::utf8::is_ascii_chars_encode_utf8("Balance"@);
}

/// The ledger key of a holder's balance of a token.
pub fn balance_key(contract_id: &str, holder: &str) -> (r: Result<Vec<u8>, TridentError>)
    ensures
        match r {
            Ok(key) => balance_key_of(contract_id@, holder@) == Ok::<Seq<u8>, Seq<char>>(key@),
            Err(e) => e is ParseError && balance_key_of(contract_id@, holder@) == Err::<
                Seq<u8>,
                Seq<char>,
            >(e.cause().text()),
        },
{
    let address = match decode_address(holder) {
        Ok(address) => address,
        Err(e) => return Err(e),
    };
    let contract = match contract_address(contract_id) {
        Ok(contract) => contract,
        Err(e) => return Err(e),
    };
    proof {
        lemma_balance_is_short();
    }
    match write_pair_key(contract, "Balance", address) {
        Some(key) => Ok(key),
        None => vstd::pervasive::unreached(),
    }
}

proof fn lemma_data_key_parts(contract: Seq<u8>, key: Seq<u8>)
    requires
        contract.len() == 32,
    ensures
        data_key_xdr(contract, key).len() == 44 + key.len(),
        data_key_xdr(contract, key).subrange(8, 40) == contract,
        data_key_xdr(contract, key).subrange(40, 40 + key.len() as int) == key,
{
    let whole = data_key_xdr(contract, key);
    assert(whole.subrange(8, 40) =~= contract);
    assert(whole.subrange(40, 40 + key.len() as int) =~= key);
}

proof fn lemma_last_part(front: Seq<u8>, back: Seq<u8>, other: Seq<u8>)
    requires
        front + back == front + other,
    ensures
        back == other,
{
    assert((front + back).len() == (front + other).len());
    assert(back =~= (front + back).skip(front.len() as int));
    assert(other =~= (front + other).skip(front.len() as int));
}

/// Whether it is an account or a contract, with as many bytes as those have.
pub open spec fn is_holder(holder: StrkeyView) -> bool {
    match holder {
        StrkeyView::Account(key) => key.len() == 32,
        StrkeyView::Contract(hash) => hash.len() == 32,
        StrkeyView::Other => false,
    }
}

proof fn lemma_addresses_are_distinct(holder: StrkeyView, other: StrkeyView)
    requires
        is_holder(holder),
        is_holder(other),
        address_xdr(holder) == address_xdr(other),
    ensures
        holder == other,
{
    match holder {
        StrkeyView::Account(a) => {
            assert(address_xdr(holder).len() == 40);
            if other is Contract {
                assert(address_xdr(other).len() == 36);
            }
            lemma_last_part(seq![0u8, 0, 0, 0, 0, 0, 0, 0], a, other->Account_0);
        },
        StrkeyView::Contract(a) => {
            assert(address_xdr(holder).len() == 36);
            if other is Account {
                assert(address_xdr(other).len() == 40);
            }
            lemma_last_part(seq![0u8, 0, 0, 1], a, other->Contract_0);
        },
        StrkeyView::Other => {},
    }
}

/// No two holders share a ledger key, and no two tokens.
pub proof fn balance_keys_are_distinct(
    contract: Seq<u8>,
    holder: StrkeyView,
    other_contract: Seq<u8>,
    other_holder: StrkeyView,
    symbol: Seq<u8>,
)
    requires
        contract.len() == 32,
        other_contract.len() == 32,
        is_holder(holder),
        is_holder(other_holder),
        pair_key_xdr(contract, symbol, holder) == pair_key_xdr(
            other_contract,
            symbol,
            other_holder,
        ),
    ensures
        contract == other_contract,
        holder == other_holder,
{
    let front = seq![0u8, 0, 0, 16, 0, 0, 0, 1, 0, 0, 0, 2] + symbol_xdr(symbol) + seq![
        0u8,
        0,
        0,
        18,
    ];
    lemma_data_key_parts(contract, front + address_xdr(holder));
    lemma_data_key_parts(other_contract, front + address_xdr(other_holder));
    lemma_last_part(front, address_xdr(holder), address_xdr(other_holder));
    lemma_addresses_are_distinct(holder, other_holder);
}

/// An entry of the ledger, as far as the indexer reads it.
#[derive(Debug)]
pub enum LedgerEntry {
    /// What a contract stores: the value.
    Data(XdrScVal),
    /// The code of a contract.
    Code(Vec<u8>),
    Other,
}

/// What an entry of the ledger is.
pub enum LedgerEntryView {
    Data(ScView),
    Code(Seq<u8>),
    Other,
}

impl View for LedgerEntry {
    type V = LedgerEntryView;

    open spec fn view(&self) -> LedgerEntryView {
        match *self {
            LedgerEntry::Data(value) => LedgerEntryView::Data(scval_contents(value)),
            LedgerEntry::Code(code) => LedgerEntryView::Code(code@),
            LedgerEntry::Other => LedgerEntryView::Other,
        }
    }
}

impl LedgerEntryView {
    /// How deep the value of the entry nests.
    pub open spec fn depth(self) -> nat {
        match self {
            LedgerEntryView::Data(value) => nesting(value),
            _ => 0,
        }
    }
}

/// What the XDR of the data of a ledger entry reads as when the reader may nest `depth` reads, or
/// the text of the error.
pub uninterp spec fn xdr_ledger_entry(bytes: Seq<u8>, depth: nat) -> Result<
    LedgerEntryView,
    Seq<char>,
>;

/// `LedgerEntryData::read_xdr` of the `stellar_xdr` crate, limited to `depth` nested reads: the
/// value of contract data, the code of contract code, nothing of any other entry. The error is
/// handed on as its text. Each level of a value takes a nested read, so no value nests deeper.
#[verifier::external_body]
fn read_ledger_entry(bytes: &[u8], depth: u32) -> (r: Result<LedgerEntry, String>)
    requires
        depth <= 500,
    ensures
        match r {
            Ok(entry) => xdr_ledger_entry(bytes@, depth as nat) == Ok::<LedgerEntryView, Seq<char>>(
                entry@,
            ) && entry@.depth() <= depth,
            Err(e) => xdr_ledger_entry(bytes@, depth as nat) == Err::<LedgerEntryView, Seq<char>>(
                e@,
            ),
        },
{
    match LedgerEntryData::read_xdr(&mut Limited::new(bytes, Limits::depth(depth))) {
        Ok(LedgerEntryData::ContractData(data)) => Ok(LedgerEntry::Data(data.val)),
        Ok(LedgerEntryData::ContractCode(code)) => Ok(LedgerEntry::Code(code.code.into_vec())),
        Ok(_) => Ok(LedgerEntry::Other),
        Err(e) => Err(format!("{:#}", anyhow::Error::new(e))),
    }
}

/// What the base64 XDR of a ledger entry reads as, or the message of the error.
pub open spec fn entry_of(xdr: Seq<char>) -> Result<LedgerEntryView, Seq<char>> {
    match base64_decoded(xdr) {
        Err(e) => Err("base64 decode ledger entry"@ + ": "@ + e),
        Ok(bytes) => match xdr_ledger_entry(bytes, MAX_SCVAL_DEPTH as nat) {
            Err(e) => Err("XDR decode LedgerEntryData"@ + ": "@ + e),
            Ok(entry) => Ok(entry),
        },
    }
}

/// Reads the base64 XDR of a ledger entry, of which the depth is bounded.
pub fn decode_entry(xdr: &str) -> (r: Result<LedgerEntry, TridentError>)
    ensures
        match r {
            Ok(entry) => entry_of(xdr@) == Ok::<LedgerEntryView, Seq<char>>(entry@)
                && entry@.depth() <= MAX_SCVAL_DEPTH,
            Err(e) => e is ParseError && entry_of(xdr@) == Err::<LedgerEntryView, Seq<char>>(
                e.cause().text(),
            ),
        },
{
    let bytes = match base64_decode(xdr) {
        Ok(bytes) => bytes,
        Err(e) => return Err(
            TridentError::parse(
                ErrorSource::msg(e).context("base64 decode ledger entry".to_owned()),
            ),
        ),
    };
    match read_ledger_entry(bytes.as_slice(), MAX_SCVAL_DEPTH) {
        Ok(entry) => Ok(entry),
        Err(e) => Err(
            TridentError::parse(
                ErrorSource::msg(e).context("XDR decode LedgerEntryData".to_owned()),
            ),
        ),
    }
}

/// The ledger key of a balance is that of persistent contract data, of the token's contract, under the
/// list of the symbol `Balance` and the holder's own address. There is one exactly where the token is a
/// contract and the holder an account or a contract.
pub proof fn balance_keys_are_made_of_token_and_holder(
    contract_id: Seq<char>,
    holder: Seq<char>,
    contract: Seq<u8>,
    bytes: Seq<u8>,
)
    requires
        strkey_contract_read(contract_id) == Some(contract),
    ensures
        ({
            let front = seq![0u8, 0, 0, 6, 0, 0, 0, 1] + contract + seq![
                0u8, 0, 0, 16, 0, 0, 0, 1, 0, 0, 0, 2, 0, 0, 0, 15, 0, 0, 0, 7, 66, 97, 108, 97, 110,
                99, 101, 0, 0, 0, 0, 18,
            ];
            &&& strkey_read(holder) == Some(StrkeyView::Account(bytes)) ==> balance_key_of(
                contract_id,
                holder,
            ) == Ok::<Seq<u8>, Seq<char>>(
                front + seq![0u8, 0, 0, 0, 0, 0, 0, 0] + bytes + seq![0u8, 0, 0, 1],
            )
            &&& strkey_read(holder) == Some(StrkeyView::Contract(bytes)) ==> balance_key_of(
                contract_id,
                holder,
            ) == Ok::<Seq<u8>, Seq<char>>(
                front + seq![0u8, 0, 0, 1] + bytes + seq![0u8, 0, 0, 1],
            )
            &&& strkey_read(holder) is None || strkey_read(holder) == Some(StrkeyView::Other)
                ==> balance_key_of(contract_id, holder) == Err::<Seq<u8>, Seq<char>>(
                "unsupported address strkey: "@ + holder,
            )
        }),
{
    lemma_balance_is_short();
    reveal_strlit("Balance");
    vstd::utf8::is_ascii_chars_encode_utf8("Balance"@);
    let name = vstd::utf8::encode_utf8("Balance"@);
    assert(name =~= seq![66u8, 97, 108, 97, 110, 99, 101]);
    let front = seq![0u8, 0, 0, 6, 0, 0, 0, 1] + contract + seq![
        0u8, 0, 0, 16, 0, 0, 0, 1, 0, 0, 0, 2, 0, 0, 0, 15, 0, 0, 0, 7, 66, 97, 108, 97, 110, 99, 101,
        0, 0, 0, 0, 18,
    ];
    assert(symbol_xdr(name) =~= seq![
        0u8, 0, 0, 15, 0, 0, 0, 7, 66, 97, 108, 97, 110, 99, 101, 0,
    ]);
    assert(pair_key_xdr(contract, name, StrkeyView::Account(bytes)) =~= front + seq![
        0u8, 0, 0, 0, 0, 0, 0, 0,
    ] + bytes + seq![0u8, 0, 0, 1]);
    assert(pair_key_xdr(contract, name, StrkeyView::Contract(bytes)) =~= front + seq![0u8, 0, 0, 1]
        + bytes + seq![0u8, 0, 0, 1]);
}

/// The ledger keys of a contract's instance and of its code hold the hash that they are asked for.
pub proof fn instance_and_code_keys_hold_their_hash(contract_id: Seq<char>, hash: Seq<u8>)
    ensures
        strkey_contract_read(contract_id) == Some(hash) ==> instance_key_of(contract_id) == Ok::<
            Seq<u8>,
            Seq<char>,
        >(
            seq![0u8, 0, 0, 6, 0, 0, 0, 1] + hash + seq![0u8, 0, 0, 20, 0, 0, 0, 1],
        ),
        strkey_contract_read(contract_id) is None ==> instance_key_of(contract_id) == Err::<
            Seq<u8>,
            Seq<char>,
        >("invalid contract id "@ + contract_id + ": the strkey is invalid"@),
        code_key_xdr(hash) == seq![0u8, 0, 0, 7] + hash,
{
    assert(instance_key_xdr(hash) =~= seq![0u8, 0, 0, 6, 0, 0, 0, 1] + hash + seq![
        0u8, 0, 0, 20, 0, 0, 0, 1,
    ]);
}

/// An entry of the ledger is what the XDR behind its base64 text reads as, and every failure says
/// which of the two did not decode.
pub proof fn entries_are_what_their_xdr_reads_as(xdr: Seq<char>)
    ensures
        match base64_decoded(xdr) {
            Err(e) => entry_of(xdr) == Err::<LedgerEntryView, Seq<char>>(
                "base64 decode ledger entry"@ + ": "@ + e,
            ),
            Ok(bytes) => match xdr_ledger_entry(bytes, 500) {
                Err(e) => entry_of(xdr) == Err::<LedgerEntryView, Seq<char>>(
                    "XDR decode LedgerEntryData"@ + ": "@ + e,
                ),
                Ok(entry) => entry_of(xdr) == Ok::<LedgerEntryView, Seq<char>>(entry),
            },
        },
{
}

/// A text that is no contract, or no account and no contract, is refused with the text itself.
pub proof fn refused_addresses_are_named(text: &str, c: Result<[u8; 32], TridentError>, h: Result<
    Holder,
    TridentError,
>)
    requires
        call_ensures(contract_address, (text,), c),
        call_ensures(decode_address, (text,), h),
    ensures
        strkey_contract_read(text@) is Some ==> c is Ok && strkey_contract_read(text@) == Some(
            c->Ok_0@,
        ),
        strkey_contract_read(text@) is None ==> c is Err && c->Err_0.cause().text()
            == "invalid contract id "@ + text@ + ": the strkey is invalid"@,
        strkey_read(text@) matches Some(StrkeyView::Account(key)) ==> h is Ok && h->Ok_0 is Account
            && h->Ok_0->Account_0@ == key,
        strkey_read(text@) matches Some(StrkeyView::Contract(hash)) ==> h is Ok && h->Ok_0
            is Contract && h->Ok_0->Contract_0@ == hash,
        strkey_read(text@) is None || strkey_read(text@)->0 is Other ==> h is Err
            && h->Err_0.cause().text() == "unsupported address strkey: "@ + text@,
{
}

} // verus!
