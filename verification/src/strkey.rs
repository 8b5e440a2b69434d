//! Strkeys: the checksummed texts in which Stellar writes addresses.
use vstd::prelude::*;

verus! {

broadcast use vstd::string::group_string_axioms;

/// What a strkey is the text of, as far as an address can be made of it.
#[derive(Debug, Clone, Copy)]
pub enum Strkey {
    Account([u8; 32]),
    Contract([u8; 32]),
    /// A strkey of another kind.
    Other,
}

/// What a strkey is the text of.
pub enum StrkeyView {
    Account(Seq<u8>),
    Contract(Seq<u8>),
    Other,
}

impl View for Strkey {
    type V = StrkeyView;

    open spec fn view(&self) -> StrkeyView {
        match *self {
            Strkey::Account(key) => StrkeyView::Account(key@),
            Strkey::Contract(hash) => StrkeyView::Contract(hash@),
            Strkey::Other => StrkeyView::Other,
        }
    }
}

/// What a text reads as, where it is a valid strkey of whatever kind.
pub uninterp spec fn strkey_read(text: Seq<char>) -> Option<StrkeyView>;

/// `stellar_strkey::Strkey::from_string`. Account and contract keys are handed on with their 32
/// bytes, any other kind without.
#[verifier::external_body]
pub(crate) fn read_strkey(text: &str) -> (r: Option<Strkey>)
    ensures
        match r {
            Some(key) => strkey_read(text@) == Some(key@),
            None => strkey_read(text@) is None,
        },
{
    match stellar_strkey::Strkey::from_string(text) {
        Ok(stellar_strkey::Strkey::PublicKeyEd25519(key)) => Some(Strkey::Account(key.0)),
        Ok(stellar_strkey::Strkey::Contract(contract)) => Some(Strkey::Contract(contract.0)),
        Ok(_) => Some(Strkey::Other),
        Err(_) => None,
    }
}

/// The hash that a text reads as, where it is the strkey of a contract.
pub uninterp spec fn strkey_contract_read(text: Seq<char>) -> Option<Seq<u8>>;

/// `stellar_strkey::Contract::from_string`.
#[verifier::external_body]
pub(crate) fn read_contract_strkey(text: &str) -> (r: Option<[u8; 32]>)
    ensures
        match r {
            Some(hash) => strkey_contract_read(text@) == Some(hash@),
            None => strkey_contract_read(text@) is None,
        },
{
    stellar_strkey::Contract::from_string(text).ok().map(|contract| contract.0)
}

/// The key that a text reads as, where it is the strkey of an account.
pub uninterp spec fn strkey_account_read(text: Seq<char>) -> Option<Seq<u8>>;

/// `stellar_strkey::ed25519::PublicKey::from_string`.
#[verifier::external_body]
pub(crate) fn read_account_strkey(text: &str) -> (r: Option<[u8; 32]>)
    ensures
        match r {
            Some(key) => strkey_account_read(text@) == Some(key@),
            None => strkey_account_read(text@) is None,
        },
{
    stellar_strkey::ed25519::PublicKey::from_string(text).ok().map(|key| key.0)
}

/// The strkey of an account.
pub uninterp spec fn strkey_account(key: Seq<u8>) -> Seq<char>;

/// `stellar_strkey::ed25519::PublicKey::to_string`. The text has 56 characters and
/// reads back as the key.
#[verifier::external_body]
pub(crate) fn account_strkey(key: &[u8; 32]) -> (r: String)
    ensures
        r@ == strkey_account(key@),
        r@.len() == 56,
        strkey_read(r@) == Some(StrkeyView::Account(key@)),
        strkey_account_read(r@) == Some(key@),
{
    stellar_strkey::ed25519::PublicKey(*key).to_string().as_str().to_owned()
}

/// The strkey of a contract.
pub uninterp spec fn strkey_contract(hash: Seq<u8>) -> Seq<char>;

/// `stellar_strkey::Contract::to_string`. The text has 56 characters and reads back as the hash.
#[verifier::external_body]
pub(crate) fn contract_strkey(hash: &[u8; 32]) -> (r: String)
    ensures
        r@ == strkey_contract(hash@),
        r@.len() == 56,
        strkey_read(r@) == Some(StrkeyView::Contract(hash@)),
        strkey_contract_read(r@) == Some(hash@),
{
    stellar_strkey::Contract(*hash).to_string().as_str().to_owned()
}

/// The strkey of a muxed account.
pub uninterp spec fn strkey_muxed(id: u64, key: Seq<u8>) -> Seq<char>;

/// `stellar_strkey::ed25519::MuxedAccount::to_string`. The text has 69 characters.
#[verifier::external_body]
pub(crate) fn muxed_strkey(id: u64, key: &[u8; 32]) -> (r: String)
    ensures
        r@ == strkey_muxed(id, key@),
        r@.len() == 69,
{
    stellar_strkey::ed25519::MuxedAccount { ed25519: *key, id }.to_string().as_str().to_owned()
}

/// The strkey of a claimable balance.
pub uninterp spec fn strkey_claimable(hash: Seq<u8>) -> Seq<char>;

/// `stellar_strkey::ClaimableBalance::to_string`, for the version in use. The text has 58
/// characters.
#[verifier::external_body]
pub(crate) fn claimable_strkey(hash: &[u8; 32]) -> (r: String)
    ensures
        r@ == strkey_claimable(hash@),
        r@.len() == 58,
{
    stellar_strkey::ClaimableBalance::V0(*hash).to_string().as_str().to_owned()
}

/// The strkey of a liquidity pool.
pub uninterp spec fn strkey_pool(hash: Seq<u8>) -> Seq<char>;

/// `stellar_strkey::LiquidityPool::to_string`. The text has 56 characters.
#[verifier::external_body]
pub(crate) fn pool_strkey(hash: &[u8; 32]) -> (r: String)
    ensures
        r@ == strkey_pool(hash@),
        r@.len() == 56,
{
    stellar_strkey::LiquidityPool(*hash).to_string().as_str().to_owned()
}

} // verus!
