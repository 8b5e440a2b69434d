//! Contracts of classic assets.
//!
//! The contract of a classic asset has no deployment of its own: its id follows from the asset
//! and the network. Deriving it forward from the assets that are tracked tells which events are
//! theirs.
use sha2::Digest;
use stellar_xdr::curr::AccountId;
use stellar_xdr::curr::AlphaNum12;
use stellar_xdr::curr::AlphaNum4;
use stellar_xdr::curr::AssetCode12;
use stellar_xdr::curr::AssetCode4;
use stellar_xdr::curr::ContractIdPreimage;
use stellar_xdr::curr::HashIdPreimage;
use stellar_xdr::curr::HashIdPreimageContractId;
use stellar_xdr::curr::Limits;
use stellar_xdr::curr::PublicKey;
use stellar_xdr::curr::Uint256;
use stellar_xdr::curr::WriteXdr;
use vstd::prelude::*;

use crate::errors::ErrorSource;
use crate::errors::TridentError;
use crate::strkey::contract_strkey;
use crate::strkey::read_account_strkey;
use crate::strkey::strkey_account_read;
use crate::strkey::strkey_contract;
use crate::text::eq_ignore_ascii_case;
use crate::text::quote;
use crate::text::quoted;
use crate::text::same;
use crate::text::same_ignoring_ascii_case;

verus! {

broadcast use vstd::string::group_string_axioms;

/// A classic asset whose contract is tracked.
#[derive(Debug, PartialEq, Eq)]
pub struct TrackedAsset {
    /// The code of the asset, or `native` for the native one.
    pub code: String,
    /// The strkey of the account that issues it; without meaning for the native asset.
    pub issuer: String,
}

/// A classic asset, with its code padded by zero bytes.
#[allow(inconsistent_fields)]
#[derive(Debug, Clone, Copy)]
pub enum ClassicAsset {
    Native,
    AlphaNum4 { code: [u8; 4], issuer: [u8; 32] },
    AlphaNum12 { code: [u8; 12], issuer: [u8; 32] },
}

/// What a classic asset is.
pub enum AssetView {
    Native,
    AlphaNum4 { code: Seq<u8>, issuer: Seq<u8> },
    AlphaNum12 { code: Seq<u8>, issuer: Seq<u8> },
}

impl View for ClassicAsset {
    type V = AssetView;

    open spec fn view(&self) -> AssetView {
        match *self {
            ClassicAsset::Native => AssetView::Native,
            ClassicAsset::AlphaNum4 { code, issuer } => AssetView::AlphaNum4 {
                code: code@,
                issuer: issuer@,
            },
            ClassicAsset::AlphaNum12 { code, issuer } => AssetView::AlphaNum12 {
                code: code@,
                issuer: issuer@,
            },
        }
    }
}

/// The SHA-256 digest of some bytes.
pub uninterp spec fn sha256(bytes: Seq<u8>) -> Seq<u8>;

/// `Sha256::digest` of the `sha2` crate.
#[verifier::external_body]
pub(crate) fn digest(bytes: &[u8]) -> (r: [u8; 32])
    ensures
        r@ == sha256(bytes@),
{
    sha2::Sha256::digest(bytes).into()
}

/// The XDR of an asset: its kind as a 32-bit number, then code and issuer.
pub open spec fn asset_xdr(asset: AssetView) -> Seq<u8> {
    match asset {
        AssetView::Native => seq![0u8, 0, 0, 0],
        AssetView::AlphaNum4 { code, issuer } => seq![0u8, 0, 0, 1] + code + seq![0u8, 0, 0, 0]
            + issuer,
        AssetView::AlphaNum12 { code, issuer } => seq![0u8, 0, 0, 2] + code + seq![0u8, 0, 0, 0]
            + issuer,
    }
}

/// The XDR of what the id of an asset's contract is the hash of.
pub open spec fn preimage_xdr(network_id: Seq<u8>, asset: AssetView) -> Seq<u8> {
    seq![0u8, 0, 0, 8] + network_id + seq![0u8, 0, 0, 1] + asset_xdr(asset)
}

/// A classic asset in the form of `stellar_xdr`.
#[verifier::external_type_specification]
#[verifier::external_body]
pub struct ExXdrAsset(stellar_xdr::curr::Asset);

/// What an asset in the form of `stellar_xdr` holds.
pub uninterp spec fn asset_contents(asset: stellar_xdr::curr::Asset) -> AssetView;

/// Builds `stellar_xdr`'s `Asset`, variant by variant.
#[verifier::external_body]
fn xdr_asset(asset: ClassicAsset) -> (r: stellar_xdr::curr::Asset)
    ensures
        asset_contents(r) == asset@,
{
    match asset {
        ClassicAsset::Native => stellar_xdr::curr::Asset::Native,
        ClassicAsset::AlphaNum4 { code, issuer } => stellar_xdr::curr::Asset::CreditAlphanum4(AlphaNum4 {
            asset_code: AssetCode4(code),
            issuer: AccountId(PublicKey::PublicKeyTypeEd25519(Uint256(issuer))),
        }),
        ClassicAsset::AlphaNum12 { code, issuer } => stellar_xdr::curr::Asset::CreditAlphanum12(AlphaNum12 {
            asset_code: AssetCode12(code),
            issuer: AccountId(PublicKey::PublicKeyTypeEd25519(Uint256(issuer))),
        }),
    }
}

/// `WriteXdr::to_xdr` of the `stellar_xdr` crate on the `HashIdPreimage` of an asset's contract.
/// Writing to memory without limits always succeeds.
#[verifier::external_body]
fn write_preimage(network_id: [u8; 32], asset: stellar_xdr::curr::Asset) -> (r: Result<
    Vec<u8>,
    String,
>)
    ensures
        r is Ok,
        r->Ok_0@ == preimage_xdr(network_id@, asset_contents(asset)),
{
    let preimage = HashIdPreimage::ContractId(HashIdPreimageContractId {
        network_id: stellar_xdr::curr::Hash(network_id),
        contract_id_preimage: ContractIdPreimage::Asset(asset),
    });
    preimage.to_xdr(Limits::none()).map_err(|e| e.to_string())
}

/// The bytes of a code, padded with zeros to `n`.
pub open spec fn padded(code: Seq<u8>, n: nat) -> Seq<u8> {
    Seq::new(
        n,
        |i: int|
            if i < code.len() {
                code[i]
            } else {
                0u8
            },
    )
}

/// The asset that a code and an issuer name, or the message of the error.
pub open spec fn asset_of(code: Seq<char>, issuer: Seq<char>) -> Result<AssetView, Seq<char>> {
    let bytes = vstd::utf8::encode_utf8(code);
    if same_ignoring_ascii_case(code, "native"@) {
        Ok(AssetView::Native)
    } else if bytes.len() == 0 || bytes.len() > 12 {
        Err("SAC asset code "@ + quoted(code) + " must be 1-12 characters"@)
    } else {
        match strkey_account_read(issuer) {
            None => Err(
                "SAC asset issuer "@ + quoted(issuer) + " invalid: the strkey is invalid"@,
            ),
            Some(key) => if bytes.len() <= 4 {
                Ok(AssetView::AlphaNum4 { code: padded(bytes, 4), issuer: key })
            } else {
                Ok(AssetView::AlphaNum12 { code: padded(bytes, 12), issuer: key })
            },
        }
    }
}

/// Builds the asset that a code and an issuer name.
pub fn build_asset(code: &str, issuer: &str) -> (r: Result<ClassicAsset, TridentError>)
    ensures
        match r {
            Ok(asset) => asset_of(code@, issuer@) == Ok::<AssetView, Seq<char>>(asset@),
            Err(e) => e is ConfigError && asset_of(code@, issuer@) == Err::<AssetView, Seq<char>>(
                e.cause().text(),
            ),
        },
{
    if eq_ignore_ascii_case(code, "native") {
        return Ok(ClassicAsset::Native);
    }
    let bytes = code.as_bytes();
    if bytes.len() == 0 || bytes.len() > 12 {
        let mut text = "SAC asset code ".to_owned();
        text.append(quote(code).as_str());
        text.append(" must be 1-12 characters");
        return Err(TridentError::config(ErrorSource::msg(text)));
    }
    let key = match read_account_strkey(issuer) {
        Some(key) => key,
        None => {
            let mut text = "SAC asset issuer ".to_owned();
            text.append(quote(issuer).as_str());
            text.append(" invalid: the strkey is invalid");
            return Err(TridentError::config(ErrorSource::msg(text)));
        },
    };
    if bytes.len() <= 4 {
        let mut padded4: [u8; 4] = [0; 4];
        let mut i: usize = 0;
        while i < bytes.len()
            invariant
                i <= bytes.len() <= 4,
                forall|k: int|
                    0 <= k < 4 ==> #[trigger] padded4@[k] == if k < i {
                        bytes@[k]
                    } else {
                        0u8
                    },
            decreases bytes.len() - i,
        {
            padded4[i] = bytes[i];
            i = i + 1;
        }
        assert(padded4@ =~= padded(bytes@, 4));
        Ok(ClassicAsset::AlphaNum4 { code: padded4, issuer: key })
    } else {
        let mut padded12: [u8; 12] = [0; 12];
        let mut i: usize = 0;
        while i < bytes.len()
            invariant
                i <= bytes.len() <= 12,
                forall|k: int|
                    0 <= k < 12 ==> #[trigger] padded12@[k] == if k < i {
                        bytes@[k]
                    } else {
                        0u8
                    },
            decreases bytes.len() - i,
        {
            padded12[i] = bytes[i];
            i = i + 1;
        }
        assert(padded12@ =~= padded(bytes@, 12));
        Ok(ClassicAsset::AlphaNum12 { code: padded12, issuer: key })
    }
}

/// The id of the contract of an asset: the strkey of the hash of network and asset.
pub open spec fn asset_contract_id(asset: AssetView, passphrase: Seq<char>) -> Seq<char> {
    strkey_contract(
        sha256(preimage_xdr(sha256(vstd::utf8::encode_utf8(passphrase)), asset)),
    )
}

/// The id of the contract of a named asset, or the message of the error.
pub open spec fn sac_contract_id(
    code: Seq<char>,
    issuer: Seq<char>,
    passphrase: Seq<char>,
) -> Result<Seq<char>, Seq<char>> {
    match asset_of(code, issuer) {
        Ok(asset) => Ok(asset_contract_id(asset, passphrase)),
        Err(e) => Err(e),
    }
}

/// Derives the id of the contract of an asset on the network with the given passphrase.
pub fn derive_sac_contract_id(asset_code: &str, issuer: &str, network_passphrase: &str) -> (r: Result<
    String,
    TridentError,
>)
    ensures
        match r {
            Ok(id) => sac_contract_id(asset_code@, issuer@, network_passphrase@) == Ok::<
                Seq<char>,
                Seq<char>,
            >(id@),
            Err(e) => e is ConfigError && sac_contract_id(
                asset_code@,
                issuer@,
                network_passphrase@,
            ) == Err::<Seq<char>, Seq<char>>(e.cause().text()),
        },
{
    let asset = match build_asset(asset_code, issuer) {
        Ok(asset) => asset,
        Err(e) => return Err(e),
    };
    let network_id = digest(network_passphrase.as_bytes());
    match write_preimage(network_id, xdr_asset(asset)) {
        Ok(bytes) => {
            let hash = digest(&bytes);
            Ok(contract_strkey(&hash))
        },
        Err(e) => Err(
            TridentError::config(
                ErrorSource::msg(e).context("SAC preimage XDR encode".to_owned()),
            ),
        ),
    }
}

/// A tracked contract with its asset.
#[derive(Debug)]
struct SacRow {
    contract_id: String,
    code: String,
    issuer: String,
}

/// The assets of the tracked contracts, by contract id.
#[derive(Debug)]
pub struct SacRegistry {
    rows: Vec<SacRow>,
}

spec fn rows_view(rows: Seq<SacRow>) -> Map<Seq<char>, (Seq<char>, Seq<char>)>
    decreases rows.len(),
{
    if rows.len() == 0 {
        Map::empty()
    } else {
        rows_view(rows.drop_last()).insert(
            rows.last().contract_id@,
            (rows.last().code@, rows.last().issuer@),
        )
    }
}

impl View for SacRegistry {
    type V = Map<Seq<char>, (Seq<char>, Seq<char>)>;

    closed spec fn view(&self) -> Map<Seq<char>, (Seq<char>, Seq<char>)> {
        rows_view(self.rows@)
    }
}

impl Default for SacRegistry {
    fn default() -> (r: Self)
        ensures
            r@ == Map::<Seq<char>, (Seq<char>, Seq<char>)>::empty(),
    {
        SacRegistry { rows: Vec::new() }
    }
}

/// The registry of some assets: every asset under the id of its contract, a later one in place of
/// an earlier one with the same id. A single asset that cannot be derived fails the whole, with
/// the message for the first such asset.
pub open spec fn registry_of(assets: Seq<TrackedAsset>, passphrase: Seq<char>) -> Result<
    Map<Seq<char>, (Seq<char>, Seq<char>)>,
    Seq<char>,
>
    decreases assets.len(),
{
    if assets.len() == 0 {
        Ok(Map::empty())
    } else {
        let asset = assets.last();
        match registry_of(assets.drop_last(), passphrase) {
            Err(e) => Err(e),
            Ok(before) => match sac_contract_id(asset.code@, asset.issuer@, passphrase) {
                Err(e) => Err(e),
                Ok(id) => Ok(before.insert(id, (asset.code@, asset.issuer@))),
            },
        }
    }
}

proof fn lemma_registry_error_stays(
    assets: Seq<TrackedAsset>,
    k: int,
    passphrase: Seq<char>,
)
    requires
        0 <= k <= assets.len(),
        registry_of(assets.take(k), passphrase) is Err,
    ensures
        registry_of(assets, passphrase) == registry_of(assets.take(k), passphrase),
    decreases assets.len() - k,
{
    if k == assets.len() {
        assert(assets.take(k) =~= assets);
    } else {
        assert(assets.take(k + 1).drop_last() =~= assets.take(k));
        lemma_registry_error_stays(assets, k + 1, passphrase);
    }
}

impl SacRegistry {
    /// Derives the contract id of every asset and keeps the asset under it.
    pub fn build(assets: &[TrackedAsset], network_passphrase: &str) -> (r: Result<
        Self,
        TridentError,
    >)
        ensures
            match r {
                Ok(registry) => registry_of(assets@, network_passphrase@) == Ok::<
                    Map<Seq<char>, (Seq<char>, Seq<char>)>,
                    Seq<char>,
                >(registry@),
                Err(e) => e is ConfigError && registry_of(assets@, network_passphrase@) == Err::<
                    Map<Seq<char>, (Seq<char>, Seq<char>)>,
                    Seq<char>,
                >(e.cause().text()),
            },
    {
        let mut rows: Vec<SacRow> = Vec::new();
        let mut i: usize = 0;
        assert(assets@.take(0) =~= Seq::<TrackedAsset>::empty());
        while i < assets.len()
            invariant
                i <= assets.len(),
                registry_of(assets@.take(i as int), network_passphrase@) == Ok::<
                    Map<Seq<char>, (Seq<char>, Seq<char>)>,
                    Seq<char>,
                >(rows_view(rows@)),
            decreases assets.len() - i,
        {
            assert(assets@.take(i + 1).drop_last() =~= assets@.take(i as int));
            assert(assets@.take(i + 1).last() == assets@[i as int]);
            let asset = &assets[i];
            let id = match derive_sac_contract_id(
                asset.code.as_str(),
                asset.issuer.as_str(),
                network_passphrase,
            ) {
                Ok(id) => id,
                Err(e) => {
                    proof {
                        lemma_registry_error_stays(assets@, i + 1, network_passphrase@);
                    }
                    return Err(e);
                },
            };
            let ghost before = rows@;
            rows.push(
                SacRow { contract_id: id, code: asset.code.clone(), issuer: asset.issuer.clone() },
            );
            assert(rows@.drop_last() =~= before);
            i = i + 1;
        }
        assert(assets@.take(i as int) =~= assets@);
        Ok(SacRegistry { rows })
    }

    /// The code and the issuer of the asset whose contract has the given id.
    pub fn lookup(&self, contract_id: &str) -> (r: Option<(&str, &str)>)
        ensures
            match r {
                Some((code, issuer)) => self@.dom().contains(contract_id@) && self@[contract_id@]
                    == (code@, issuer@),
                None => !self@.dom().contains(contract_id@),
            },
    {
        let mut i: usize = self.rows.len();
        assert(self.rows@.take(i as int) =~= self.rows@);
        while i > 0
            invariant
                i <= self.rows.len(),
                self@.dom().contains(contract_id@) <==> rows_view(
                    self.rows@.take(i as int),
                ).dom().contains(contract_id@),
                self@.dom().contains(contract_id@) ==> self@[contract_id@] == rows_view(
                    self.rows@.take(i as int),
                )[contract_id@],
            decreases i,
        {
            i = i - 1;
            let ghost prefix = self.rows@.take(i + 1);
            assert(prefix.drop_last() =~= self.rows@.take(i as int));
            assert(prefix.last() == self.rows@[i as int]);
            if same(self.rows[i].contract_id.as_str(), contract_id) {
                return Some((self.rows[i].code.as_str(), self.rows[i].issuer.as_str()));
            }
        }
        assert(self.rows@.take(0) =~= Seq::<SacRow>::empty());
        None
    }
}

/// A registry knows exactly the ids of the contracts of its assets.
pub proof fn registry_knows_its_assets_and_no_others(
    assets: Seq<TrackedAsset>,
    passphrase: Seq<char>,
    id: Seq<char>,
)
    requires
        registry_of(assets, passphrase) is Ok,
    ensures
        registry_of(assets, passphrase)->Ok_0.dom().contains(id) <==> exists|i: int|
            0 <= i < assets.len() && #[trigger] sac_contract_id(
                assets[i].code@,
                assets[i].issuer@,
                passphrase,
            ) == Ok::<Seq<char>, Seq<char>>(id),
    decreases assets.len(),
{
    if assets.len() > 0 {
        let before = assets.drop_last();
        registry_knows_its_assets_and_no_others(before, passphrase, id);
        let n = assets.len() - 1;
        assert(assets.last() == assets[n]);
        if registry_of(assets, passphrase)->Ok_0.dom().contains(id) {
            if registry_of(before, passphrase)->Ok_0.dom().contains(id) {
                let i = choose|i: int|
                    0 <= i < before.len() && #[trigger] sac_contract_id(
                        before[i].code@,
                        before[i].issuer@,
                        passphrase,
                    ) == Ok::<Seq<char>, Seq<char>>(id);
                assert(before[i] == assets[i]);
                assert(sac_contract_id(assets[i].code@, assets[i].issuer@, passphrase) == Ok::<
                    Seq<char>,
                    Seq<char>,
                >(id));
            } else {
                assert(sac_contract_id(assets[n].code@, assets[n].issuer@, passphrase) == Ok::<
                    Seq<char>,
                    Seq<char>,
                >(id));
            }
        }
        if exists|i: int|
            0 <= i < assets.len() && #[trigger] sac_contract_id(
                assets[i].code@,
                assets[i].issuer@,
                passphrase,
            ) == Ok::<Seq<char>, Seq<char>>(id) {
            let i = choose|i: int|
                0 <= i < assets.len() && #[trigger] sac_contract_id(
                    assets[i].code@,
                    assets[i].issuer@,
                    passphrase,
                ) == Ok::<Seq<char>, Seq<char>>(id);
            if i < n {
                assert(before[i] == assets[i]);
                assert(sac_contract_id(before[i].code@, before[i].issuer@, passphrase) == Ok::<
                    Seq<char>,
                    Seq<char>,
                >(id));
            }
        }
    }
}

/// A code names the shortest kind of asset that holds it: up to four bytes the one with four, up to
/// twelve the one with twelve, with zero bytes behind its own. No other length names an asset, and
/// neither does an issuer that is no account.
pub proof fn codes_name_the_shortest_kind(code: Seq<char>, issuer: Seq<char>)
    requires
        !same_ignoring_ascii_case(code, "native"@),
    ensures
        ({
            let bytes = vstd::utf8::encode_utf8(code);
            let key = strkey_account_read(issuer);
            match asset_of(code, issuer) {
                Ok(AssetView::Native) => false,
                Ok(AssetView::AlphaNum4 { code: held, issuer: by }) => {
                    &&& key == Some(by)
                    &&& 1 <= bytes.len() <= 4 && held.len() == 4
                    &&& held.take(bytes.len() as int) == bytes
                    &&& forall|i: int| bytes.len() <= i < 4 ==> #[trigger] held[i] == 0
                },
                Ok(AssetView::AlphaNum12 { code: held, issuer: by }) => {
                    &&& key == Some(by)
                    &&& 5 <= bytes.len() <= 12 && held.len() == 12
                    &&& held.take(bytes.len() as int) == bytes
                    &&& forall|i: int| bytes.len() <= i < 12 ==> #[trigger] held[i] == 0
                },
                Err(_) => bytes.len() == 0 || bytes.len() > 12 || key is None,
            }
        }),
{
    let bytes = vstd::utf8::encode_utf8(code);
    if 1 <= bytes.len() <= 4 {
        assert(padded(bytes, 4).take(bytes.len() as int) =~= bytes);
    } else if 5 <= bytes.len() <= 12 {
        assert(padded(bytes, 12).take(bytes.len() as int) =~= bytes);
    }
}

/// The native asset is named by its code alone, in whatever case it is written and with any issuer.
pub proof fn the_native_asset_has_no_issuer(code: Seq<char>, issuer: Seq<char>)
    requires
        code.len() == 6,
        forall|i: int|
            0 <= i < 6 ==> #[trigger] code[i] == "native"@[i] || code[i] == "NATIVE"@[i],
    ensures
        asset_of(code, issuer) == Ok::<AssetView, Seq<char>>(AssetView::Native),
{
    reveal_strlit("native");
    reveal_strlit("NATIVE");
    let low = "native"@;
    assert forall|i: int| 0 <= i < 6 implies crate::text::ascii_lower(#[trigger] code[i])
        == crate::text::ascii_lower(low[i]) by {}
}

/// The id of the contract of an asset is the strkey of the hash of the network and the asset: eight,
/// the hash of the passphrase, one, and then the kind of the asset with its code and issuer.
pub proof fn contract_ids_are_hashes_of_network_and_asset(
    code: Seq<char>,
    issuer: Seq<char>,
    passphrase: Seq<char>,
)
    requires
        asset_of(code, issuer) is Ok,
    ensures
        ({
            let network = sha256(vstd::utf8::encode_utf8(passphrase));
            let asset = match asset_of(code, issuer)->Ok_0 {
                AssetView::Native => seq![0u8, 0, 0, 0],
                AssetView::AlphaNum4 { code, issuer } => seq![0u8, 0, 0, 1] + code + seq![0u8, 0, 0, 0]
                    + issuer,
                AssetView::AlphaNum12 { code, issuer } => seq![0u8, 0, 0, 2] + code
                    + seq![0u8, 0, 0, 0] + issuer,
            };
            sac_contract_id(code, issuer, passphrase) == Ok::<Seq<char>, Seq<char>>(
                strkey_contract(
                    sha256(seq![0u8, 0, 0, 8] + network + seq![0u8, 0, 0, 1] + asset),
                ),
            )
        }),
{
}

/// What is hashed for two assets is the same only where network and asset are.
pub proof fn preimages_tell_assets_apart(
    network: Seq<u8>,
    asset: AssetView,
    other_network: Seq<u8>,
    other: AssetView,
)
    requires
        network.len() == 32,
        other_network.len() == 32,
        asset matches AssetView::AlphaNum4 { code, issuer } ==> code.len() == 4,
        other matches AssetView::AlphaNum4 { code, issuer } ==> code.len() == 4,
        asset matches AssetView::AlphaNum12 { code, issuer } ==> code.len() == 12,
        other matches AssetView::AlphaNum12 { code, issuer } ==> code.len() == 12,
        preimage_xdr(network, asset) == preimage_xdr(other_network, other),
    ensures
        network == other_network,
        asset == other,
{
    let p = preimage_xdr(network, asset);
    let q = preimage_xdr(other_network, other);
    assert(p.subrange(4, 36) =~= network);
    assert(q.subrange(4, 36) =~= other_network);
    assert(p.skip(40) =~= asset_xdr(asset));
    assert(q.skip(40) =~= asset_xdr(other));
    assert(asset_xdr(asset)[3] == asset_xdr(other)[3]);
    match asset {
        AssetView::Native => {},
        AssetView::AlphaNum4 { code, issuer } => {
            assert(asset_xdr(asset).subrange(4, 8) =~= code);
            assert(asset_xdr(asset).skip(12) =~= issuer);
            if let AssetView::AlphaNum4 { code: c, issuer: i } = other {
                assert(asset_xdr(other).subrange(4, 8) =~= c);
                assert(asset_xdr(other).skip(12) =~= i);
            }
        },
        AssetView::AlphaNum12 { code, issuer } => {
            assert(asset_xdr(asset).subrange(4, 16) =~= code);
            assert(asset_xdr(asset).skip(20) =~= issuer);
            if let AssetView::AlphaNum12 { code: c, issuer: i } = other {
                assert(asset_xdr(other).subrange(4, 16) =~= c);
                assert(asset_xdr(other).skip(20) =~= i);
            }
        },
    }
}

/// Under the id of an asset's contract stand the code and the issuer of that asset, or of a later one
/// with the same id.
pub proof fn registered_ids_lead_to_their_asset(
    assets: Seq<TrackedAsset>,
    passphrase: Seq<char>,
    id: Seq<char>,
)
    requires
        registry_of(assets, passphrase) is Ok,
        registry_of(assets, passphrase)->Ok_0.dom().contains(id),
    ensures
        exists|i: int|
            {
                &&& 0 <= i < assets.len()
                &&& #[trigger] sac_contract_id(assets[i].code@, assets[i].issuer@, passphrase)
                    == Ok::<Seq<char>, Seq<char>>(id)
                &&& registry_of(assets, passphrase)->Ok_0[id] == (
                    assets[i].code@,
                    assets[i].issuer@,
                )
                &&& forall|j: int|
                    i < j < assets.len() ==> #[trigger] sac_contract_id(
                        assets[j].code@,
                        assets[j].issuer@,
                        passphrase,
                    ) != Ok::<Seq<char>, Seq<char>>(id)
            },
    decreases assets.len(),
{
    if assets.len() > 0 {
        let n = assets.len() - 1;
        let before = assets.drop_last();
        assert(assets.last() == assets[n]);
        let last = sac_contract_id(assets[n].code@, assets[n].issuer@, passphrase);
        if last == Ok::<Seq<char>, Seq<char>>(id) {
            assert(sac_contract_id(assets[n].code@, assets[n].issuer@, passphrase) == Ok::<
                Seq<char>,
                Seq<char>,
            >(id));
        } else {
            registered_ids_lead_to_their_asset(before, passphrase, id);
            let i = choose|i: int|
                {
                    &&& 0 <= i < before.len()
                    &&& #[trigger] sac_contract_id(before[i].code@, before[i].issuer@, passphrase)
                        == Ok::<Seq<char>, Seq<char>>(id)
                    &&& registry_of(before, passphrase)->Ok_0[id] == (
                        before[i].code@,
                        before[i].issuer@,
                    )
                    &&& forall|j: int|
                        i < j < before.len() ==> #[trigger] sac_contract_id(
                            before[j].code@,
                            before[j].issuer@,
                            passphrase,
                        ) != Ok::<Seq<char>, Seq<char>>(id)
                };
            assert(before[i] == assets[i]);
            assert forall|j: int| i < j < assets.len() implies #[trigger] sac_contract_id(
                assets[j].code@,
                assets[j].issuer@,
                passphrase,
            ) != Ok::<Seq<char>, Seq<char>>(id) by {
                if j < n {
                    assert(before[j] == assets[j]);
                    assert(sac_contract_id(before[j].code@, before[j].issuer@, passphrase) != Ok::<
                        Seq<char>,
                        Seq<char>,
                    >(id));
                }
            }
            assert(sac_contract_id(assets[i].code@, assets[i].issuer@, passphrase) == Ok::<
                Seq<char>,
                Seq<char>,
            >(id));
        }
    }
}

/// A registry is made exactly where every asset has a contract.
pub proof fn one_bad_asset_fails_the_registry(assets: Seq<TrackedAsset>, passphrase: Seq<char>)
    ensures
        registry_of(assets, passphrase) is Ok <==> forall|i: int|
            0 <= i < assets.len() ==> (#[trigger] sac_contract_id(
                assets[i].code@,
                assets[i].issuer@,
                passphrase,
            )) is Ok,
    decreases assets.len(),
{
    if assets.len() > 0 {
        let n = assets.len() - 1;
        let before = assets.drop_last();
        one_bad_asset_fails_the_registry(before, passphrase);
        assert(assets.last() == assets[n]);
        if registry_of(assets, passphrase) is Ok {
            assert forall|i: int| 0 <= i < assets.len() implies (#[trigger] sac_contract_id(
                assets[i].code@,
                assets[i].issuer@,
                passphrase,
            )) is Ok by {
                if i < n {
                    assert(before[i] == assets[i]);
                }
            }
        } else if forall|i: int|
            0 <= i < assets.len() ==> (#[trigger] sac_contract_id(
                assets[i].code@,
                assets[i].issuer@,
                passphrase,
            )) is Ok {
            assert forall|i: int| 0 <= i < before.len() implies (#[trigger] sac_contract_id(
                before[i].code@,
                before[i].issuer@,
                passphrase,
            )) is Ok by {
                assert(before[i] == assets[i]);
                assert(sac_contract_id(assets[i].code@, assets[i].issuer@, passphrase) is Ok);
            }
            assert(sac_contract_id(assets[n].code@, assets[n].issuer@, passphrase) is Ok);
        }
    }
}

/// A code of up to four bytes makes an asset with a code of four, one of five to twelve bytes an
/// asset with a code of twelve; both hold the bytes from the front and the key of the issuer.
pub proof fn built_assets_hold_code_and_issuer(code: &str, issuer: &str, asset: ClassicAsset)
    requires
        call_ensures(build_asset, (code, issuer), Ok(asset)),
        !same_ignoring_ascii_case(code@, "native"@),
    ensures
        ({
            let bytes = vstd::utf8::encode_utf8(code@);
            &&& 1 <= bytes.len() <= 12
            &&& bytes.len() <= 4 <==> asset is AlphaNum4
            &&& bytes.len() > 4 <==> asset is AlphaNum12
            &&& asset matches ClassicAsset::AlphaNum4 { code: held, issuer: by } ==> {
                &&& strkey_account_read(issuer@) == Some(by@)
                &&& held@.take(bytes.len() as int) == bytes
            }
            &&& asset matches ClassicAsset::AlphaNum12 { code: held, issuer: by } ==> {
                &&& strkey_account_read(issuer@) == Some(by@)
                &&& held@.take(bytes.len() as int) == bytes
            }
        }),
{
    codes_name_the_shortest_kind(code@, issuer@);
}

/// A code of no bytes or of more than twelve is refused by its name, whatever the issuer; with a
/// code that will do, an issuer that is no account is.
pub proof fn refused_assets_are_named(code: &str, issuer: &str, r: Result<ClassicAsset, TridentError>)
    requires
        call_ensures(build_asset, (code, issuer), r),
        !same_ignoring_ascii_case(code@, "native"@),
    ensures
        ({
            let n = vstd::utf8::encode_utf8(code@).len();
            &&& n == 0 || n > 12 ==> r is Err && r->Err_0 is ConfigError
                && r->Err_0.cause().text() == "SAC asset code "@ + quoted(code@)
                + " must be 1-12 characters"@
            &&& 1 <= n <= 12 && strkey_account_read(issuer@) is None ==> r is Err && r->Err_0
                is ConfigError && r->Err_0.cause().text() == "SAC asset issuer "@ + quoted(issuer@)
                + " invalid: the strkey is invalid"@
            &&& 1 <= n <= 12 && strkey_account_read(issuer@) is Some ==> r is Ok
        }),
{
}

} // verus!
