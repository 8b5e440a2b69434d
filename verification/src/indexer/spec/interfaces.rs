//! Known interfaces, recognised by the functions that a contract exports.
use vstd::prelude::*;

use crate::text::same;

verus! {

broadcast use vstd::string::group_string_axioms;

/// The functions that a SEP-41 fungible token offers its clients.
pub open spec fn sep41_functions() -> Seq<Seq<char>> {
    seq![
        "allowance"@,
        "approve"@,
        "balance"@,
        "transfer"@,
        "transfer_from"@,
        "burn"@,
        "decimals"@,
        "name"@,
        "symbol"@,
    ]
}

/// The functions that a non-fungible token offers its clients.
pub open spec fn nft_functions() -> Seq<Seq<char>> {
    seq![
        "balance"@,
        "owner_of"@,
        "transfer"@,
        "approve"@,
        "get_approved"@,
        "set_approval_for_all"@,
    ]
}

/// Whether all of the required functions are among those that are there.
pub open spec fn offers(functions: Seq<Seq<char>>, required: Seq<Seq<char>>) -> bool {
    forall|i: int| 0 <= i < required.len() ==> functions.contains(#[trigger] required[i])
}

/// The texts of some string slices.
pub open spec fn str_views(v: Seq<&str>) -> Seq<Seq<char>> {
    v.map_values(|s: &str| s@)
}

/// What the functions of a contract say about it.
#[derive(Debug)]
pub struct Detected {
    /// Every interface that the contract offers.
    pub interfaces: Vec<String>,
    /// One label: that of the first interface, or `custom`.
    pub contract_type: &'static str,
}

/// The tags of the interfaces that a contract offers.
pub open spec fn interface_tags(functions: Seq<Seq<char>>) -> Seq<Seq<char>> {
    let token = if offers(functions, sep41_functions()) {
        seq!["sep41_token"@]
    } else {
        Seq::empty()
    };
    let nft = if offers(functions, nft_functions()) {
        seq!["nft"@]
    } else {
        Seq::empty()
    };
    token + nft
}

/// The label of a contract with the given functions.
pub open spec fn type_of(functions: Seq<Seq<char>>) -> Seq<char> {
    if offers(functions, sep41_functions()) {
        "token"@
    } else if offers(functions, nft_functions()) {
        "nft"@
    } else {
        "custom"@
    }
}

fn names(functions: &[&str], name: &str) -> (r: bool)
    ensures
        r == str_views(functions@).contains(name@),
{
    let mut i: usize = 0;
    while i < functions.len()
        invariant
            i <= functions.len(),
            forall|k: int| 0 <= k < i ==> (#[trigger] functions@[k])@ != name@,
        decreases functions.len() - i,
    {
        if same(functions[i], name) {
            assert(str_views(functions@)[i as int] == name@);
            return true;
        }
        i = i + 1;
    }
    assert(!str_views(functions@).contains(name@)) by {
        if str_views(functions@).contains(name@) {
            let k = choose|k: int|
                0 <= k < str_views(functions@).len() && str_views(functions@)[k] == name@;
            assert(functions@[k]@ == name@);
        }
    }
    false
}

fn implements_all(functions: &[&str], required: &[&str]) -> (r: bool)
    ensures
        r == offers(str_views(functions@), str_views(required@)),
{
    let mut i: usize = 0;
    while i < required.len()
        invariant
            i <= required.len(),
            forall|k: int|
                0 <= k < i ==> str_views(functions@).contains(#[trigger] str_views(required@)[k]),
        decreases required.len() - i,
    {
        assert(str_views(required@)[i as int] == required@[i as int]@);
        if !names(functions, required[i]) {
            return false;
        }
        i = i + 1;
    }
    true
}

/// Recognises the interfaces that the given functions make up.
pub fn detect_interfaces(functions: &[&str]) -> (r: Detected)
    ensures
        crate::text::views(r.interfaces@) == interface_tags(str_views(functions@)),
        r.contract_type@ == type_of(str_views(functions@)),
{
    let sep41: [&str; 9] = [
        "allowance",
        "approve",
        "balance",
        "transfer",
        "transfer_from",
        "burn",
        "decimals",
        "name",
        "symbol",
    ];
    let nft: [&str; 6] = [
        "balance",
        "owner_of",
        "transfer",
        "approve",
        "get_approved",
        "set_approval_for_all",
    ];
    assert(str_views(sep41@) =~= sep41_functions());
    assert(str_views(nft@) =~= nft_functions());
    let is_token = implements_all(functions, sep41.as_slice());
    let is_nft = implements_all(functions, nft.as_slice());
    let mut interfaces: Vec<String> = Vec::new();
    if is_token {
        interfaces.push("sep41_token".to_owned());
    }
    if is_nft {
        interfaces.push("nft".to_owned());
    }
    assert(crate::text::views(interfaces@) =~= interface_tags(str_views(functions@)));
    let contract_type = if is_token {
        "token"
    } else if is_nft {
        "nft"
    } else {
        "custom"
    };
    Detected { interfaces, contract_type }
}

/// More functions never take an interface away, so an implementation may add its own to those of
/// the standard.
pub proof fn extra_functions_keep_interfaces(
    functions: Seq<Seq<char>>,
    more: Seq<Seq<char>>,
    required: Seq<Seq<char>>,
)
    requires
        offers(functions, required),
    ensures
        offers(functions + more, required),
{
    assert forall|i: int| 0 <= i < required.len() implies (functions + more).contains(
        #[trigger] required[i],
    ) by {
        assert(functions.contains(required[i]));
        let k = choose|k: int| 0 <= k < functions.len() && functions[k] == required[i];
        assert((functions + more)[k] == required[i]);
    }
}

/// A contract is a token where it has all nine functions of one, and a non-fungible token where it
/// has all six of that; one that lacks a function of each is its own kind. What is both goes by the
/// label of a token.
pub proof fn interfaces_need_all_their_functions(functions: Seq<Seq<char>>)
    ensures
        ({
            let token = functions.contains("allowance"@) && functions.contains("approve"@)
                && functions.contains("balance"@) && functions.contains("transfer"@)
                && functions.contains("transfer_from"@) && functions.contains("burn"@)
                && functions.contains("decimals"@) && functions.contains("name"@)
                && functions.contains("symbol"@);
            let nft = functions.contains("balance"@) && functions.contains("owner_of"@)
                && functions.contains("transfer"@) && functions.contains("approve"@)
                && functions.contains("get_approved"@) && functions.contains(
                "set_approval_for_all"@,
            );
            &&& token ==> type_of(functions) == "token"@
            &&& !token && nft ==> type_of(functions) == "nft"@
            &&& !token && !nft ==> type_of(functions) == "custom"@
            &&& token && nft ==> interface_tags(functions) == seq!["sep41_token"@, "nft"@]
            &&& token && !nft ==> interface_tags(functions) == seq!["sep41_token"@]
            &&& !token && nft ==> interface_tags(functions) == seq!["nft"@]
            &&& !token && !nft ==> interface_tags(functions).len() == 0
        }),
{
    let t = sep41_functions();
    let n = nft_functions();
    assert(t[0] == "allowance"@ && t[1] == "approve"@ && t[2] == "balance"@ && t[3]
        == "transfer"@ && t[4] == "transfer_from"@ && t[5] == "burn"@ && t[6] == "decimals"@ && t[7]
        == "name"@ && t[8] == "symbol"@);
    assert(n[0] == "balance"@ && n[1] == "owner_of"@ && n[2] == "transfer"@ && n[3] == "approve"@
        && n[4] == "get_approved"@ && n[5] == "set_approval_for_all"@);
    if offers(functions, t) && offers(functions, n) {
        assert(interface_tags(functions) =~= seq!["sep41_token"@, "nft"@]);
    } else if offers(functions, t) {
        assert(interface_tags(functions) =~= seq!["sep41_token"@]);
    } else if offers(functions, n) {
        assert(interface_tags(functions) =~= seq!["nft"@]);
    }
}

} // verus!
