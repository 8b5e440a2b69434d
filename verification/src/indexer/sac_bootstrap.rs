//! The well-known asset contracts with which the list of contracts to index is seeded.
use vstd::prelude::*;

use crate::text::char_views;
use crate::text::chars_of;
use crate::text::same;
use crate::text::split;
use crate::text::split_chars;
use crate::text::string_of;
use crate::text::trim;
use crate::text::trim_chars;

verus! {

broadcast use vstd::string::group_string_axioms;

/// A well-known asset contract.
#[derive(Debug, Clone, Copy)]
pub struct SacEntry {
    pub label: &'static str,
    pub contract_id: &'static str,
}

/// The label and the id of a contract.
pub open spec fn entry_texts(entry: SacEntry) -> (Seq<char>, Seq<char>) {
    (entry.label@, entry.contract_id@)
}

/// The labels and the ids of the well-known contracts of the main network.
pub open spec fn mainnet_list() -> Seq<(Seq<char>, Seq<char>)> {
    seq![
        ("USDC (mainnet)"@, "CCW67TSZV3SSS2HXMBQ5JFGCKJNXKZM7UQUWUZPUTHXSTZLEO7SJMI75"@),
        ("XLM native SAC (mainnet)"@, "CAS3J7GYLGXMF6TDJBBYYSE3HQ6BBSMLNUQ34T6TZMYMW2EVH34XOWMA"@),
        ("AQUA (mainnet)"@, "CBDGDGC4AZEWDXAJVZWMQIUGJHH5AJ2VC7TLBKM7K2AWFH5QJKTBAHEF"@),
    ]
}

/// The labels and the ids of the well-known contracts of the test network.
pub open spec fn testnet_list() -> Seq<(Seq<char>, Seq<char>)> {
    seq![
        ("XLM native SAC (testnet)"@, "CDLZFC3SYJYDZT7K67VZ75HPJVIEUVNIXF47ZG2FB2RMQQVU2HHGCYSC"@),
        ("USDC (testnet)"@, "CBIELTK6YBZJU5UP2WWQEUCYKLPU6AUNZ2BQ4WWFEIE3USCIHMXQDAMA"@),
    ]
}

/// The well-known contracts of the main network.
pub fn mainnet_sacs() -> (r: [SacEntry; 3])
    ensures
        r@.map_values(|e: SacEntry| entry_texts(e)) == mainnet_list(),
{
    let all = [
        SacEntry {
            label: "USDC (mainnet)",
            contract_id: "CCW67TSZV3SSS2HXMBQ5JFGCKJNXKZM7UQUWUZPUTHXSTZLEO7SJMI75",
        },
        SacEntry {
            label: "XLM native SAC (mainnet)",
            contract_id: "CAS3J7GYLGXMF6TDJBBYYSE3HQ6BBSMLNUQ34T6TZMYMW2EVH34XOWMA",
        },
        SacEntry {
            label: "AQUA (mainnet)",
            contract_id: "CBDGDGC4AZEWDXAJVZWMQIUGJHH5AJ2VC7TLBKM7K2AWFH5QJKTBAHEF",
        },
    ];
    assert(all@.map_values(|e: SacEntry| entry_texts(e)) =~= mainnet_list());
    all
}

/// The well-known contracts of the test network.
pub fn testnet_sacs() -> (r: [SacEntry; 2])
    ensures
        r@.map_values(|e: SacEntry| entry_texts(e)) == testnet_list(),
{
    let all = [
        SacEntry {
            label: "XLM native SAC (testnet)",
            contract_id: "CDLZFC3SYJYDZT7K67VZ75HPJVIEUVNIXF47ZG2FB2RMQQVU2HHGCYSC",
        },
        SacEntry {
            label: "USDC (testnet)",
            contract_id: "CBIELTK6YBZJU5UP2WWQEUCYKLPU6AUNZ2BQ4WWFEIE3USCIHMXQDAMA",
        },
    ];
    assert(all@.map_values(|e: SacEntry| entry_texts(e)) =~= testnet_list());
    all
}

/// The first position of a character in a text, or the length of the text.
pub open spec fn first_of(s: Seq<char>, c: char) -> int
    decreases s.len(),
{
    if s.len() == 0 {
        0
    } else if s[0] == c {
        0
    } else {
        1 + first_of(s.skip(1), c)
    }
}

proof fn lemma_first_of(s: Seq<char>, c: char)
    ensures
        0 <= first_of(s, c) <= s.len(),
        first_of(s, c) < s.len() ==> s[first_of(s, c)] == c,
        forall|k: int| 0 <= k < first_of(s, c) ==> s[k] != c,
    decreases s.len(),
{
    if s.len() > 0 && s[0] != c {
        lemma_first_of(s.skip(1), c);
        let n = first_of(s.skip(1), c);
        if n < s.skip(1).len() {
            assert(s.skip(1)[n] == s[n + 1]);
        }
        assert forall|k: int| 0 <= k < n + 1 implies s[k] != c by {
            if k > 0 {
                assert(s.skip(1)[k - 1] == s[k]);
            }
        }
    }
}

/// The label and the id of an entry, which the first colon parts. An entry without a colon, or in
/// which one of the two is blank, gives none.
pub open spec fn override_of(entry: Seq<char>) -> Option<(Seq<char>, Seq<char>)> {
    let n = first_of(entry, ':');
    let label = trim(entry.take(n));
    let id = trim(entry.skip(n + 1));
    if n >= entry.len() || label.len() == 0 || id.len() == 0 {
        None
    } else {
        Some((label, id))
    }
}

/// The labels and ids of the entries that are well formed, in order.
pub open spec fn overrides_of(entries: Seq<Seq<char>>) -> Seq<(Seq<char>, Seq<char>)>
    decreases entries.len(),
{
    if entries.len() == 0 {
        Seq::empty()
    } else {
        let before = overrides_of(entries.drop_last());
        match override_of(entries.last()) {
            Some(pair) => before.push(pair),
            None => before,
        }
    }
}

/// What pairs of texts are.
pub open spec fn pair_views(pairs: Seq<(String, String)>) -> Seq<(Seq<char>, Seq<char>)> {
    pairs.map_values(|p: (String, String)| (p.0@, p.1@))
}

fn colon(s: &[char]) -> (r: usize)
    ensures
        r == first_of(s@, ':'),
        r <= s@.len(),
{
    let mut i: usize = 0;
    proof {
        lemma_first_of(s@, ':');
    }
    while i < s.len()
        invariant
            i <= s.len(),
            i <= first_of(s@, ':'),
            first_of(s@, ':') <= s@.len(),
            first_of(s@, ':') < s@.len() ==> s@[first_of(s@, ':')] == ':',
            forall|k: int| 0 <= k < first_of(s@, ':') ==> s@[k] != ':',
        decreases s.len() - i,
    {
        if s[i] == ':' {
            return i;
        }
        i = i + 1;
    }
    i
}

/// Reads a list of `LABEL:CONTRACT_ID` entries with commas between them. Entries that are not well
/// formed are skipped.
pub fn parse_override_list(raw: &str) -> (r: Vec<(String, String)>)
    ensures
        pair_views(r@) == overrides_of(split(raw@, ',')),
{
    let chars = chars_of(raw);
    let entries = split_chars(chars.as_slice(), ',');
    let ghost all = char_views(entries@);
    let mut out: Vec<(String, String)> = Vec::new();
    let mut i: usize = 0;
    assert(all.take(0) =~= Seq::<Seq<char>>::empty());
    assert(pair_views(out@) =~= Seq::<(Seq<char>, Seq<char>)>::empty());
    while i < entries.len()
        invariant
            i <= entries.len(),
            all == char_views(entries@),
            pair_views(out@) == overrides_of(all.take(i as int)),
        decreases entries.len() - i,
    {
        assert(all.take(i + 1).drop_last() =~= all.take(i as int));
        assert(all.take(i + 1).last() == entries@[i as int]@);
        let entry = entries[i].as_slice();
        let n: usize = colon(entry);
        if n < entry.len() {
            let left = vstd::slice::slice_subrange(entry, 0, n);
            let right = vstd::slice::slice_subrange(entry, n + 1, entry.len());
            assert(left@ =~= entry@.take(n as int));
            assert(right@ =~= entry@.skip(n + 1));
            let label = trim_chars(left);
            let id = trim_chars(right);
            if label.len() > 0 && id.len() > 0 {
                let ghost before = out@;
                let pair = (string_of(label.as_slice()), string_of(id.as_slice()));
                let ghost p = (pair.0@, pair.1@);
                out.push(pair);
                assert(pair_views(out@) =~= pair_views(before).push(p));
            }
        }
        i = i + 1;
    }
    assert(all.take(i as int) =~= all);
    out
}

/// The contracts to seed: those of the override where one is given, else the well-known ones of
/// the network. There is no list for a network without well-known contracts.
pub open spec fn seed_list(override_list: Option<Seq<char>>, network: Seq<char>) -> Option<
    Seq<(Seq<char>, Seq<char>)>,
> {
    if override_list is Some && override_list->0.len() > 0 {
        Some(overrides_of(split(override_list->0, ',')))
    } else if network == "mainnet"@ {
        Some(mainnet_list())
    } else if network == "testnet"@ {
        Some(testnet_list())
    } else {
        None
    }
}

fn owned(entries: &[SacEntry]) -> (r: Vec<(String, String)>)
    ensures
        pair_views(r@) == entries@.map_values(|e: SacEntry| entry_texts(e)),
{
    let mut out: Vec<(String, String)> = Vec::new();
    let mut i: usize = 0;
    while i < entries.len()
        invariant
            i <= entries.len(),
            out@.len() == i,
            forall|k: int|
                0 <= k < i ==> (#[trigger] out@[k]).0@ == entries@[k].label@ && out@[k].1@
                    == entries@[k].contract_id@,
        decreases entries.len() - i,
    {
        out.push((entries[i].label.to_owned(), entries[i].contract_id.to_owned()));
        i = i + 1;
    }
    assert(pair_views(out@) =~= entries@.map_values(|e: SacEntry| entry_texts(e)));
    out
}

/// The contracts to seed, as labels and ids.
pub fn well_known_contracts(override_list: Option<&str>, network: &str) -> (r: Option<
    Vec<(String, String)>,
>)
    ensures
        ({
            let given = match override_list {
                Some(raw) => Some(raw@),
                None => None,
            };
            match r {
                Some(pairs) => seed_list(given, network@) == Some(pair_views(pairs@)),
                None => seed_list(given, network@) is None,
            }
        }),
{
    if let Some(raw) = override_list {
        if !same(raw, "") {
            proof {
                reveal_strlit("");
                assert(raw@.len() > 0) by {
                    if raw@.len() == 0 {
                        assert(raw@ =~= ""@);
                    }
                }
            }
            return Some(parse_override_list(raw));
        }
        proof {
            reveal_strlit("");
        }
    }
    if same(network, "mainnet") {
        let all = mainnet_sacs();
        Some(owned(all.as_slice()))
    } else if same(network, "testnet") {
        let all = testnet_sacs();
        Some(owned(all.as_slice()))
    } else {
        None
    }
}

/// An entry that is written as a label, a colon and an id is read as those, where neither has
/// blanks around it or is empty and the label has no colon.
pub proof fn overrides_read_back(label: Seq<char>, id: Seq<char>)
    requires
        label.len() > 0,
        id.len() > 0,
        trim(label) == label,
        trim(id) == id,
        !label.contains(':'),
    ensures
        override_of(label + seq![':'] + id) == Some((label, id)),
{
    let entry = label + seq![':'] + id;
    lemma_first_of(entry, ':');
    let n = first_of(entry, ':');
    assert(entry[label.len() as int] == ':');
    assert(n == label.len()) by {
        if n < label.len() {
            assert(entry[n] == label[n]);
        }
    }
    assert(entry.take(n) =~= label);
    assert(entry.skip(n + 1) =~= id);
}

/// A list of entries that are each written as a label, a colon and an id is read as those pairs, in
/// order and with none left out.
pub proof fn override_lists_read_back(
    entries: Seq<Seq<char>>,
    pairs: Seq<(Seq<char>, Seq<char>)>,
)
    requires
        entries.len() == pairs.len(),
        forall|i: int|
            0 <= i < pairs.len() ==> {
                &&& (#[trigger] pairs[i]).0.len() > 0
                &&& pairs[i].1.len() > 0
                &&& trim(pairs[i].0) == pairs[i].0
                &&& trim(pairs[i].1) == pairs[i].1
                &&& !pairs[i].0.contains(':')
                &&& entries[i] == pairs[i].0 + seq![':'] + pairs[i].1
            },
    ensures
        overrides_of(entries) == pairs,
    decreases entries.len(),
{
    if entries.len() > 0 {
        let n = entries.len() - 1;
        assert(pairs[n] == pairs.last());
        assert forall|i: int| 0 <= i < n implies {
            &&& (#[trigger] pairs.drop_last()[i]).0.len() > 0
            &&& pairs.drop_last()[i].1.len() > 0
            &&& trim(pairs.drop_last()[i].0) == pairs.drop_last()[i].0
            &&& trim(pairs.drop_last()[i].1) == pairs.drop_last()[i].1
            &&& !pairs.drop_last()[i].0.contains(':')
            &&& entries.drop_last()[i] == pairs.drop_last()[i].0 + seq![':'] + pairs.drop_last()[i].1
        } by {
            assert(pairs.drop_last()[i] == pairs[i]);
        }
        override_lists_read_back(entries.drop_last(), pairs.drop_last());
        overrides_read_back(pairs.last().0, pairs.last().1);
        assert(pairs.drop_last().push(pairs.last()) =~= pairs);
    } else {
        assert(pairs =~= Seq::empty());
    }
}

/// An entry without a colon, with a blank label or with a blank id is skipped, and those round it
/// are read as if it were not there.
pub proof fn broken_overrides_are_skipped(
    entries: Seq<Seq<char>>,
    broken: Seq<char>,
    label: Seq<char>,
    id: Seq<char>,
)
    ensures
        !broken.contains(':') ==> override_of(broken) is None,
        !label.contains(':') && (trim(label).len() == 0 || trim(id).len() == 0) ==> override_of(
            label + seq![':'] + id,
        ) is None,
        override_of(broken) is None ==> overrides_of(entries.push(broken)) == overrides_of(entries),
{
    lemma_first_of(broken, ':');
    let entry = label + seq![':'] + id;
    lemma_first_of(entry, ':');
    let n = first_of(entry, ':');
    assert(entry[label.len() as int] == ':');
    if !label.contains(':') {
        if n < label.len() {
            assert(entry[n] == label[n]);
        }
        assert(entry.take(n) =~= label);
        assert(entry.skip(n + 1) =~= id);
    }
    assert(entries.push(broken).drop_last() =~= entries);
}

/// A list that is given is what is seeded, whatever the network. Without one it is what the network
/// is known to have, and there is nothing for a network that is not known.
pub proof fn the_given_list_goes_first(raw: Seq<char>, network: Seq<char>)
    ensures
        raw.len() > 0 ==> seed_list(Some(raw), network) == Some(overrides_of(split(raw, ','))),
        raw.len() == 0 ==> seed_list(Some(raw), network) == seed_list(None, network),
        seed_list(None, "mainnet"@) == Some(
            seq![
                ("USDC (mainnet)"@, "CCW67TSZV3SSS2HXMBQ5JFGCKJNXKZM7UQUWUZPUTHXSTZLEO7SJMI75"@),
                (
                    "XLM native SAC (mainnet)"@,
                    "CAS3J7GYLGXMF6TDJBBYYSE3HQ6BBSMLNUQ34T6TZMYMW2EVH34XOWMA"@,
                ),
                ("AQUA (mainnet)"@, "CBDGDGC4AZEWDXAJVZWMQIUGJHH5AJ2VC7TLBKM7K2AWFH5QJKTBAHEF"@),
            ],
        ),
        seed_list(None, "testnet"@) == Some(
            seq![
                (
                    "XLM native SAC (testnet)"@,
                    "CDLZFC3SYJYDZT7K67VZ75HPJVIEUVNIXF47ZG2FB2RMQQVU2HHGCYSC"@,
                ),
                ("USDC (testnet)"@, "CBIELTK6YBZJU5UP2WWQEUCYKLPU6AUNZ2BQ4WWFEIE3USCIHMXQDAMA"@),
            ],
        ),
        network != "mainnet"@ && network != "testnet"@ ==> seed_list(None, network) is None,
{
    reveal_strlit("mainnet");
    reveal_strlit("testnet");
    assert("mainnet"@[0] == 'm' && "testnet"@[0] == 't');
}

/// A contract is handed out as its label and its id, in that order.
pub proof fn contracts_are_label_and_id(
    pairs: Seq<(String, String)>,
    i: int,
    entry: SacEntry,
)
    requires
        0 <= i < pairs.len(),
    ensures
        pair_views(pairs).len() == pairs.len(),
        pair_views(pairs)[i] == (pairs[i].0@, pairs[i].1@),
        entry_texts(entry) == (entry.label@, entry.contract_id@),
{
}

} // verus!
