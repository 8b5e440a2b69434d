//! From the ledger entries of a contract to its spec.
//!
//! The instance of a contract names the hash of its code, and the code carries the spec in a custom
//! section. Contracts with the same code share the spec, so it is kept by the hash.
use stellar_xdr::curr::Limited;
use stellar_xdr::curr::Limits;
use stellar_xdr::curr::ReadXdr;
use stellar_xdr::curr::ScSpecEntry;
use vstd::prelude::*;
use vstd::slice::slice_subrange;

use crate::codec::base64_encoded;
use crate::codec::hex_encode;
use crate::codec::hex_text;
use crate::codec::utf8_lossy;
use crate::codec::utf8_text;
use crate::errors::TridentError;
use crate::indexer::ledger::code_key;
use crate::indexer::ledger::code_key_xdr;
use crate::indexer::ledger::decode_entry;
use crate::indexer::ledger::encode_key;
use crate::indexer::ledger::entry_of;
use crate::indexer::ledger::LedgerEntry;
use crate::indexer::ledger::LedgerEntryView;
use crate::indexer::rpc::client::LedgerEntryResult;
use crate::indexer::spec::interfaces::detect_interfaces;
use crate::indexer::spec::interfaces::interface_tags;
use crate::indexer::spec::interfaces::str_views;
use crate::indexer::spec::interfaces::type_of;
use crate::indexer::spec::wasm::custom_section;
use crate::indexer::spec::wasm::extract_custom_section;
use crate::scval::ContractExecutable;
use crate::scval::ExecutableView;
use crate::scval::ScVal;
use crate::scval::ScView;
use crate::text::same;
use crate::text::views;
use crate::xdr::lift;

verus! {

broadcast use vstd::string::group_string_axioms;

/// A function that a contract exports.
#[derive(Debug)]
pub struct SpecFunction {
    pub name: String,
}

/// The names of functions.
pub open spec fn function_names(functions: Seq<SpecFunction>) -> Seq<Seq<char>> {
    functions.map_values(|f: SpecFunction| f.name@)
}

/// What is known of a contract at the code that it runs.
#[derive(Debug)]
pub struct ContractSpec {
    pub code_hash: String,
    pub has_spec: bool,
    pub functions: Vec<SpecFunction>,
    pub contract_type: String,
    pub interfaces: Vec<String>,
}

/// What is known of a contract.
pub struct ContractSpecView {
    pub code_hash: Seq<char>,
    pub has_spec: bool,
    pub functions: Seq<Seq<char>>,
    pub contract_type: Seq<char>,
    pub interfaces: Seq<Seq<char>>,
}

impl View for ContractSpec {
    type V = ContractSpecView;

    open spec fn view(&self) -> ContractSpecView {
        ContractSpecView {
            code_hash: self.code_hash@,
            has_spec: self.has_spec,
            functions: function_names(self.functions@),
            contract_type: self.contract_type@,
            interfaces: views(self.interfaces@),
        }
    }
}

/// What is known of a contract whose code has the given hash and exports the given functions.
pub open spec fn spec_of(hash: Seq<u8>, functions: Seq<Seq<char>>) -> ContractSpecView {
    ContractSpecView {
        code_hash: hex_text(hash),
        has_spec: functions.len() > 0,
        functions,
        contract_type: type_of(functions),
        interfaces: interface_tags(functions),
    }
}

fn copy_functions(functions: &[SpecFunction]) -> (r: Vec<SpecFunction>)
    ensures
        function_names(r@) == function_names(functions@),
{
    let mut out: Vec<SpecFunction> = Vec::new();
    let mut i: usize = 0;
    while i < functions.len()
        invariant
            i <= functions.len(),
            out@.len() == i,
            forall|k: int| 0 <= k < i ==> (#[trigger] out@[k]).name@ == functions@[k].name@,
        decreases functions.len() - i,
    {
        out.push(SpecFunction { name: functions[i].name.clone() });
        i = i + 1;
    }
    assert(function_names(out@) =~= function_names(functions@));
    out
}

/// Puts together what is known of a contract.
pub fn describe(hash: [u8; 32], functions: Vec<SpecFunction>) -> (r: ContractSpec)
    ensures
        r@ == spec_of(hash@, function_names(functions@)),
{
    let mut names: Vec<&str> = Vec::new();
    let mut i: usize = 0;
    while i < functions.len()
        invariant
            i <= functions.len(),
            names@.len() == i,
            forall|k: int| 0 <= k < i ==> (#[trigger] names@[k])@ == functions@[k].name@,
        decreases functions.len() - i,
    {
        names.push(functions[i].name.as_str());
        i = i + 1;
    }
    assert(str_views(names@) =~= function_names(functions@));
    let detected = detect_interfaces(names.as_slice());
    let has_spec = functions.len() > 0;
    ContractSpec {
        code_hash: hex_encode(hash.as_slice()),
        has_spec,
        functions,
        contract_type: detected.contract_type.to_owned(),
        interfaces: detected.interfaces,
    }
}

// ---------------------------------------------------------------------------------------------
// The entries of a spec.
// ---------------------------------------------------------------------------------------------
/// An entry of a spec: a function with its name, or anything else.
#[derive(Debug)]
pub enum SpecEntry {
    Function { name: Vec<u8> },
    Other,
}

/// What an entry of a spec is.
pub enum SpecEntryView {
    Function { name: Seq<u8> },
    Other,
}

impl View for SpecEntry {
    type V = SpecEntryView;

    open spec fn view(&self) -> SpecEntryView {
        match *self {
            SpecEntry::Function { name } => SpecEntryView::Function { name: name@ },
            SpecEntry::Other => SpecEntryView::Other,
        }
    }
}

/// The first entry in the XDR of a spec, and the number of bytes that it takes; nothing where the
/// bytes do not begin with an entry that the reader can take with `depth` nested reads.
pub uninterp spec fn xdr_spec_entry(bytes: Seq<u8>, depth: nat) -> Option<(SpecEntryView, nat)>;

/// `ScSpecEntry::read_xdr` of the `stellar_xdr` crate, limited to `depth` nested reads, on the bytes
/// at the front. It takes four bytes at least, for the kind of the entry.
#[verifier::external_body]
fn read_spec_entry(bytes: &[u8], depth: u32) -> (r: Option<(SpecEntry, usize)>)
    requires
        depth <= 500,
    ensures
        match r {
            Some((entry, n)) => xdr_spec_entry(bytes@, depth as nat) == Some((entry@, n as nat))
                && 4 <= n && n <= bytes@.len(),
            None => xdr_spec_entry(bytes@, depth as nat) is None,
        },
{
    let mut cursor = std::io::Cursor::new(bytes);
    let entry = match ScSpecEntry::read_xdr(&mut Limited::new(&mut cursor, Limits::depth(depth))) {
        Ok(ScSpecEntry::FunctionV0(f)) => SpecEntry::Function { name: f.name.0.into_vec() },
        Ok(_) => SpecEntry::Other,
        Err(_) => return None,
    };
    Some((entry, cursor.position() as usize))
}

/// How deep the reads of one entry may nest: as deep as those of the Soroban host itself.
pub const MAX_SPEC_DEPTH: u32 = 500;

/// The entries of a spec, up to the first that cannot be read.
pub open spec fn entries_of(bytes: Seq<u8>) -> Seq<SpecEntryView>
    decreases bytes.len(),
{
    if bytes.len() == 0 {
        Seq::empty()
    } else {
        match xdr_spec_entry(bytes, MAX_SPEC_DEPTH as nat) {
            None => Seq::empty(),
            Some((entry, n)) => if 0 < n <= bytes.len() {
                seq![entry] + entries_of(bytes.skip(n as int))
            } else {
                Seq::empty()
            },
        }
    }
}

/// What some entries are.
pub open spec fn spec_entry_views(entries: Seq<SpecEntry>) -> Seq<SpecEntryView> {
    entries.map_values(|e: SpecEntry| e@)
}

/// The section in which a contract carries its spec.
pub open spec fn spec_section(wasm: Seq<u8>) -> Option<Seq<u8>> {
    custom_section(wasm, vstd::utf8::encode_utf8("contractspecv0"@))
}

/// The entries of the spec in the code of a contract. Code without a spec has none.
pub open spec fn code_entries(wasm: Seq<u8>) -> Seq<SpecEntryView> {
    match spec_section(wasm) {
        None => Seq::empty(),
        Some(section) => entries_of(section),
    }
}

/// Reads the entries of the spec in the code of a contract, up to the first that cannot be read.
pub fn parse_spec_entries(wasm: &[u8]) -> (r: Vec<SpecEntry>)
    ensures
        spec_entry_views(r@) == code_entries(wasm@),
{
    let mut entries: Vec<SpecEntry> = Vec::new();
    let section = match extract_custom_section(wasm, "contractspecv0") {
        Some(section) => section,
        None => {
            assert(spec_entry_views(entries@) =~= Seq::<SpecEntryView>::empty());
            return entries;
        },
    };
    let ghost all = entries_of(section@);
    let mut pos: usize = 0;
    assert(section@.skip(0) =~= section@);
    assert(spec_entry_views(entries@) + all =~= all);
    while pos < section.len()
        invariant
            pos <= section@.len(),
            all == entries_of(section@),
            spec_entry_views(entries@) + entries_of(section@.skip(pos as int)) == all,
            spec_section(wasm@) == Some(section@),
        decreases section.len() - pos,
    {
        let rest = slice_subrange(section, pos, section.len());
        assert(rest@ =~= section@.skip(pos as int));
        match read_spec_entry(rest, MAX_SPEC_DEPTH) {
            None => {
                assert(spec_entry_views(entries@) =~= all);
                return entries;
            },
            Some((entry, n)) => {
                let ghost before = entries@;
                let ghost e = entry@;
                entries.push(entry);
                assert(spec_entry_views(entries@) =~= spec_entry_views(before).push(e));
                assert(rest@.skip(n as int) =~= section@.skip(pos + n));
                assert(spec_entry_views(entries@) + entries_of(section@.skip(pos + n))
                    =~= spec_entry_views(before) + entries_of(section@.skip(pos as int)));
                pos = pos + n;
            },
        }
    }
    assert(section@.skip(pos as int) =~= Seq::<u8>::empty());
    assert(spec_entry_views(entries@) =~= all);
    entries
}

/// The names of the functions among some entries.
pub open spec fn functions_of(entries: Seq<SpecEntryView>) -> Seq<Seq<char>>
    decreases entries.len(),
{
    if entries.len() == 0 {
        Seq::empty()
    } else {
        let before = functions_of(entries.drop_last());
        match entries.last() {
            SpecEntryView::Function { name } => before.push(utf8_lossy(name)),
            SpecEntryView::Other => before,
        }
    }
}

/// The functions among some entries.
pub fn spec_functions(entries: &[SpecEntry]) -> (r: Vec<SpecFunction>)
    ensures
        function_names(r@) == functions_of(spec_entry_views(entries@)),
{
    let mut out: Vec<SpecFunction> = Vec::new();
    let ghost all = spec_entry_views(entries@);
    let mut i: usize = 0;
    assert(all.take(0) =~= Seq::<SpecEntryView>::empty());
    assert(function_names(out@) =~= Seq::<Seq<char>>::empty());
    while i < entries.len()
        invariant
            i <= entries.len(),
            all == spec_entry_views(entries@),
            function_names(out@) == functions_of(all.take(i as int)),
        decreases entries.len() - i,
    {
        assert(all.take(i + 1).drop_last() =~= all.take(i as int));
        assert(all.take(i + 1).last() == entries@[i as int]@);
        if let SpecEntry::Function { name } = &entries[i] {
            let ghost before = out@;
            let text = utf8_text(name.as_slice());
            out.push(SpecFunction { name: text });
            assert(function_names(out@) =~= function_names(before).push(text@));
        }
        i = i + 1;
    }
    assert(all.take(i as int) =~= all);
    out
}

// ---------------------------------------------------------------------------------------------
// The steps by which a spec is fetched.
// ---------------------------------------------------------------------------------------------
/// The hash of the code that a contract runs, by the entries that the RPC returned for its
/// instance; nothing where there is no such entry or no code, or the message of the error.
pub open spec fn code_hash_of(entries: Seq<LedgerEntryResult>) -> Result<
    Option<Seq<u8>>,
    Seq<char>,
> {
    if entries.len() == 0 {
        Ok(None)
    } else {
        match entry_of(entries[0].xdr@) {
            Err(e) => Err(e),
            Ok(LedgerEntryView::Data(ScView::ContractInstance { executable, .. })) => match executable {
                ExecutableView::Wasm(hash) => Ok(Some(hash)),
                ExecutableView::StellarAsset => Ok(None),
            },
            Ok(_) => Ok(None),
        }
    }
}

/// The hash of the code that a contract runs, by the entries that the RPC returned for its
/// instance.
pub fn code_hash(entries: &[LedgerEntryResult]) -> (r: Result<Option<[u8; 32]>, TridentError>)
    ensures
        match r {
            Ok(Some(hash)) => code_hash_of(entries@) == Ok::<Option<Seq<u8>>, Seq<char>>(
                Some(hash@),
            ),
            Ok(None) => code_hash_of(entries@) == Ok::<Option<Seq<u8>>, Seq<char>>(None),
            Err(e) => e is ParseError && code_hash_of(entries@) == Err::<
                Option<Seq<u8>>,
                Seq<char>,
            >(e.cause().text()),
        },
{
    if entries.len() == 0 {
        return Ok(None);
    }
    match decode_entry(entries[0].xdr.as_str()) {
        Err(e) => Err(e),
        Ok(LedgerEntry::Data(value)) => {
            match lift(value) {
                ScVal::ContractInstance { executable: ContractExecutable::Wasm(hash), .. } => Ok(
                    Some(hash),
                ),
                _ => Ok(None),
            }
        },
        Ok(_) => Ok(None),
    }
}

/// The code of a contract, by the entries that the RPC returned for the code; no bytes where there
/// is no such entry, or the message of the error.
pub open spec fn wasm_of(entries: Seq<LedgerEntryResult>) -> Result<Seq<u8>, Seq<char>> {
    if entries.len() == 0 {
        Ok(Seq::empty())
    } else {
        match entry_of(entries[0].xdr@) {
            Err(e) => Err(e),
            Ok(LedgerEntryView::Code(code)) => Ok(code),
            Ok(_) => Ok(Seq::empty()),
        }
    }
}

/// The code of a contract, by the entries that the RPC returned for the code.
pub fn wasm(entries: &[LedgerEntryResult]) -> (r: Result<Vec<u8>, TridentError>)
    ensures
        match r {
            Ok(code) => wasm_of(entries@) == Ok::<Seq<u8>, Seq<char>>(code@),
            Err(e) => e is ParseError && wasm_of(entries@) == Err::<Seq<u8>, Seq<char>>(
                e.cause().text(),
            ),
        },
{
    if entries.len() == 0 {
        let none: Vec<u8> = Vec::new();
        assert(none@ =~= Seq::<u8>::empty());
        return Ok(none);
    }
    match decode_entry(entries[0].xdr.as_str()) {
        Err(e) => Err(e),
        Ok(LedgerEntry::Code(code)) => Ok(code),
        Ok(_) => {
            let none: Vec<u8> = Vec::new();
            assert(none@ =~= Seq::<u8>::empty());
            Ok(none)
        },
    }
}

#[derive(Debug)]
struct CacheRow {
    code_hash: String,
    functions: Vec<SpecFunction>,
}

/// The functions of the codes seen so far, by the hash of the code in hexadecimal.
#[derive(Debug)]
pub struct SpecCache {
    rows: Vec<CacheRow>,
}

spec fn cache_view(rows: Seq<CacheRow>) -> Map<Seq<char>, Seq<Seq<char>>>
    decreases rows.len(),
{
    if rows.len() == 0 {
        Map::empty()
    } else {
        cache_view(rows.drop_last()).insert(
            rows.last().code_hash@,
            function_names(rows.last().functions@),
        )
    }
}

impl View for SpecCache {
    type V = Map<Seq<char>, Seq<Seq<char>>>;

    closed spec fn view(&self) -> Map<Seq<char>, Seq<Seq<char>>> {
        cache_view(self.rows@)
    }
}

impl Default for SpecCache {
    fn default() -> (r: Self)
        ensures
            r@ == Map::<Seq<char>, Seq<Seq<char>>>::empty(),
    {
        SpecCache { rows: Vec::new() }
    }
}

impl SpecCache {
    /// A cache that knows no code.
    pub fn new() -> (r: Self)
        ensures
            r@ == Map::<Seq<char>, Seq<Seq<char>>>::empty(),
    {
        SpecCache { rows: Vec::new() }
    }

    /// The functions of the code with a hash, where they are known.
    pub fn get(&self, code_hash: &str) -> (r: Option<Vec<SpecFunction>>)
        ensures
            match r {
                Some(functions) => self@.dom().contains(code_hash@) && self@[code_hash@]
                    == function_names(functions@),
                None => !self@.dom().contains(code_hash@),
            },
    {
        let mut i: usize = self.rows.len();
        assert(self.rows@.take(i as int) =~= self.rows@);
        while i > 0
            invariant
                i <= self.rows.len(),
                self@.dom().contains(code_hash@) <==> cache_view(
                    self.rows@.take(i as int),
                ).dom().contains(code_hash@),
                self@.dom().contains(code_hash@) ==> self@[code_hash@] == cache_view(
                    self.rows@.take(i as int),
                )[code_hash@],
            decreases i,
        {
            i = i - 1;
            let ghost prefix = self.rows@.take(i + 1);
            assert(prefix.drop_last() =~= self.rows@.take(i as int));
            assert(prefix.last() == self.rows@[i as int]);
            if same(self.rows[i].code_hash.as_str(), code_hash) {
                return Some(copy_functions(self.rows[i].functions.as_slice()));
            }
        }
        assert(self.rows@.take(0) =~= Seq::<CacheRow>::empty());
        None
    }

    /// Keeps the functions of the code with a hash.
    pub fn insert(&mut self, code_hash: String, functions: Vec<SpecFunction>)
        ensures
            final(self)@ == old(self)@.insert(code_hash@, function_names(functions@)),
    {
        let ghost before = self.rows@;
        self.rows.push(CacheRow { code_hash, functions });
        assert(self.rows@.drop_last() =~= before);
    }
}

/// What is to be done once the RPC has returned the instance of a contract.
#[derive(Debug)]
pub enum SpecStep {
    /// There is nothing to know.
    NoSpec,
    /// The code was seen before.
    Known(ContractSpec),
    /// The code with the hash is to be fetched, by the key.
    Fetch { hash: [u8; 32], key: String },
}

/// Decides, by the entries that the RPC returned for the instance of a contract, whether its code
/// is to be fetched.
pub fn spec_step(cache: &SpecCache, entries: &[LedgerEntryResult]) -> (r: Result<
    SpecStep,
    TridentError,
>)
    ensures
        match code_hash_of(entries@) {
            Err(e) => r is Err && r->Err_0 is ParseError && r->Err_0.cause().text() == e,
            Ok(None) => r == Ok::<SpecStep, TridentError>(SpecStep::NoSpec),
            Ok(Some(hash)) => if cache@.dom().contains(hex_text(hash)) {
                r is Ok && r->Ok_0 is Known && r->Ok_0->Known_0@ == spec_of(
                    hash,
                    cache@[hex_text(hash)],
                )
            } else {
                r is Ok && r->Ok_0 is Fetch && r->Ok_0->hash@ == hash && r->Ok_0->key@
                    == base64_encoded(code_key_xdr(hash))
            },
        },
{
    let hash = match code_hash(entries) {
        Err(e) => return Err(e),
        Ok(None) => return Ok(SpecStep::NoSpec),
        Ok(Some(hash)) => hash,
    };
    let hex = hex_encode(hash.as_slice());
    match cache.get(hex.as_str()) {
        Some(functions) => Ok(SpecStep::Known(describe(hash, functions))),
        None => match code_key(hash) {
            Ok(key) => Ok(SpecStep::Fetch { hash, key: encode_key(key.as_slice()) }),
            Err(e) => Err(e),
        },
    }
}

/// The functions of a contract's code, by the entries that the RPC returned for the code.
pub open spec fn fetched_functions(entries: Seq<LedgerEntryResult>) -> Result<
    Seq<Seq<char>>,
    Seq<char>,
> {
    match wasm_of(entries) {
        Err(e) => Err(e),
        Ok(code) => Ok(functions_of(code_entries(code))),
    }
}

/// The spec of a contract, by the entries that the RPC returned for its code. The functions are
/// kept for the next contract with that code.
pub fn spec_from_code(
    cache: &mut SpecCache,
    hash: [u8; 32],
    entries: &[LedgerEntryResult],
) -> (r: Result<ContractSpec, TridentError>)
    ensures
        match r {
            Ok(spec) => fetched_functions(entries@) is Ok && spec@ == spec_of(
                hash@,
                fetched_functions(entries@)->Ok_0,
            ) && final(cache)@ == old(cache)@.insert(
                hex_text(hash@),
                fetched_functions(entries@)->Ok_0,
            ),
            Err(e) => e is ParseError && fetched_functions(entries@) == Err::<
                Seq<Seq<char>>,
                Seq<char>,
            >(e.cause().text()) && final(cache)@ == old(cache)@,
        },
{
    let code = match wasm(entries) {
        Ok(code) => code,
        Err(e) => return Err(e),
    };
    let found = parse_spec_entries(code.as_slice());
    let functions = spec_functions(found.as_slice());
    let kept = copy_functions(functions.as_slice());
    cache.insert(hex_encode(hash.as_slice()), kept);
    Ok(describe(hash, functions))
}

/// A contract with code that was seen before is described as it would be if the code had been
/// fetched again, and keeping the functions of one code disturbs those of no other.
pub proof fn known_code_needs_no_fetch(
    cache: Map<Seq<char>, Seq<Seq<char>>>,
    hash: Seq<u8>,
    code: Seq<LedgerEntryResult>,
    other: Seq<u8>,
)
    requires
        fetched_functions(code) is Ok,
    ensures
        ({
            let kept = cache.insert(hex_text(hash), fetched_functions(code)->Ok_0);
            &&& kept.dom().contains(hex_text(hash))
            &&& spec_of(hash, kept[hex_text(hash)]) == spec_of(
                hash,
                fetched_functions(code)->Ok_0,
            )
            &&& other != hash ==> (kept.dom().contains(hex_text(other)) <==> cache.dom().contains(
                hex_text(other),
            )) && kept[hex_text(other)] == cache[hex_text(other)]
        }),
{
    if hex_text(other) == hex_text(hash) {
        crate::codec::hex_injective(other, hash);
    }
}

/// The functions of a contract are those entries of its spec that are functions, in order and under
/// their own names.
pub proof fn functions_are_named_in_order(
    a: Seq<SpecEntryView>,
    b: Seq<SpecEntryView>,
    name: Seq<u8>,
)
    ensures
        functions_of(a + b) == functions_of(a) + functions_of(b),
        functions_of(seq![SpecEntryView::Function { name }]) == seq![utf8_lossy(name)],
        functions_of(seq![SpecEntryView::Other]).len() == 0,
    decreases b.len(),
{
    let one = seq![SpecEntryView::Function { name }];
    let other = seq![SpecEntryView::Other];
    assert(one.drop_last() =~= Seq::<SpecEntryView>::empty());
    assert(other.drop_last() =~= Seq::<SpecEntryView>::empty());
    assert(functions_of(Seq::<SpecEntryView>::empty()) =~= Seq::<Seq<char>>::empty());
    assert(one.last() == (SpecEntryView::Function { name }));
    assert(other.last() == SpecEntryView::Other);
    assert(functions_of(one) =~= seq![utf8_lossy(name)]);
    if b.len() == 0 {
        assert(a + b =~= a);
        assert(functions_of(a) + functions_of(b) =~= functions_of(a));
    } else {
        functions_are_named_in_order(a, b.drop_last(), name);
        assert((a + b).drop_last() =~= a + b.drop_last());
        assert((a + b).last() == b.last());
        assert(functions_of(a + b) =~= functions_of(a) + functions_of(b));
    }
}

/// The entries of a spec are read one behind the other, and what cannot be read ends them.
pub proof fn entries_are_read_one_behind_the_other(bytes: Seq<u8>, entry: SpecEntryView, n: nat)
    ensures
        entries_of(Seq::empty()).len() == 0,
        xdr_spec_entry(bytes, 500) is None ==> entries_of(bytes).len() == 0,
        0 < n <= bytes.len() && xdr_spec_entry(bytes, 500) == Some((entry, n)) ==> entries_of(bytes)
            == seq![entry] + entries_of(bytes.skip(n as int)),
{
}

/// A contract goes by the hash of its code in hexadecimal, has a spec where it has functions, and
/// is labelled by those.
pub proof fn descriptions_follow_hash_and_functions(hash: Seq<u8>, functions: Seq<Seq<char>>)
    ensures
        spec_of(hash, functions).code_hash == hex_text(hash),
        spec_of(hash, functions).has_spec <==> functions.len() > 0,
        spec_of(hash, functions).functions == functions,
        spec_of(hash, functions).contract_type == type_of(functions),
        spec_of(hash, functions).interfaces == interface_tags(functions),
{
}

/// The hash of the code comes out of the instance that the first entry is, and the code out of the
/// code that it is. A contract of the host itself, an entry of another kind and no entry at all give
/// none.
pub proof fn hash_and_code_come_out_of_the_first_entry(
    entries: Seq<LedgerEntryResult>,
    value: ScView,
    code: Seq<u8>,
    e: Seq<char>,
)
    ensures
        entries.len() == 0 ==> code_hash_of(entries) == Ok::<Option<Seq<u8>>, Seq<char>>(None)
            && wasm_of(entries) == Ok::<Seq<u8>, Seq<char>>(Seq::empty()),
        entries.len() > 0 && entry_of(entries[0].xdr@) == Err::<LedgerEntryView, Seq<char>>(e) ==> {
            &&& code_hash_of(entries) == Err::<Option<Seq<u8>>, Seq<char>>(e)
            &&& wasm_of(entries) == Err::<Seq<u8>, Seq<char>>(e)
            &&& fetched_functions(entries) == Err::<Seq<Seq<char>>, Seq<char>>(e)
        },
        entries.len() > 0 && entry_of(entries[0].xdr@) == Ok::<LedgerEntryView, Seq<char>>(
            LedgerEntryView::Data(value),
        ) ==> {
            &&& value matches ScView::ContractInstance { executable, .. } ==> (
            executable matches ExecutableView::Wasm(hash) ==> code_hash_of(entries) == Ok::<
                Option<Seq<u8>>,
                Seq<char>,
            >(Some(hash)))
            &&& value matches ScView::ContractInstance { executable, .. } ==> (
            executable is StellarAsset ==> code_hash_of(entries) == Ok::<
                Option<Seq<u8>>,
                Seq<char>,
            >(None))
            &&& !(value is ContractInstance) ==> code_hash_of(entries) == Ok::<
                Option<Seq<u8>>,
                Seq<char>,
            >(None)
            &&& wasm_of(entries) == Ok::<Seq<u8>, Seq<char>>(Seq::empty())
        },
        entries.len() > 0 && entry_of(entries[0].xdr@) == Ok::<LedgerEntryView, Seq<char>>(
            LedgerEntryView::Code(code),
        ) ==> {
            &&& code_hash_of(entries) == Ok::<Option<Seq<u8>>, Seq<char>>(None)
            &&& wasm_of(entries) == Ok::<Seq<u8>, Seq<char>>(code)
            &&& custom_section(code, vstd::utf8::encode_utf8("contractspecv0"@)) is None
                ==> fetched_functions(entries) == Ok::<Seq<Seq<char>>, Seq<char>>(
                functions_of(Seq::empty()),
            )
            &&& custom_section(code, vstd::utf8::encode_utf8("contractspecv0"@)) is Some
                ==> fetched_functions(entries) == Ok::<Seq<Seq<char>>, Seq<char>>(
                functions_of(
                    entries_of(custom_section(code, vstd::utf8::encode_utf8("contractspecv0"@))->0),
                ),
            )
        },
{
}

/// A description is seen with each field in its own place.
pub proof fn descriptions_show_their_fields(s: ContractSpec)
    ensures
        s@.code_hash == s.code_hash@,
        s@.has_spec == s.has_spec,
        s@.contract_type == s.contract_type@,
        s@.functions.len() == s.functions@.len(),
        forall|i: int|
            0 <= i < s.functions@.len() ==> s@.functions[i] == (#[trigger] s.functions@[i]).name@,
        s@.interfaces == views(s.interfaces@),
{
}

} // verus!
