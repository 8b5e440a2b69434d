//! Standard token events, decoded into named fields.
use vstd::prelude::*;

use crate::codec::utf8_lossy;
use crate::codec::utf8_text;
use crate::contracts::token::TokenNoticeView;
use crate::json::member_of;
use crate::json::set_member;
use crate::json::Json;
use crate::json::JsonMember;
use crate::json::JsonView;
use crate::scval::address_text;
use crate::scval::i128_of;
use crate::scval::lemma_sc_views;
use crate::scval::sc_view;
use crate::scval::sc_views;
use crate::scval::scaddress_to_string;
use crate::scval::ScVal;
use crate::scval::AddressView;
use crate::scval::ScView;
use crate::text::dec_int;
use crate::text::dec_int_injective;
use crate::text::dec_int_text;
use crate::text::opt_view;
use crate::text::same;
use crate::wide::u128_value;
use crate::wide::wrap_i64;
use crate::wide::wrapped_i64;

verus! {

broadcast use vstd::string::group_string_axioms;

/// The token events that move value or the right to move it.
#[derive(Debug, Clone, Copy, PartialEq, Eq, Structural)]
pub enum TokenEventType {
    Transfer,
    Mint,
    Burn,
    Clawback,
    Approve,
}

impl TokenEventType {
    /// The name of the event.
    pub open spec fn name(self) -> Seq<char> {
        match self {
            TokenEventType::Transfer => "transfer"@,
            TokenEventType::Mint => "mint"@,
            TokenEventType::Burn => "burn"@,
            TokenEventType::Clawback => "clawback"@,
            TokenEventType::Approve => "approve"@,
        }
    }

    /// The name of the event.
    pub fn as_str(self) -> (r: &'static str)
        ensures
            r@ == self.name(),
    {
        match self {
            TokenEventType::Transfer => "transfer",
            TokenEventType::Mint => "mint",
            TokenEventType::Burn => "burn",
            TokenEventType::Clawback => "clawback",
            TokenEventType::Approve => "approve",
        }
    }
}

/// A token event with named fields. The amount is a decimal text: it has up to 128 bits, more
/// than a JSON number keeps.
#[derive(Debug, PartialEq, Eq)]
pub struct TokenEvent {
    pub event_type: TokenEventType,
    /// Where the funds come from.
    pub from: Option<String>,
    /// Where the funds go.
    pub to: Option<String>,
    /// Who may spend, on `approve`.
    pub spender: Option<String>,
    /// Who authorised it, on `mint` and `clawback`.
    pub admin: Option<String>,
    pub amount: Option<String>,
    /// The ledger at which an allowance expires.
    pub expiration_ledger: Option<i64>,
    /// The code of the asset, where the contract is that of a tracked asset.
    pub asset_code: Option<String>,
    /// The issuer of the asset, alongside its code.
    pub asset_issuer: Option<String>,
}

/// What a token event is.
pub struct TokenView {
    pub event_type: TokenEventType,
    pub from: Option<Seq<char>>,
    pub to: Option<Seq<char>>,
    pub spender: Option<Seq<char>>,
    pub admin: Option<Seq<char>>,
    pub amount: Option<Seq<char>>,
    pub expiration_ledger: Option<i64>,
    pub asset_code: Option<Seq<char>>,
    pub asset_issuer: Option<Seq<char>>,
}

impl View for TokenEvent {
    type V = TokenView;

    open spec fn view(&self) -> TokenView {
        TokenView {
            event_type: self.event_type,
            from: opt_view(self.from),
            to: opt_view(self.to),
            spender: opt_view(self.spender),
            admin: opt_view(self.admin),
            amount: opt_view(self.amount),
            expiration_ledger: self.expiration_ledger,
            asset_code: opt_view(self.asset_code),
            asset_issuer: opt_view(self.asset_issuer),
        }
    }
}

/// The name that the first topic gives an event, where it is a symbol.
pub open spec fn event_name(topics: Seq<ScView>) -> Option<Seq<char>> {
    if topics.len() > 0 {
        match topics[0] {
            ScView::Symbol(s) => Some(utf8_lossy(s)),
            _ => None,
        }
    } else {
        None
    }
}

/// The strkey of the address at a topic position.
pub open spec fn address_at(topics: Seq<ScView>, i: int) -> Option<Seq<char>> {
    if i < topics.len() {
        match topics[i] {
            ScView::Address(a) => Some(address_text(a)),
            _ => None,
        }
    } else {
        None
    }
}

/// The decimal text of a 128-bit amount.
pub open spec fn amount_of(v: ScView) -> Option<Seq<char>> {
    match v {
        ScView::I128 { hi, lo } => Some(dec_int(u128_value(hi as int, lo as int))),
        _ => None,
    }
}

/// The ledger that a number in an `approve` body names.
pub open spec fn expiration_of(v: ScView) -> Option<i64> {
    match v {
        ScView::U32(n) => Some(n as i64),
        ScView::U64(n) => Some(wrapped_i64(n) as i64),
        _ => None,
    }
}

/// A token event of which only the kind is known.
pub open spec fn bare(event_type: TokenEventType) -> TokenView {
    TokenView {
        event_type,
        from: None,
        to: None,
        spender: None,
        admin: None,
        amount: None,
        expiration_ledger: None,
        asset_code: None,
        asset_issuer: None,
    }
}

/// A `transfer`: source and destination in the topics, the amount in the body.
pub open spec fn transfer_view(topics: Seq<ScView>, data: ScView) -> Option<TokenView> {
    match (address_at(topics, 1), address_at(topics, 2), amount_of(data)) {
        (Some(from), Some(to), Some(amount)) => Some(
            TokenView {
                from: Some(from),
                to: Some(to),
                amount: Some(amount),
                ..bare(TokenEventType::Transfer)
            },
        ),
        _ => None,
    }
}

/// A `mint`: administrator and destination in the topics, the amount in the body.
pub open spec fn mint_view(topics: Seq<ScView>, data: ScView) -> Option<TokenView> {
    match (address_at(topics, 1), address_at(topics, 2), amount_of(data)) {
        (Some(admin), Some(to), Some(amount)) => Some(
            TokenView {
                admin: Some(admin),
                to: Some(to),
                amount: Some(amount),
                ..bare(TokenEventType::Mint)
            },
        ),
        _ => None,
    }
}

/// A `burn`: the source in the topics, the amount in the body.
pub open spec fn burn_view(topics: Seq<ScView>, data: ScView) -> Option<TokenView> {
    match (address_at(topics, 1), amount_of(data)) {
        (Some(from), Some(amount)) => Some(
            TokenView { from: Some(from), amount: Some(amount), ..bare(TokenEventType::Burn) },
        ),
        _ => None,
    }
}

/// A `clawback`: administrator and source in the topics, the amount in the body.
pub open spec fn clawback_view(topics: Seq<ScView>, data: ScView) -> Option<TokenView> {
    match (address_at(topics, 1), address_at(topics, 2), amount_of(data)) {
        (Some(admin), Some(from), Some(amount)) => Some(
            TokenView {
                admin: Some(admin),
                from: Some(from),
                amount: Some(amount),
                ..bare(TokenEventType::Clawback)
            },
        ),
        _ => None,
    }
}

/// An `approve`: source and spender in the topics, amount and expiration as the two items of the
/// body.
pub open spec fn approve_view(topics: Seq<ScView>, data: ScView) -> Option<TokenView> {
    match data {
        ScView::Vec(Some(items)) => if items.len() == 2 {
            match (
                address_at(topics, 1),
                address_at(topics, 2),
                amount_of(items[0]),
                expiration_of(items[1]),
            ) {
                (Some(from), Some(spender), Some(amount), Some(expiration)) => Some(
                    TokenView {
                        from: Some(from),
                        spender: Some(spender),
                        amount: Some(amount),
                        expiration_ledger: Some(expiration),
                        ..bare(TokenEventType::Approve)
                    },
                ),
                _ => None,
            }
        } else {
            None
        },
        _ => None,
    }
}

/// The token event that topics and body stand for. An event that merely shares the name of a
/// token event, with another layout, stands for none.
pub open spec fn token_event(topics: Seq<ScView>, data: ScView) -> Option<TokenView> {
    match event_name(topics) {
        None => None,
        Some(name) => if name == "transfer"@ {
            transfer_view(topics, data)
        } else if name == "mint"@ {
            mint_view(topics, data)
        } else if name == "burn"@ {
            burn_view(topics, data)
        } else if name == "clawback"@ {
            clawback_view(topics, data)
        } else if name == "approve"@ {
            approve_view(topics, data)
        } else {
            None
        },
    }
}

/// The name that the first topic gives an event.
pub(crate) fn name_of(topics: &[ScVal]) -> (r: Option<String>)
    ensures
        opt_view(r) == event_name(sc_views(topics@)),
{
    proof {
        lemma_sc_views(topics@);
    }
    if topics.len() == 0 {
        return None;
    }
    assert(sc_views(topics@)[0] == sc_view(topics@[0]));
    match &topics[0] {
        ScVal::Symbol(s) => Some(utf8_text(s)),
        _ => None,
    }
}

/// The strkey of the address at a topic position.
pub(crate) fn addr_topic(topics: &[ScVal], index: usize) -> (r: Option<String>)
    ensures
        opt_view(r) == address_at(sc_views(topics@), index as int),
{
    proof {
        lemma_sc_views(topics@);
    }
    if index >= topics.len() {
        return None;
    }
    assert(sc_views(topics@)[index as int] == sc_view(topics@[index as int]));
    match &topics[index] {
        ScVal::Address(addr) => Some(scaddress_to_string(addr)),
        _ => None,
    }
}

fn i128_data(v: &ScVal) -> (r: Option<String>)
    ensures
        opt_view(r) == amount_of(v@),
{
    match v {
        ScVal::I128 { hi, lo } => Some(dec_int_text(i128_of(*hi, *lo))),
        _ => None,
    }
}

impl TokenEvent {
    fn new(event_type: TokenEventType) -> (r: Self)
        ensures
            r@ == bare(event_type),
    {
        TokenEvent {
            event_type,
            from: None,
            to: None,
            spender: None,
            admin: None,
            amount: None,
            expiration_ledger: None,
            asset_code: None,
            asset_issuer: None,
        }
    }
}

fn typed_transfer(topics: &[ScVal], data: &ScVal) -> (r: Option<TokenEvent>)
    ensures
        r is Some <==> transfer_view(sc_views(topics@), data@) is Some,
        r is Some ==> Some(r->0@) == transfer_view(sc_views(topics@), data@),
{
    match (addr_topic(topics, 1), addr_topic(topics, 2), i128_data(data)) {
        (Some(from), Some(to), Some(amount)) => {
            let mut event = TokenEvent::new(TokenEventType::Transfer);
            event.from = Some(from);
            event.to = Some(to);
            event.amount = Some(amount);
            Some(event)
        },
        _ => None,
    }
}

fn typed_mint(topics: &[ScVal], data: &ScVal) -> (r: Option<TokenEvent>)
    ensures
        r is Some <==> mint_view(sc_views(topics@), data@) is Some,
        r is Some ==> Some(r->0@) == mint_view(sc_views(topics@), data@),
{
    match (addr_topic(topics, 1), addr_topic(topics, 2), i128_data(data)) {
        (Some(admin), Some(to), Some(amount)) => {
            let mut event = TokenEvent::new(TokenEventType::Mint);
            event.admin = Some(admin);
            event.to = Some(to);
            event.amount = Some(amount);
            Some(event)
        },
        _ => None,
    }
}

fn typed_burn(topics: &[ScVal], data: &ScVal) -> (r: Option<TokenEvent>)
    ensures
        r is Some <==> burn_view(sc_views(topics@), data@) is Some,
        r is Some ==> Some(r->0@) == burn_view(sc_views(topics@), data@),
{
    match (addr_topic(topics, 1), i128_data(data)) {
        (Some(from), Some(amount)) => {
            let mut event = TokenEvent::new(TokenEventType::Burn);
            event.from = Some(from);
            event.amount = Some(amount);
            Some(event)
        },
        _ => None,
    }
}

fn typed_clawback(topics: &[ScVal], data: &ScVal) -> (r: Option<TokenEvent>)
    ensures
        r is Some <==> clawback_view(sc_views(topics@), data@) is Some,
        r is Some ==> Some(r->0@) == clawback_view(sc_views(topics@), data@),
{
    match (addr_topic(topics, 1), addr_topic(topics, 2), i128_data(data)) {
        (Some(admin), Some(from), Some(amount)) => {
            let mut event = TokenEvent::new(TokenEventType::Clawback);
            event.admin = Some(admin);
            event.from = Some(from);
            event.amount = Some(amount);
            Some(event)
        },
        _ => None,
    }
}

fn typed_approve(topics: &[ScVal], data: &ScVal) -> (r: Option<TokenEvent>)
    ensures
        r is Some <==> approve_view(sc_views(topics@), data@) is Some,
        r is Some ==> Some(r->0@) == approve_view(sc_views(topics@), data@),
{
    let items = match data {
        ScVal::Vec(Some(items)) => items,
        _ => return None,
    };
    proof {
        lemma_sc_views(items@);
    }
    if items.len() != 2 {
        return None;
    }
    assert(sc_views(items@)[0] == sc_view(items@[0]));
    assert(sc_views(items@)[1] == sc_view(items@[1]));
    let expiration: i64 = match &items[1] {
        ScVal::U32(n) => *n as i64,
        ScVal::U64(n) => wrap_i64(*n),
        _ => return None,
    };
    match (addr_topic(topics, 1), addr_topic(topics, 2), i128_data(&items[0])) {
        (Some(from), Some(spender), Some(amount)) => {
            let mut event = TokenEvent::new(TokenEventType::Approve);
            event.from = Some(from);
            event.spender = Some(spender);
            event.amount = Some(amount);
            event.expiration_ledger = Some(expiration);
            Some(event)
        },
        _ => None,
    }
}

/// Decodes a standard token event into named fields.
pub fn decode_token_event(topics: &[ScVal], data: &ScVal) -> (r: Option<TokenEvent>)
    ensures
        match r {
            Some(event) => token_event(sc_views(topics@), data@) == Some(event@),
            None => token_event(sc_views(topics@), data@) is None,
        },
{
    let name = match name_of(topics) {
        Some(name) => name,
        None => return None,
    };
    if same(name.as_str(), "transfer") {
        typed_transfer(topics, data)
    } else if same(name.as_str(), "mint") {
        typed_mint(topics, data)
    } else if same(name.as_str(), "burn") {
        typed_burn(topics, data)
    } else if same(name.as_str(), "clawback") {
        typed_clawback(topics, data)
    } else if same(name.as_str(), "approve") {
        typed_approve(topics, data)
    } else {
        None
    }
}

/// The object with the name of an event alone.
pub open spec fn named(name: Seq<char>) -> Map<Seq<char>, JsonView> {
    Map::empty().insert("event"@, JsonView::String(name))
}

/// The JSON of a token event, by the fields that its kind carries.
pub open spec fn token_json(topics: Seq<ScView>, data: ScView) -> Option<JsonView> {
    match event_name(topics) {
        None => None,
        Some(name) => if name == "transfer"@ {
            match (address_at(topics, 1), address_at(topics, 2), amount_of(data)) {
                (Some(from), Some(to), Some(amount)) => Some(
                    JsonView::Object(
                        named(name).insert("from"@, JsonView::String(from)).insert(
                            "to"@,
                            JsonView::String(to),
                        ).insert("amount"@, JsonView::String(amount)),
                    ),
                ),
                _ => None,
            }
        } else if name == "mint"@ {
            match (address_at(topics, 1), address_at(topics, 2), amount_of(data)) {
                (Some(admin), Some(to), Some(amount)) => Some(
                    JsonView::Object(
                        named(name).insert("admin"@, JsonView::String(admin)).insert(
                            "to"@,
                            JsonView::String(to),
                        ).insert("amount"@, JsonView::String(amount)),
                    ),
                ),
                _ => None,
            }
        } else if name == "burn"@ {
            match (address_at(topics, 1), amount_of(data)) {
                (Some(from), Some(amount)) => Some(
                    JsonView::Object(
                        named(name).insert("from"@, JsonView::String(from)).insert(
                            "amount"@,
                            JsonView::String(amount),
                        ),
                    ),
                ),
                _ => None,
            }
        } else if name == "clawback"@ {
            match (address_at(topics, 1), address_at(topics, 2), amount_of(data)) {
                (Some(admin), Some(from), Some(amount)) => Some(
                    JsonView::Object(
                        named(name).insert("admin"@, JsonView::String(admin)).insert(
                            "from"@,
                            JsonView::String(from),
                        ).insert("amount"@, JsonView::String(amount)),
                    ),
                ),
                _ => None,
            }
        } else if name == "approve"@ {
            match approve_view(topics, data) {
                Some(e) => Some(
                    JsonView::Object(
                        named(name).insert("from"@, JsonView::String(e.from->0)).insert(
                            "spender"@,
                            JsonView::String(e.spender->0),
                        ).insert("amount"@, JsonView::String(e.amount->0)).insert(
                            "expiration_ledger"@,
                            JsonView::Number(e.expiration_ledger->0 as int),
                        ),
                    ),
                ),
                None => None,
            }
        } else if name == "set_admin"@ {
            match (address_at(topics, 1), address_at(seq![data], 0)) {
                (Some(admin), Some(new_admin)) => Some(
                    JsonView::Object(
                        named(name).insert("admin"@, JsonView::String(admin)).insert(
                            "new_admin"@,
                            JsonView::String(new_admin),
                        ),
                    ),
                ),
                _ => None,
            }
        } else if name == "set_authorized"@ {
            match (address_at(topics, 1), address_at(topics, 2), data) {
                (Some(admin), Some(id), ScView::Bool(authorize)) => Some(
                    JsonView::Object(
                        named(name).insert("admin"@, JsonView::String(admin)).insert(
                            "id"@,
                            JsonView::String(id),
                        ).insert("authorize"@, JsonView::Bool(authorize)),
                    ),
                ),
                _ => None,
            }
        } else if name == "increase_supply"@ {
            match (address_at(topics, 1), amount_of(data)) {
                (Some(admin), Some(amount)) => Some(
                    JsonView::Object(
                        named(name).insert("admin"@, JsonView::String(admin)).insert(
                            "amount"@,
                            JsonView::String(amount),
                        ),
                    ),
                ),
                _ => None,
            }
        } else {
            None
        },
    }
}

fn start_object(name: &str) -> (r: Vec<JsonMember>)
    ensures
        crate::json::members_view(r@) == named(name@),
{
    let mut members: Vec<JsonMember> = Vec::new();
    set_member(&mut members, "event".to_owned(), Json::String(name.to_owned()));
    members
}

fn put(members: &mut Vec<JsonMember>, name: &str, text: String)
    ensures
        crate::json::members_view(final(members)@) == crate::json::members_view(
            old(members)@,
        ).insert(name@, JsonView::String(text@)),
{
    set_member(members, name.to_owned(), Json::String(text));
}

/// Decodes a token event, an administrative one too, into JSON.
pub fn try_decode_token_event(topics: &[ScVal], data: &ScVal) -> (r: Option<Json>)
    ensures
        match r {
            Some(json) => token_json(sc_views(topics@), data@) == Some(json@),
            None => token_json(sc_views(topics@), data@) is None,
        },
{
    let event = match name_of(topics) {
        Some(name) => name,
        None => return None,
    };
    let name = event.as_str();
    let mut members = start_object(name);
    if same(name, "transfer") {
        match (addr_topic(topics, 1), addr_topic(topics, 2), i128_data(data)) {
            (Some(from), Some(to), Some(amount)) => {
                put(&mut members, "from", from);
                put(&mut members, "to", to);
                put(&mut members, "amount", amount);
                Some(Json::Object(members))
            },
            _ => None,
        }
    } else if same(name, "mint") {
        match (addr_topic(topics, 1), addr_topic(topics, 2), i128_data(data)) {
            (Some(admin), Some(to), Some(amount)) => {
                put(&mut members, "admin", admin);
                put(&mut members, "to", to);
                put(&mut members, "amount", amount);
                Some(Json::Object(members))
            },
            _ => None,
        }
    } else if same(name, "burn") {
        match (addr_topic(topics, 1), i128_data(data)) {
            (Some(from), Some(amount)) => {
                put(&mut members, "from", from);
                put(&mut members, "amount", amount);
                Some(Json::Object(members))
            },
            _ => None,
        }
    } else if same(name, "clawback") {
        match (addr_topic(topics, 1), addr_topic(topics, 2), i128_data(data)) {
            (Some(admin), Some(from), Some(amount)) => {
                put(&mut members, "admin", admin);
                put(&mut members, "from", from);
                put(&mut members, "amount", amount);
                Some(Json::Object(members))
            },
            _ => None,
        }
    } else if same(name, "approve") {
        match typed_approve(topics, data) {
            Some(
                TokenEvent {
                    from: Some(from),
                    spender: Some(spender),
                    amount: Some(amount),
                    expiration_ledger: Some(expiration),
                    ..
                },
            ) => {
                put(&mut members, "from", from);
                put(&mut members, "spender", spender);
                put(&mut members, "amount", amount);
                set_member(
                    &mut members,
                    "expiration_ledger".to_owned(),
                    Json::Number(expiration as i128),
                );
                Some(Json::Object(members))
            },
            _ => None,
        }
    } else if same(name, "set_admin") {
        match (addr_topic(topics, 1), data) {
            (Some(admin), ScVal::Address(new_admin)) => {
                put(&mut members, "admin", admin);
                put(&mut members, "new_admin", scaddress_to_string(new_admin));
                Some(Json::Object(members))
            },
            _ => None,
        }
    } else if same(name, "set_authorized") {
        match (addr_topic(topics, 1), addr_topic(topics, 2), data) {
            (Some(admin), Some(id), ScVal::Bool(authorize)) => {
                put(&mut members, "admin", admin);
                put(&mut members, "id", id);
                set_member(&mut members, "authorize".to_owned(), Json::Bool(*authorize));
                Some(Json::Object(members))
            },
            _ => None,
        }
    } else if same(name, "increase_supply") {
        match (addr_topic(topics, 1), i128_data(data)) {
            (Some(admin), Some(amount)) => {
                put(&mut members, "admin", admin);
                put(&mut members, "amount", amount);
                Some(Json::Object(members))
            },
            _ => None,
        }
    } else {
        None
    }
}

/// A projected token event always carries an amount and at least one party, and its kind is the
/// one that the first topic names.
pub proof fn token_events_are_complete(topics: Seq<ScView>, data: ScView)
    ensures
        token_event(topics, data) is Some ==> {
            let e = token_event(topics, data)->0;
            &&& e.amount is Some
            &&& e.from is Some || e.to is Some
            &&& event_name(topics) == Some(e.event_type.name())
            &&& e.asset_code is None && e.asset_issuer is None
            &&& e.expiration_ledger is Some <==> e.event_type == TokenEventType::Approve
        },
{
}

/// An amount is written in full: values with the same text are the same.
pub proof fn amounts_keep_their_precision(a: ScView, b: ScView)
    requires
        amount_of(a) is Some,
        amount_of(a) == amount_of(b),
    ensures
        a == b,
{
    match a {
        ScView::I128 { hi: a_hi, lo: a_lo } => match b {
            ScView::I128 { hi: b_hi, lo: b_lo } => {
                dec_int_injective(
                    u128_value(a_hi as int, a_lo as int),
                    u128_value(b_hi as int, b_lo as int),
                );
            },
            _ => {},
        },
        _ => {},
    }
}

/// Whatever is projected as a token event has a JSON too, and there the amount is the same text,
/// never a number.
pub proof fn amounts_are_texts(topics: Seq<ScView>, data: ScView)
    requires
        token_event(topics, data) is Some,
    ensures
        token_json(topics, data) is Some,
        member_of(token_json(topics, data)->0, "amount"@) == Some(
            JsonView::String(token_event(topics, data)->0.amount->0),
        ),
{
    reveal_strlit("amount");
    reveal_strlit("expiration_ledger");
    assert("amount"@.len() != "expiration_ledger"@.len());
}

proof fn names_differ()
    ensures
        "transfer"@ != "mint"@,
        "transfer"@ != "burn"@,
        "transfer"@ != "clawback"@,
        "transfer"@ != "approve"@,
        "mint"@ != "burn"@,
        "mint"@ != "clawback"@,
        "mint"@ != "approve"@,
        "burn"@ != "clawback"@,
        "burn"@ != "approve"@,
        "clawback"@ != "approve"@,
{
    reveal_strlit("transfer");
    reveal_strlit("mint");
    reveal_strlit("burn");
    reveal_strlit("clawback");
    reveal_strlit("approve");
    assert("transfer"@[0] == 't' && "clawback"@[0] == 'c');
    assert("mint"@[0] == 'm' && "burn"@[0] == 'b' && "approve"@[0] == 'a');
}

/// A transfer comes back as it was laid out: the second topic is where the tokens come from, the third
/// where they go, and the body is the amount.
pub proof fn transfers_name_source_and_destination(
    topics: Seq<ScView>,
    name: Seq<u8>,
    from: AddressView,
    to: AddressView,
    hi: i64,
    lo: u64,
)
    requires
        topics.len() > 2,
        topics[0] == ScView::Symbol(name),
        utf8_lossy(name) == "transfer"@,
        topics[1] == ScView::Address(from),
        topics[2] == ScView::Address(to),
    ensures
        token_event(topics, ScView::I128 { hi, lo }) == Some(
            TokenView {
                event_type: TokenEventType::Transfer,
                from: Some(address_text(from)),
                to: Some(address_text(to)),
                spender: None,
                admin: None,
                amount: Some(dec_int(hi * 0x1_0000_0000_0000_0000 + lo)),
                expiration_ledger: None,
                asset_code: None,
                asset_issuer: None,
            },
        ),
        token_json(topics, ScView::I128 { hi, lo }) == Some(
            JsonView::Object(
                Map::<Seq<char>, JsonView>::empty().insert("event"@, JsonView::String("transfer"@)).insert(
                    "from"@,
                    JsonView::String(address_text(from)),
                ).insert(
                    "to"@,
                    JsonView::String(address_text(to)),
                ).insert(
                    "amount"@,
                    JsonView::String(dec_int(hi * 0x1_0000_0000_0000_0000 + lo)),
                ),
            ),
        ),
{
    names_differ();
}

/// A mint comes back as it was laid out: the second topic is the administrator, the third where the
/// tokens go, and the body is the amount.
pub proof fn mints_name_administrator_and_destination(
    topics: Seq<ScView>,
    name: Seq<u8>,
    admin: AddressView,
    to: AddressView,
    hi: i64,
    lo: u64,
)
    requires
        topics.len() > 2,
        topics[0] == ScView::Symbol(name),
        utf8_lossy(name) == "mint"@,
        topics[1] == ScView::Address(admin),
        topics[2] == ScView::Address(to),
    ensures
        token_event(topics, ScView::I128 { hi, lo }) == Some(
            TokenView {
                event_type: TokenEventType::Mint,
                from: None,
                to: Some(address_text(to)),
                spender: None,
                admin: Some(address_text(admin)),
                amount: Some(dec_int(hi * 0x1_0000_0000_0000_0000 + lo)),
                expiration_ledger: None,
                asset_code: None,
                asset_issuer: None,
            },
        ),
        token_json(topics, ScView::I128 { hi, lo }) == Some(
            JsonView::Object(
                Map::<Seq<char>, JsonView>::empty().insert("event"@, JsonView::String("mint"@)).insert(
                    "admin"@,
                    JsonView::String(address_text(admin)),
                ).insert(
                    "to"@,
                    JsonView::String(address_text(to)),
                ).insert(
                    "amount"@,
                    JsonView::String(dec_int(hi * 0x1_0000_0000_0000_0000 + lo)),
                ),
            ),
        ),
{
    names_differ();
}

/// A burn comes back as it was laid out: the second topic is where the tokens were, and the body is the
/// amount.
pub proof fn burns_name_their_source(
    topics: Seq<ScView>,
    name: Seq<u8>,
    from: AddressView,
    hi: i64,
    lo: u64,
)
    requires
        topics.len() > 1,
        topics[0] == ScView::Symbol(name),
        utf8_lossy(name) == "burn"@,
        topics[1] == ScView::Address(from),
    ensures
        token_event(topics, ScView::I128 { hi, lo }) == Some(
            TokenView {
                event_type: TokenEventType::Burn,
                from: Some(address_text(from)),
                to: None,
                spender: None,
                admin: None,
                amount: Some(dec_int(hi * 0x1_0000_0000_0000_0000 + lo)),
                expiration_ledger: None,
                asset_code: None,
                asset_issuer: None,
            },
        ),
        token_json(topics, ScView::I128 { hi, lo }) == Some(
            JsonView::Object(
                Map::<Seq<char>, JsonView>::empty().insert("event"@, JsonView::String("burn"@)).insert(
                    "from"@,
                    JsonView::String(address_text(from)),
                ).insert(
                    "amount"@,
                    JsonView::String(dec_int(hi * 0x1_0000_0000_0000_0000 + lo)),
                ),
            ),
        ),
{
    names_differ();
}

/// A clawback comes back as it was laid out: the second topic is the administrator, the third where the
/// tokens were, and the body is the amount.
pub proof fn clawbacks_name_administrator_and_source(
    topics: Seq<ScView>,
    name: Seq<u8>,
    admin: AddressView,
    from: AddressView,
    hi: i64,
    lo: u64,
)
    requires
        topics.len() > 2,
        topics[0] == ScView::Symbol(name),
        utf8_lossy(name) == "clawback"@,
        topics[1] == ScView::Address(admin),
        topics[2] == ScView::Address(from),
    ensures
        token_event(topics, ScView::I128 { hi, lo }) == Some(
            TokenView {
                event_type: TokenEventType::Clawback,
                from: Some(address_text(from)),
                to: None,
                spender: None,
                admin: Some(address_text(admin)),
                amount: Some(dec_int(hi * 0x1_0000_0000_0000_0000 + lo)),
                expiration_ledger: None,
                asset_code: None,
                asset_issuer: None,
            },
        ),
        token_json(topics, ScView::I128 { hi, lo }) == Some(
            JsonView::Object(
                Map::<Seq<char>, JsonView>::empty().insert("event"@, JsonView::String("clawback"@)).insert(
                    "admin"@,
                    JsonView::String(address_text(admin)),
                ).insert(
                    "from"@,
                    JsonView::String(address_text(from)),
                ).insert(
                    "amount"@,
                    JsonView::String(dec_int(hi * 0x1_0000_0000_0000_0000 + lo)),
                ),
            ),
        ),
{
    names_differ();
}

/// An approval comes back as it was laid out: the second topic is the holder, the third the spender,
/// and the body is the amount with the ledger of the end.
pub proof fn approvals_name_holder_and_spender(
    topics: Seq<ScView>,
    name: Seq<u8>,
    holder: AddressView,
    spender: AddressView,
    hi: i64,
    lo: u64,
    expiration: u32,
    end: u64,
)
    requires
        topics.len() > 2,
        topics[0] == ScView::Symbol(name),
        utf8_lossy(name) == "approve"@,
        topics[1] == ScView::Address(holder),
        topics[2] == ScView::Address(spender),
    ensures
        ({
            let data = ScView::Vec(Some(seq![ScView::I128 { hi, lo }, ScView::U32(expiration)]));
            let amount = dec_int(hi * 0x1_0000_0000_0000_0000 + lo);
            &&& token_event(topics, data) == Some(
                TokenView {
                    event_type: TokenEventType::Approve,
                    from: Some(address_text(holder)),
                    to: None,
                    spender: Some(address_text(spender)),
                    admin: None,
                    amount: Some(amount),
                    expiration_ledger: Some(expiration as i64),
                    asset_code: None,
                    asset_issuer: None,
                },
            )
            &&& token_json(topics, data) == Some(
                JsonView::Object(
                    Map::<Seq<char>, JsonView>::empty().insert(
                        "event"@,
                        JsonView::String("approve"@),
                    ).insert("from"@, JsonView::String(address_text(holder))).insert(
                        "spender"@,
                        JsonView::String(address_text(spender)),
                    ).insert("amount"@, JsonView::String(amount)).insert(
                        "expiration_ledger"@,
                        JsonView::Number(expiration as int),
                    ),
                ),
            )
        }),
        ({
            let data = ScView::Vec(Some(seq![ScView::I128 { hi, lo }, ScView::U64(end)]));
            end <= i64::MAX ==> token_event(topics, data) is Some && token_event(
                topics,
                data,
            )->0.expiration_ledger == Some(end as i64)
        }),
{
    names_differ();
}

/// Nothing else is taken for a token event: the first topic is the name of the kind, each party is
/// the address at its place in the topics, and the amount is the 128-bit number of the body.
pub proof fn token_events_are_read_off_their_layout(topics: Seq<ScView>, data: ScView)
    requires
        token_event(topics, data) is Some,
    ensures
        ({
            let e = token_event(topics, data)->0;
            let number = match data {
                ScView::Vec(Some(items)) => items[0],
                other => other,
            };
            &&& topics.len() >= 2
            &&& topics[0] is Symbol && utf8_lossy(topics[0]->Symbol_0) == e.event_type.name()
            &&& topics[1] is Address
            &&& number is I128 && e.amount == Some(
                dec_int(number->I128_hi * 0x1_0000_0000_0000_0000 + number->I128_lo),
            )
            &&& e.event_type != TokenEventType::Burn ==> topics.len() >= 3 && topics[2] is Address
            &&& match e.event_type {
                TokenEventType::Transfer | TokenEventType::Burn | TokenEventType::Approve =>
                    e.from == Some(address_text(topics[1]->Address_0)) && e.admin is None,
                TokenEventType::Mint | TokenEventType::Clawback => e.admin == Some(
                    address_text(topics[1]->Address_0),
                ),
            }
            &&& match e.event_type {
                TokenEventType::Transfer | TokenEventType::Mint => e.to == Some(
                    address_text(topics[2]->Address_0),
                ),
                _ => e.to is None,
            }
            &&& e.event_type == TokenEventType::Clawback ==> e.from == Some(
                address_text(topics[2]->Address_0),
            )
            &&& e.event_type == TokenEventType::Mint ==> e.from is None
            &&& match e.event_type {
                TokenEventType::Approve => e.spender == Some(address_text(topics[2]->Address_0))
                    && data is Vec && data->Vec_0 is Some && data->Vec_0->0.len() == 2,
                _ => e.spender is None && data is I128,
            }
        }),
{
    names_differ();
}

/// The three administrative events come back as they were laid out.
pub proof fn administrative_events_name_their_parties(
    topics: Seq<ScView>,
    name: Seq<u8>,
    admin: AddressView,
    other: AddressView,
    authorize: bool,
    hi: i64,
    lo: u64,
)
    requires
        topics.len() > 2,
        topics[0] == ScView::Symbol(name),
        topics[1] == ScView::Address(admin),
        topics[2] == ScView::Address(other),
    ensures
        utf8_lossy(name) == "set_admin"@ ==> token_json(topics, ScView::Address(other)) == Some(
            JsonView::Object(
                Map::<Seq<char>, JsonView>::empty().insert(
                    "event"@,
                    JsonView::String("set_admin"@),
                ).insert("admin"@, JsonView::String(address_text(admin))).insert(
                    "new_admin"@,
                    JsonView::String(address_text(other)),
                ),
            ),
        ),
        utf8_lossy(name) == "set_authorized"@ ==> token_json(topics, ScView::Bool(authorize)) == Some(
            JsonView::Object(
                Map::<Seq<char>, JsonView>::empty().insert(
                    "event"@,
                    JsonView::String("set_authorized"@),
                ).insert("admin"@, JsonView::String(address_text(admin))).insert(
                    "id"@,
                    JsonView::String(address_text(other)),
                ).insert("authorize"@, JsonView::Bool(authorize)),
            ),
        ),
        utf8_lossy(name) == "increase_supply"@ ==> token_json(topics, ScView::I128 { hi, lo })
            == Some(
            JsonView::Object(
                Map::<Seq<char>, JsonView>::empty().insert(
                    "event"@,
                    JsonView::String("increase_supply"@),
                ).insert("admin"@, JsonView::String(address_text(admin))).insert(
                    "amount"@,
                    JsonView::String(dec_int(hi * 0x1_0000_0000_0000_0000 + lo)),
                ),
            ),
        ),
{
    names_differ();
    reveal_strlit("transfer");
    reveal_strlit("mint");
    reveal_strlit("burn");
    reveal_strlit("clawback");
    reveal_strlit("approve");
    reveal_strlit("set_admin");
    reveal_strlit("set_authorized");
    reveal_strlit("increase_supply");
    assert("set_admin"@.len() == 9 && "set_authorized"@.len() == 14);
    assert("increase_supply"@.len() == 15);
}

/// How a token publishes what it tells: the name of the kind and the parties as topics, the amount
/// as the body, on an approval together with the ledger of its end.
pub open spec fn published(notice: TokenNoticeView, topics: Seq<ScView>, data: ScView) -> bool {
    match notice {
        TokenNoticeView::Mint { admin, to, amount } => {
            &&& topics.len() == 3
            &&& says(topics[0], "mint"@) && shows(topics[1], admin) && shows(topics[2], to)
            &&& holds(data, amount)
        },
        TokenNoticeView::Approve { from, spender, amount, expiration_ledger } => {
            &&& topics.len() == 3
            &&& says(topics[0], "approve"@) && shows(topics[1], from) && shows(topics[2], spender)
            &&& data is Vec && data->Vec_0 is Some && data->Vec_0->0.len() == 2
            &&& holds(data->Vec_0->0[0], amount)
            &&& data->Vec_0->0[1] == ScView::U32(expiration_ledger)
        },
        TokenNoticeView::Transfer { from, to, amount } => {
            &&& topics.len() == 3
            &&& says(topics[0], "transfer"@) && shows(topics[1], from) && shows(topics[2], to)
            &&& holds(data, amount)
        },
        TokenNoticeView::Burn { from, amount } => {
            &&& topics.len() == 2
            &&& says(topics[0], "burn"@) && shows(topics[1], from)
            &&& holds(data, amount)
        },
    }
}

/// Whether a value is the symbol with the given text.
pub open spec fn says(v: ScView, text: Seq<char>) -> bool {
    v is Symbol && utf8_lossy(v->Symbol_0) == text
}

/// Whether a value is the address with the given strkey.
pub open spec fn shows(v: ScView, strkey: Seq<char>) -> bool {
    v is Address && address_text(v->Address_0) == strkey
}

/// Whether a value is the given 128-bit number.
pub open spec fn holds(v: ScView, amount: i128) -> bool {
    v is I128 && v->I128_hi * 0x1_0000_0000_0000_0000 + v->I128_lo == amount
}

/// What a token publishes is decoded to the very parties, amount and end that it told.
pub proof fn published_notices_are_decoded(
    notice: TokenNoticeView,
    topics: Seq<ScView>,
    data: ScView,
)
    requires
        published(notice, topics, data),
    ensures
        token_event(topics, data) is Some,
        ({
            let e = token_event(topics, data)->0;
            match notice {
                TokenNoticeView::Mint { admin, to, amount } => e.event_type == TokenEventType::Mint
                    && e.admin == Some(admin) && e.to == Some(to) && e.from is None
                    && e.amount == Some(dec_int(amount as int)),
                TokenNoticeView::Approve { from, spender, amount, expiration_ledger } =>
                    e.event_type == TokenEventType::Approve && e.from == Some(from) && e.spender
                    == Some(spender) && e.to is None && e.amount == Some(dec_int(amount as int))
                    && e.expiration_ledger == Some(expiration_ledger as i64),
                TokenNoticeView::Transfer { from, to, amount } => e.event_type
                    == TokenEventType::Transfer && e.from == Some(from) && e.to == Some(to)
                    && e.admin is None && e.amount == Some(dec_int(amount as int)),
                TokenNoticeView::Burn { from, amount } => e.event_type == TokenEventType::Burn
                    && e.from == Some(from) && e.to is None && e.amount == Some(
                    dec_int(amount as int),
                ),
            }
        }),
{
    names_differ();
}

/// What is decoded of an approval names as its holder the second topic and as its spender the
/// third; of a transfer the second is the source and the third the destination; a mint and a
/// clawback name their administrator second.
pub proof fn decoded_events_name_their_parties(
    topics: &[ScVal],
    data: &ScVal,
    event: TokenEvent,
    second: AddressView,
    third: AddressView,
)
    requires
        call_ensures(decode_token_event, (topics, data), Some(event)),
        topics@.len() > 2,
        topics@[1]@ == ScView::Address(second),
        topics@[2]@ == ScView::Address(third),
    ensures
        event.event_type == TokenEventType::Approve ==> {
            &&& opt_view(event.from) == Some(address_text(second))
            &&& opt_view(event.spender) == Some(address_text(third))
            &&& event.to is None
            &&& event.admin is None
        },
        event.event_type == TokenEventType::Transfer ==> {
            &&& opt_view(event.from) == Some(address_text(second))
            &&& opt_view(event.to) == Some(address_text(third))
            &&& event.spender is None
            &&& event.admin is None
        },
        event.event_type == TokenEventType::Clawback ==> {
            &&& opt_view(event.admin) == Some(address_text(second))
            &&& opt_view(event.from) == Some(address_text(third))
            &&& event.to is None
            &&& event.spender is None
        },
        event.event_type == TokenEventType::Mint ==> {
            &&& opt_view(event.admin) == Some(address_text(second))
            &&& opt_view(event.to) == Some(address_text(third))
            &&& event.from is None
            &&& event.spender is None
        },
        event.event_type == TokenEventType::Burn ==> {
            &&& opt_view(event.from) == Some(address_text(second))
            &&& event.to is None
            &&& event.admin is None
            &&& event.spender is None
        },
        topics@[0]@ is Symbol && utf8_lossy(topics@[0]@->Symbol_0) == event.event_type.name(),
{
    lemma_sc_views(topics@);
    let t = sc_views(topics@);
    assert(t[0] == topics@[0]@);
    assert(t[1] == topics@[1]@);
    assert(t[2] == topics@[2]@);
    names_differ();
}

/// A token event is seen with each field in its own place.
pub proof fn token_events_show_their_fields(e: TokenEvent)
    ensures
        e@.event_type == e.event_type,
        e@.from == opt_view(e.from),
        e@.to == opt_view(e.to),
        e@.spender == opt_view(e.spender),
        e@.admin == opt_view(e.admin),
        e@.amount == opt_view(e.amount),
        e@.expiration_ledger == e.expiration_ledger,
        e@.asset_code == opt_view(e.asset_code),
        e@.asset_issuer == opt_view(e.asset_issuer),
{
}

/// The kinds go by these names.
pub proof fn token_kinds_go_by_these_names()
    ensures
        TokenEventType::Transfer.name() == "transfer"@,
        TokenEventType::Mint.name() == "mint"@,
        TokenEventType::Burn.name() == "burn"@,
        TokenEventType::Clawback.name() == "clawback"@,
        TokenEventType::Approve.name() == "approve"@,
{
}

} // verus!
