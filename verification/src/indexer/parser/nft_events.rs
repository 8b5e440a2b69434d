//! Events of non-fungible tokens, decoded into named fields.
use vstd::prelude::*;

use crate::codec::utf8_lossy;
use crate::codec::utf8_text;
use crate::indexer::parser::token_events::addr_topic;
use crate::indexer::parser::token_events::address_at;
use crate::indexer::parser::token_events::event_name;
use crate::indexer::parser::token_events::name_of;
use crate::json::set_member;
use crate::json::Json;
use crate::json::JsonMember;
use crate::json::JsonView;
use crate::scval::AddressView;
use crate::scval::address_text;
use crate::scval::lemma_sc_views;
use crate::scval::sc_view;
use crate::scval::sc_views;
use crate::scval::ScVal;
use crate::scval::ScView;
use crate::text::opt_view;
use crate::text::same;

verus! {

broadcast use vstd::string::group_string_axioms;

/// The events of a non-fungible token.
#[derive(Debug, Clone, Copy, PartialEq, Eq, Structural)]
pub enum NftEventType {
    Mint,
    Transfer,
}

impl NftEventType {
    /// The name of the event.
    pub open spec fn name(self) -> Seq<char> {
        match self {
            NftEventType::Mint => "mint"@,
            NftEventType::Transfer => "transfer"@,
        }
    }

    /// The name of the event.
    pub fn as_str(self) -> (r: &'static str)
        ensures
            r@ == self.name(),
    {
        match self {
            NftEventType::Mint => "mint",
            NftEventType::Transfer => "transfer",
        }
    }
}

/// An event of a non-fungible token with named fields.
#[derive(Debug, PartialEq, Eq)]
pub struct NftEvent {
    pub event_type: NftEventType,
    /// Who minted the token; on `mint` only.
    pub admin: Option<String>,
    /// Where the token comes from; on `transfer` only.
    pub from: Option<String>,
    /// Where the token goes.
    pub to: Option<String>,
    pub token_id: u64,
    /// Where the metadata of the token is; on `mint` only.
    pub uri: Option<String>,
}

/// What an event of a non-fungible token is.
pub struct NftView {
    pub event_type: NftEventType,
    pub admin: Option<Seq<char>>,
    pub from: Option<Seq<char>>,
    pub to: Option<Seq<char>>,
    pub token_id: u64,
    pub uri: Option<Seq<char>>,
}

impl View for NftEvent {
    type V = NftView;

    open spec fn view(&self) -> NftView {
        NftView {
            event_type: self.event_type,
            admin: opt_view(self.admin),
            from: opt_view(self.from),
            to: opt_view(self.to),
            token_id: self.token_id,
            uri: opt_view(self.uri),
        }
    }
}

/// The token number at a topic position.
pub open spec fn number_at(topics: Seq<ScView>, i: int) -> Option<u64> {
    if i < topics.len() {
        match topics[i] {
            ScView::U64(n) => Some(n),
            ScView::U32(n) => Some(n as u64),
            _ => None,
        }
    } else {
        None
    }
}

/// The text of a string value.
pub open spec fn string_of_value(v: ScView) -> Option<Seq<char>> {
    match v {
        ScView::String(s) => Some(utf8_lossy(s)),
        _ => None,
    }
}

/// The event that topics and body stand for: a `mint` with administrator, destination and number
/// in the topics and the URI in the body, or a `transfer` with source, destination and number in
/// the topics and nothing in the body.
pub open spec fn nft_event(topics: Seq<ScView>, data: ScView) -> Option<NftView> {
    match event_name(topics) {
        None => None,
        Some(name) => if name == "mint"@ {
            match (
                address_at(topics, 1),
                address_at(topics, 2),
                number_at(topics, 3),
                string_of_value(data),
            ) {
                (Some(admin), Some(to), Some(token_id), Some(uri)) => Some(
                    NftView {
                        event_type: NftEventType::Mint,
                        admin: Some(admin),
                        from: None,
                        to: Some(to),
                        token_id,
                        uri: Some(uri),
                    },
                ),
                _ => None,
            }
        } else if name == "transfer"@ && data == ScView::Void {
            match (address_at(topics, 1), address_at(topics, 2), number_at(topics, 3)) {
                (Some(from), Some(to), Some(token_id)) => Some(
                    NftView {
                        event_type: NftEventType::Transfer,
                        admin: None,
                        from: Some(from),
                        to: Some(to),
                        token_id,
                        uri: None,
                    },
                ),
                _ => None,
            }
        } else {
            None
        },
    }
}

fn u64_topic(topics: &[ScVal], index: usize) -> (r: Option<u64>)
    ensures
        r == number_at(sc_views(topics@), index as int),
{
    proof {
        lemma_sc_views(topics@);
    }
    if index >= topics.len() {
        return None;
    }
    assert(sc_views(topics@)[index as int] == sc_view(topics@[index as int]));
    match &topics[index] {
        ScVal::U64(n) => Some(*n),
        ScVal::U32(n) => Some(*n as u64),
        _ => None,
    }
}

fn string_data(v: &ScVal) -> (r: Option<String>)
    ensures
        opt_view(r) == string_of_value(v@),
{
    match v {
        ScVal::String(s) => Some(utf8_text(s)),
        _ => None,
    }
}

fn is_void(v: &ScVal) -> (r: bool)
    ensures
        r == (v@ == ScView::Void),
{
    match v {
        ScVal::Void => true,
        _ => false,
    }
}

/// Decodes an event of a non-fungible token into named fields.
pub fn decode_nft_event(topics: &[ScVal], data: &ScVal) -> (r: Option<NftEvent>)
    ensures
        match r {
            Some(event) => nft_event(sc_views(topics@), data@) == Some(event@),
            None => nft_event(sc_views(topics@), data@) is None,
        },
{
    let name = match name_of(topics) {
        Some(name) => name,
        None => return None,
    };
    if same(name.as_str(), "mint") {
        match (addr_topic(topics, 1), addr_topic(topics, 2), u64_topic(topics, 3), string_data(data)) {
            (Some(admin), Some(to), Some(token_id), Some(uri)) => Some(
                NftEvent {
                    event_type: NftEventType::Mint,
                    admin: Some(admin),
                    from: None,
                    to: Some(to),
                    token_id,
                    uri: Some(uri),
                },
            ),
            _ => None,
        }
    } else if same(name.as_str(), "transfer") && is_void(data) {
        match (addr_topic(topics, 1), addr_topic(topics, 2), u64_topic(topics, 3)) {
            (Some(from), Some(to), Some(token_id)) => Some(
                NftEvent {
                    event_type: NftEventType::Transfer,
                    admin: None,
                    from: Some(from),
                    to: Some(to),
                    token_id,
                    uri: None,
                },
            ),
            _ => None,
        }
    } else {
        None
    }
}

/// A text as a JSON string, or null where there is none.
pub open spec fn optional_json(s: Option<Seq<char>>) -> JsonView {
    match s {
        Some(s) => JsonView::String(s),
        None => JsonView::Null,
    }
}

fn optional_to_json(s: Option<String>) -> (r: Json)
    ensures
        r@ == optional_json(opt_view(s)),
{
    match s {
        Some(s) => Json::String(s),
        None => Json::Null,
    }
}

/// The JSON of an event: every field, with null for the ones that it does not carry.
pub open spec fn nft_json(e: NftView) -> JsonView {
    JsonView::Object(
        Map::empty().insert("event"@, JsonView::String(e.event_type.name())).insert(
            "admin"@,
            optional_json(e.admin),
        ).insert("from"@, optional_json(e.from)).insert("to"@, optional_json(e.to)).insert(
            "token_id"@,
            JsonView::Number(e.token_id as int),
        ).insert("uri"@, optional_json(e.uri)),
    )
}

/// Decodes an event of a non-fungible token into JSON.
pub fn try_decode_nft_event(topics: &[ScVal], data: &ScVal) -> (r: Option<Json>)
    ensures
        match (r, nft_event(sc_views(topics@), data@)) {
            (Some(json), Some(event)) => json@ == nft_json(event),
            (None, None) => true,
            _ => false,
        },
{
    let event = match decode_nft_event(topics, data) {
        Some(event) => event,
        None => return None,
    };
    let mut members: Vec<JsonMember> = Vec::new();
    set_member(
        &mut members,
        "event".to_owned(),
        Json::String(event.event_type.as_str().to_owned()),
    );
    set_member(&mut members, "admin".to_owned(), optional_to_json(event.admin));
    set_member(&mut members, "from".to_owned(), optional_to_json(event.from));
    set_member(&mut members, "to".to_owned(), optional_to_json(event.to));
    set_member(&mut members, "token_id".to_owned(), Json::Number(event.token_id as i128));
    set_member(&mut members, "uri".to_owned(), optional_to_json(event.uri));
    Some(Json::Object(members))
}

/// A decoded event always names the destination, and the other parties that its kind has.
pub proof fn nft_events_are_complete(topics: Seq<ScView>, data: ScView)
    ensures
        nft_event(topics, data) is Some ==> {
            let e = nft_event(topics, data)->0;
            &&& e.to is Some
            &&& event_name(topics) == Some(e.event_type.name())
            &&& e.event_type == NftEventType::Mint <==> e.admin is Some
            &&& e.event_type == NftEventType::Mint <==> e.uri is Some
            &&& e.event_type == NftEventType::Transfer <==> e.from is Some
        },
{
}

/// A mint comes back as it was laid out: administrator, destination and number in the topics behind
/// the name, and the text of the body as the URI.
pub proof fn nft_mints_name_their_parties(
    topics: Seq<ScView>,
    name: Seq<u8>,
    admin: AddressView,
    to: AddressView,
    token: ScView,
    uri: Seq<u8>,
)
    requires
        topics.len() > 3,
        topics[0] == ScView::Symbol(name),
        utf8_lossy(name) == "mint"@,
        topics[1] == ScView::Address(admin),
        topics[2] == ScView::Address(to),
        topics[3] == token,
        token is U64 || token is U32,
    ensures
        ({
            let id = match token {
                ScView::U64(n) => n,
                ScView::U32(n) => n as u64,
                _ => 0,
            };
            let e = nft_event(topics, ScView::String(uri));
            &&& e == Some(
                NftView {
                    event_type: NftEventType::Mint,
                    admin: Some(address_text(admin)),
                    from: None,
                    to: Some(address_text(to)),
                    token_id: id,
                    uri: Some(utf8_lossy(uri)),
                },
            )
            &&& nft_json(e->0) == JsonView::Object(
                Map::<Seq<char>, JsonView>::empty().insert("event"@, JsonView::String("mint"@)).insert(
                    "admin"@,
                    JsonView::String(address_text(admin)),
                ).insert("from"@, JsonView::Null).insert(
                    "to"@,
                    JsonView::String(address_text(to)),
                ).insert("token_id"@, JsonView::Number(id as int)).insert(
                    "uri"@,
                    JsonView::String(utf8_lossy(uri)),
                ),
            )
        }),
{
    reveal_strlit("mint");
    reveal_strlit("transfer");
    assert("mint"@.len() != "transfer"@.len());
}

/// A transfer comes back as it was laid out: source, destination and number in the topics behind the
/// name.
pub proof fn nft_transfers_name_source_and_destination(
    topics: Seq<ScView>,
    name: Seq<u8>,
    from: AddressView,
    to: AddressView,
    token: ScView,
)
    requires
        topics.len() > 3,
        topics[0] == ScView::Symbol(name),
        utf8_lossy(name) == "transfer"@,
        topics[1] == ScView::Address(from),
        topics[2] == ScView::Address(to),
        topics[3] == token,
        token is U64 || token is U32,
    ensures
        ({
            let id = match token {
                ScView::U64(n) => n,
                ScView::U32(n) => n as u64,
                _ => 0,
            };
            let e = nft_event(topics, ScView::Void);
            &&& e == Some(
                NftView {
                    event_type: NftEventType::Transfer,
                    admin: None,
                    from: Some(address_text(from)),
                    to: Some(address_text(to)),
                    token_id: id,
                    uri: None,
                },
            )
            &&& nft_json(e->0) == JsonView::Object(
                Map::<Seq<char>, JsonView>::empty().insert(
                    "event"@,
                    JsonView::String("transfer"@),
                ).insert("admin"@, JsonView::Null).insert(
                    "from"@,
                    JsonView::String(address_text(from)),
                ).insert("to"@, JsonView::String(address_text(to))).insert(
                    "token_id"@,
                    JsonView::Number(id as int),
                ).insert("uri"@, JsonView::Null),
            )
        }),
{
    reveal_strlit("mint");
    reveal_strlit("transfer");
    assert("mint"@.len() != "transfer"@.len());
}

/// Nothing else is taken for an event of a non-fungible token: the first topic is the name of the
/// kind, the parties are the addresses behind it, the number is the topic behind these, and the body
/// is a text on a mint and nothing on a transfer.
pub proof fn nft_events_are_read_off_their_layout(topics: Seq<ScView>, data: ScView)
    requires
        nft_event(topics, data) is Some,
    ensures
        ({
            let e = nft_event(topics, data)->0;
            &&& topics.len() >= 4
            &&& topics[0] is Symbol && topics[1] is Address && topics[2] is Address
            &&& e.to == Some(address_text(topics[2]->Address_0))
            &&& match e.event_type {
                NftEventType::Mint => utf8_lossy(topics[0]->Symbol_0) == "mint"@ && e.admin == Some(
                    address_text(topics[1]->Address_0),
                ) && e.from is None && data is String && e.uri == Some(utf8_lossy(data->String_0)),
                NftEventType::Transfer => utf8_lossy(topics[0]->Symbol_0) == "transfer"@ && e.from
                    == Some(address_text(topics[1]->Address_0)) && e.admin is None && data is Void
                    && e.uri is None,
            }
            &&& match topics[3] {
                ScView::U64(n) => e.token_id == n,
                ScView::U32(n) => e.token_id == n,
                _ => false,
            }
        }),
{
}

/// What is decoded of a transfer names as its source the second topic and as its destination the
/// third; of a mint the second is the administrator and the third the first owner.
pub proof fn decoded_nft_events_name_their_parties(
    topics: &[ScVal],
    data: &ScVal,
    event: NftEvent,
    second: AddressView,
    third: AddressView,
)
    requires
        call_ensures(decode_nft_event, (topics, data), Some(event)),
        topics@.len() > 3,
        topics@[1]@ == ScView::Address(second),
        topics@[2]@ == ScView::Address(third),
    ensures
        event.event_type == NftEventType::Transfer ==> {
            &&& opt_view(event.from) == Some(address_text(second))
            &&& opt_view(event.to) == Some(address_text(third))
            &&& event.admin is None
            &&& event.uri is None
            &&& data@ == ScView::Void
        },
        event.event_type == NftEventType::Mint ==> {
            &&& opt_view(event.admin) == Some(address_text(second))
            &&& opt_view(event.to) == Some(address_text(third))
            &&& event.from is None
            &&& event.uri is Some
        },
        topics@[3]@ matches ScView::U64(n) ==> event.token_id == n,
        topics@[3]@ matches ScView::U32(n) ==> event.token_id == n,
        topics@[3]@ is U64 || topics@[3]@ is U32,
        topics@[0]@ is Symbol && utf8_lossy(topics@[0]@->Symbol_0) == event.event_type.name(),
{
    lemma_sc_views(topics@);
    let t = sc_views(topics@);
    assert(t[0] == topics@[0]@);
    assert(t[1] == topics@[1]@);
    assert(t[2] == topics@[2]@);
    assert(t[3] == topics@[3]@);
    reveal_strlit("mint");
    reveal_strlit("transfer");
    assert("mint"@.len() != "transfer"@.len());
}

/// The kinds go by these names.
pub proof fn nft_kinds_go_by_these_names()
    ensures
        NftEventType::Mint.name() == "mint"@,
        NftEventType::Transfer.name() == "transfer"@,
{
}

} // verus!
