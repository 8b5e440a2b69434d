//! The live parser: a normalised event together with its typed projections.
use vstd::prelude::*;

use crate::errors::TridentError;
use crate::indexer::parser::nft_events::decode_nft_event;
use crate::indexer::parser::nft_events::nft_event;
use crate::indexer::parser::nft_events::NftEvent;
use crate::indexer::parser::nft_events::NftView;
use crate::indexer::parser::sac::SacRegistry;
use crate::indexer::parser::token_events::decode_token_event;
use crate::indexer::parser::token_events::token_event;
use crate::indexer::parser::token_events::TokenEvent;
use crate::indexer::parser::token_events::TokenView;
use crate::raw::normalise;
use crate::raw::normalised;
use crate::raw::NormalisedView;
use crate::raw::RawEvent;
use crate::raw::RawView;
use crate::text::eq_ignore_ascii_case;
use crate::text::same_ignoring_ascii_case;
use crate::types::EventView;
use crate::types::SorobanEvent;

verus! {

broadcast use vstd::string::group_string_axioms;

/// A normalised event together with its optional typed projections.
#[derive(Debug)]
pub struct ParsedEvent {
    pub event: SorobanEvent,
    /// The token event, where the payload has the layout of one.
    pub token: Option<TokenEvent>,
    /// The event of a non-fungible token, where the payload has the layout of one.
    pub nft: Option<NftEvent>,
}

/// What a parsed event is.
pub struct ParsedView {
    pub event: EventView,
    pub token: Option<TokenView>,
    pub nft: Option<NftView>,
}

impl View for ParsedEvent {
    type V = ParsedView;

    open spec fn view(&self) -> ParsedView {
        ParsedView {
            event: self.event@,
            token: match self.token {
                Some(t) => Some(t@),
                None => None,
            },
            nft: match self.nft {
                Some(n) => Some(n@),
                None => None,
            },
        }
    }
}

/// Turns raw events into parsed ones.
#[derive(Debug)]
pub struct Parser {
    pub index_diagnostic: bool,
    /// The assets of the tracked contracts.
    pub sac_registry: SacRegistry,
}

/// The issuer that a tracked asset is shown with: the native asset has none.
pub open spec fn shown_issuer(code: Seq<char>, issuer: Seq<char>) -> Option<Seq<char>> {
    if same_ignoring_ascii_case(code, "native"@) {
        None
    } else {
        Some(issuer)
    }
}

/// A token event with the asset of the contract that emitted it, where that is tracked.
pub open spec fn with_asset(
    token: TokenView,
    contract: Seq<char>,
    registry: Map<Seq<char>, (Seq<char>, Seq<char>)>,
) -> TokenView {
    if registry.dom().contains(contract) {
        TokenView {
            asset_code: Some(registry[contract].0),
            asset_issuer: shown_issuer(registry[contract].0, registry[contract].1),
            ..token
        }
    } else {
        token
    }
}

/// The projections of a normalised event.
pub open spec fn projected(
    n: NormalisedView,
    registry: Map<Seq<char>, (Seq<char>, Seq<char>)>,
) -> ParsedView {
    ParsedView {
        event: n.event,
        token: match token_event(n.topics, n.body) {
            Some(token) => Some(with_asset(token, n.event.contract_id, registry)),
            None => None,
        },
        nft: nft_event(n.topics, n.body),
    }
}

/// The parsed form of a raw event: nothing where the event is skipped, or the message of the
/// error.
pub open spec fn parsed(
    raw: RawView,
    index_diagnostic: bool,
    registry: Map<Seq<char>, (Seq<char>, Seq<char>)>,
) -> Result<Option<ParsedView>, Seq<char>> {
    match normalised(raw, index_diagnostic) {
        Err(e) => Err(e),
        Ok(None) => Ok(None),
        Ok(Some(n)) => Ok(Some(projected(n, registry))),
    }
}

impl Parser {
    /// A parser that tracks no assets.
    pub fn new(index_diagnostic: bool) -> (r: Self)
        ensures
            r.index_diagnostic == index_diagnostic,
            r.sac_registry@ == Map::<Seq<char>, (Seq<char>, Seq<char>)>::empty(),
    {
        Parser { index_diagnostic, sac_registry: SacRegistry::default() }
    }

    /// The same parser with the given registry of assets.
    pub fn with_sac_registry(self, sac_registry: SacRegistry) -> (r: Self)
        ensures
            r.index_diagnostic == self.index_diagnostic,
            r.sac_registry == sac_registry,
    {
        Parser { index_diagnostic: self.index_diagnostic, sac_registry }
    }

    /// Parses a raw event, with its projections.
    pub fn parse_event_with_projection(&self, raw: &RawEvent) -> (r: Result<
        Option<ParsedEvent>,
        TridentError,
    >)
        ensures
            match r {
                Ok(None) => parsed(raw@, self.index_diagnostic, self.sac_registry@) == Ok::<
                    Option<ParsedView>,
                    Seq<char>,
                >(None),
                Ok(Some(p)) => parsed(raw@, self.index_diagnostic, self.sac_registry@) == Ok::<
                    Option<ParsedView>,
                    Seq<char>,
                >(Some(p@)),
                Err(e) => e is ParseError && parsed(
                    raw@,
                    self.index_diagnostic,
                    self.sac_registry@,
                ) == Err::<Option<ParsedView>, Seq<char>>(e.cause().text()),
            },
    {
        let n = match normalise(raw, self.index_diagnostic) {
            Ok(Some(n)) => n,
            Ok(None) => return Ok(None),
            Err(e) => return Err(e),
        };
        let token = match decode_token_event(&n.topics, &n.body) {
            Some(token) => {
                let mut token = token;
                if let Some((code, issuer)) = self.sac_registry.lookup(
                    n.event.contract_id.as_str(),
                ) {
                    token.asset_code = Some(code.to_owned());
                    token.asset_issuer = if eq_ignore_ascii_case(code, "native") {
                        None
                    } else {
                        Some(issuer.to_owned())
                    };
                }
                Some(token)
            },
            None => None,
        };
        let nft = decode_nft_event(&n.topics, &n.body);
        Ok(Some(ParsedEvent { event: n.event, token, nft }))
    }
}

/// The registry of assets changes nothing but the asset of a token event: the event itself, the
/// other projections and what is skipped or refused stay the same.
pub proof fn registry_only_names_assets(
    raw: RawView,
    index_diagnostic: bool,
    registry: Map<Seq<char>, (Seq<char>, Seq<char>)>,
)
    ensures
        ({
            let with = parsed(raw, index_diagnostic, registry);
            let without = parsed(raw, index_diagnostic, Map::empty());
            match (with, without) {
                (Err(a), Err(b)) => a == b,
                (Ok(None), Ok(None)) => true,
                (Ok(Some(a)), Ok(Some(b))) => a.event == b.event && a.nft == b.nft && (a.token
                    is Some <==> b.token is Some) && (a.token is Some ==> a.token->0.amount
                    == b.token->0.amount && a.token->0.event_type == b.token->0.event_type),
                _ => false,
            }
        }),
{
}

/// The token event of a parsed event is the one that topics and body are laid out as, and names the
/// asset of the contract exactly where that contract is tracked: its code, and its issuer unless it is
/// the native asset.
pub proof fn projections_name_the_tracked_asset(
    n: NormalisedView,
    registry: Map<Seq<char>, (Seq<char>, Seq<char>)>,
)
    ensures
        ({
            let p = projected(n, registry);
            let contract = n.event.contract_id;
            &&& p.event == n.event
            &&& p.nft == nft_event(n.topics, n.body)
            &&& p.token is Some <==> token_event(n.topics, n.body) is Some
            &&& p.token is Some ==> {
                let token = p.token->0;
                let plain = token_event(n.topics, n.body)->0;
                &&& token.event_type == plain.event_type
                &&& token.from == plain.from && token.to == plain.to
                &&& token.spender == plain.spender && token.admin == plain.admin
                &&& token.amount == plain.amount
                &&& token.expiration_ledger == plain.expiration_ledger
                &&& token.asset_code is Some <==> registry.dom().contains(contract)
                    || plain.asset_code is Some
                &&& registry.dom().contains(contract) ==> token.asset_code == Some(
                    registry[contract].0,
                )
                &&& registry.dom().contains(contract) && !same_ignoring_ascii_case(
                    registry[contract].0,
                    "native"@,
                ) ==> token.asset_issuer == Some(registry[contract].1)
                &&& registry.dom().contains(contract) && registry[contract].0 == "native"@
                    ==> token.asset_issuer is None
                &&& !registry.dom().contains(contract) ==> token == plain
            }
        }),
{
}

/// A raw event is parsed exactly where it is normalised, to the projections of what it is normalised
/// to.
pub proof fn parsing_projects_what_is_normalised(
    raw: RawView,
    index_diagnostic: bool,
    registry: Map<Seq<char>, (Seq<char>, Seq<char>)>,
)
    ensures
        match normalised(raw, index_diagnostic) {
            Err(e) => parsed(raw, index_diagnostic, registry) == Err::<Option<ParsedView>, Seq<char>>(
                e,
            ),
            Ok(None) => parsed(raw, index_diagnostic, registry) == Ok::<
                Option<ParsedView>,
                Seq<char>,
            >(None),
            Ok(Some(n)) => parsed(raw, index_diagnostic, registry) is Ok && parsed(
                raw,
                index_diagnostic,
                registry,
            )->Ok_0 == Some(projected(n, registry)),
        },
{
}

} // verus!
