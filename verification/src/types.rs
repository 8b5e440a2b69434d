//! Vocabulary that the services share: the networks they run on and the normalised event.
use vstd::prelude::*;

use crate::errors::ErrorSource;
use crate::json::Json;
use crate::json::JsonView;
use crate::text::same;
use crate::text::views;

verus! {

broadcast use vstd::string::group_string_axioms;

/// The lower-case form of a text, as Unicode defines it.
pub uninterp spec fn lowercase(s: Seq<char>) -> Seq<char>;

/// `str::to_lowercase` of std: the lower-case equivalent of the text.
#[verifier::external_body]
pub(crate) fn to_lowercase(s: &str) -> (r: String)
    ensures
        r@ == lowercase(s@),
{
    s.to_lowercase()
}

/// The Stellar networks that are known.
#[derive(Debug, Clone, Copy, PartialEq, Eq, Structural)]
pub enum Network {
    Mainnet,
    Testnet,
    Futurenet,
    Sandbox,
}

impl Network {
    pub const MAINNET: &'static str = "mainnet";

    pub const TESTNET: &'static str = "testnet";

    pub const FUTURENET: &'static str = "futurenet";

    pub const SANDBOX: &'static str = "sandbox";

    /// The name of the network.
    pub open spec fn name(self) -> Seq<char> {
        match self {
            Network::Mainnet => "mainnet"@,
            Network::Testnet => "testnet"@,
            Network::Futurenet => "futurenet"@,
            Network::Sandbox => "sandbox"@,
        }
    }

    /// The name of the network.
    pub fn as_str(&self) -> (r: &'static str)
        ensures
            r@ == self.name(),
    {
        match self {
            Network::Mainnet => Self::MAINNET,
            Network::Testnet => Self::TESTNET,
            Network::Futurenet => Self::FUTURENET,
            Network::Sandbox => Self::SANDBOX,
        }
    }

    /// The names of all networks.
    pub fn all() -> (r: [&'static str; 4])
        ensures
            r@.len() == 4,
            r@[0]@ == Network::Mainnet.name(),
            r@[1]@ == Network::Testnet.name(),
            r@[2]@ == Network::Futurenet.name(),
            r@[3]@ == Network::Sandbox.name(),
    {
        [Self::MAINNET, Self::TESTNET, Self::FUTURENET, Self::SANDBOX]
    }

    /// The network with the given name, which is already in lower case.
    pub fn from_lower(lower: &str) -> (r: Result<Network, ErrorSource>)
        ensures
            match r {
                Ok(n) => n.name() == lower@,
                Err(e) => (forall|n: Network| n.name() != lower@) && e.text()
                    == unknown_network_text(lower@),
            },
    {
        if same(lower, "mainnet") {
            return Ok(Network::Mainnet);
        }
        if same(lower, "testnet") {
            return Ok(Network::Testnet);
        }
        if same(lower, "futurenet") {
            return Ok(Network::Futurenet);
        }
        if same(lower, "sandbox") {
            return Ok(Network::Sandbox);
        }
        let mut text = "invalid network: ".to_owned();
        text.append(lower);
        text.append(". Expected one of: mainnet, testnet, futurenet, sandbox");
        Err(ErrorSource::msg(text))
    }

    /// The network with the given name, in whatever case it is written.
    pub fn from_str(s: &str) -> (r: Result<Network, ErrorSource>)
        ensures
            match r {
                Ok(n) => n.name() == lowercase(s@),
                Err(e) => (forall|n: Network| n.name() != lowercase(s@)) && e.text()
                    == unknown_network_text(lowercase(s@)),
            },
    {
        let lower = to_lowercase(s);
        Network::from_lower(lower.as_str())
    }

    /// The name of the network, as an owned text.
    pub fn to_string(&self) -> (r: String)
        ensures
            r@ == self.name(),
    {
        self.as_str().to_owned()
    }
}

/// The message for a name that no network has.
pub open spec fn unknown_network_text(name: Seq<char>) -> Seq<char> {
    "invalid network: "@ + name
        + ". Expected one of: mainnet, testnet, futurenet, sandbox"@
}

/// No two networks share a name, so a name in lower case gives back the network it came from.
pub proof fn network_names_are_distinct(a: Network, b: Network)
    requires
        a.name() == b.name(),
    ensures
        a == b,
{
    reveal_strlit("mainnet");
    reveal_strlit("testnet");
    reveal_strlit("futurenet");
    reveal_strlit("sandbox");
    assert("mainnet"@[0] == 'm');
    assert("testnet"@[0] == 't');
    assert("futurenet"@[0] == 'f');
    assert("sandbox"@[0] == 's');
}


/// What emitted an event.
#[derive(Debug, Clone, Copy, PartialEq, Eq, Structural)]
pub enum EventType {
    Contract,
    System,
    Diagnostic,
}

impl EventType {
    /// The name of the kind, in lower case.
    pub open spec fn name(self) -> Seq<char> {
        match self {
            EventType::Contract => "contract"@,
            EventType::System => "system"@,
            EventType::Diagnostic => "diagnostic"@,
        }
    }

    /// The name of the kind, in lower case.
    pub fn as_str(&self) -> (r: &'static str)
        ensures
            r@ == self.name(),
    {
        match self {
            EventType::Contract => "contract",
            EventType::System => "system",
            EventType::Diagnostic => "diagnostic",
        }
    }
}

/// An event in the form in which it is stored and forwarded.
#[derive(Debug)]
pub struct SorobanEvent {
    pub contract_id: String,
    pub topics: Vec<String>,
    pub data: Json,
    pub ledger_sequence: u64,
    pub ledger_timestamp: String,
    pub transaction_hash: String,
    pub event_index: u32,
    pub event_type: EventType,
}

/// What a normalised event is.
pub struct EventView {
    pub contract_id: Seq<char>,
    pub topics: Seq<Seq<char>>,
    pub data: JsonView,
    pub ledger_sequence: u64,
    pub ledger_timestamp: Seq<char>,
    pub transaction_hash: Seq<char>,
    pub event_index: u32,
    pub event_type: EventType,
}

impl View for SorobanEvent {
    type V = EventView;

    open spec fn view(&self) -> EventView {
        EventView {
            contract_id: self.contract_id@,
            topics: views(self.topics@),
            data: self.data@,
            ledger_sequence: self.ledger_sequence,
            ledger_timestamp: self.ledger_timestamp@,
            transaction_hash: self.transaction_hash@,
            event_index: self.event_index,
            event_type: self.event_type,
        }
    }
}

/// What a normalised event shows is what its fields hold.
pub proof fn events_show_their_fields(event: SorobanEvent)
    ensures
        event@.contract_id == event.contract_id@,
        event@.topics.len() == event.topics@.len(),
        forall|i: int|
            0 <= i < event.topics@.len() ==> #[trigger] event@.topics[i] == event.topics@[i]@,
        event@.data == event.data@,
        event@.ledger_sequence == event.ledger_sequence,
        event@.ledger_timestamp == event.ledger_timestamp@,
        event@.transaction_hash == event.transaction_hash@,
        event@.event_index == event.event_index,
        event@.event_type == event.event_type,
{
}

/// The names of networks and of kinds of events, each its own.
pub proof fn names_are_these(kind: EventType, other: EventType)
    ensures
        Network::Mainnet.name() == "mainnet"@,
        Network::Testnet.name() == "testnet"@,
        Network::Futurenet.name() == "futurenet"@,
        Network::Sandbox.name() == "sandbox"@,
        EventType::Contract.name() == "contract"@,
        EventType::System.name() == "system"@,
        EventType::Diagnostic.name() == "diagnostic"@,
        kind.name() == other.name() ==> kind == other,
{
    reveal_strlit("contract");
    reveal_strlit("system");
    reveal_strlit("diagnostic");
    assert("contract"@.len() != "system"@.len());
    assert("contract"@.len() != "diagnostic"@.len());
    assert("system"@.len() != "diagnostic"@.len());
}

/// A name that no network has is refused with the names that there are; any of those gives its
/// network.
pub proof fn unknown_networks_are_refused(lower: &str, r: Result<Network, ErrorSource>)
    requires
        call_ensures(Network::from_lower, (lower,), r),
    ensures
        lower@ == "mainnet"@ ==> r is Ok && r->Ok_0 == Network::Mainnet,
        lower@ == "testnet"@ ==> r is Ok && r->Ok_0 == Network::Testnet,
        lower@ == "futurenet"@ ==> r is Ok && r->Ok_0 == Network::Futurenet,
        lower@ == "sandbox"@ ==> r is Ok && r->Ok_0 == Network::Sandbox,
        lower@ != "mainnet"@ && lower@ != "testnet"@ && lower@ != "futurenet"@ && lower@
            != "sandbox"@ ==> r is Err && r->Err_0.text() == "invalid network: "@ + lower@
            + ". Expected one of: mainnet, testnet, futurenet, sandbox"@,
{
    reveal_strlit("mainnet");
    reveal_strlit("testnet");
    reveal_strlit("futurenet");
    reveal_strlit("sandbox");
    assert("mainnet"@[0] == 'm' && "testnet"@[0] == 't' && "futurenet"@[0] == 'f' && "sandbox"@[0]
        == 's');
    assert(Network::Mainnet.name() == "mainnet"@);
    assert(Network::Testnet.name() == "testnet"@);
    assert(Network::Futurenet.name() == "futurenet"@);
    assert(Network::Sandbox.name() == "sandbox"@);
    if let Ok(n) = r {
        if lower@ == "mainnet"@ {
            network_names_are_distinct(n, Network::Mainnet);
        } else if lower@ == "testnet"@ {
            network_names_are_distinct(n, Network::Testnet);
        } else if lower@ == "futurenet"@ {
            network_names_are_distinct(n, Network::Futurenet);
        } else if lower@ == "sandbox"@ {
            network_names_are_distinct(n, Network::Sandbox);
        }
    }
}

} // verus!
