//! The error taxonomy that every service of the indexer shares, and how a processing loop is to
//! react to each kind of failure.
use vstd::prelude::*;

use crate::text::dec;
use crate::text::push_dec;

verus! {

broadcast use vstd::string::group_string_axioms;

/// What a database driver reported, as far as the decision whether to retry depends on it.
#[derive(Debug)]
pub enum StorageFault {
    Io,
    Tls,
    Protocol,
    PoolTimedOut,
    PoolClosed,
    WorkerCrashed,
    /// The server answered with an error; it carries the SQLSTATE where the server gave one.
    Database { code: Option<String> },
    /// Any other report of the driver.
    Other,
}

/// The cause of an error: a message, what the database driver reported where the message stands
/// for such a report, and the cause below it.
#[derive(Debug)]
pub struct ErrorSource {
    pub message: String,
    pub fault: Option<StorageFault>,
    pub below: Option<Box<ErrorSource>>,
}

impl ErrorSource {
    /// The whole chain as text: the outermost message first, `": "` between each two.
    pub open spec fn text(self) -> Seq<char>
        decreases self,
    {
        match self.below {
            None => self.message@,
            Some(below) => self.message@ + ": "@ + below.text(),
        }
    }

    /// The messages of the chain, outermost first.
    pub open spec fn messages(self) -> Seq<Seq<char>>
        decreases self,
    {
        match self.below {
            None => seq![self.message@],
            Some(below) => seq![self.message@] + below.messages(),
        }
    }

    /// A cause with nothing below it.
    pub fn msg(message: String) -> (r: ErrorSource)
        ensures
            r.message@ == message@,
            r.fault is None,
            r.below is None,
            r.text() == message@,
    {
        ErrorSource { message, fault: None, below: None }
    }

    /// A cause that stands for a report of the database driver.
    pub fn storage_fault(message: String, fault: StorageFault) -> (r: ErrorSource)
        ensures
            r.message@ == message@,
            r.fault == Some(fault),
            r.below is None,
            r.text() == message@,
    {
        ErrorSource { message, fault: Some(fault), below: None }
    }

    /// The same cause under one more message.
    pub fn context(self, message: String) -> (r: ErrorSource)
        ensures
            r.message@ == message@,
            r.fault is None,
            r.below == Some(Box::new(self)),
            r.text() == message@ + ": "@ + self.text(),
            r.messages() == seq![message@] + self.messages(),
    {
        ErrorSource { message, fault: None, below: Some(Box::new(self)) }
    }

    /// The outermost message.
    pub fn to_string(&self) -> (r: String)
        ensures
            r@ == self.message@,
    {
        self.message.clone()
    }

    /// The whole chain as text.
    pub fn chain_text(&self) -> (r: String)
        ensures
            r@ == self.text(),
        decreases self,
    {
        let mut out = self.message.clone();
        if let Some(below) = &self.below {
            out.append(": ");
            let rest = below.chain_text();
            out.append(rest.as_str());
        }
        out
    }
}

/// The text of a cause is its messages, joined by `": "`: no message of the chain is dropped.
pub proof fn error_text_joins_every_message(source: ErrorSource)
    ensures
        source.messages().len() > 0,
        source.text() == crate::text::join(source.messages(), ": "@),
    decreases source,
{
    let all = source.messages();
    match source.below {
        None => {},
        Some(below) => {
            error_text_joins_every_message(*below);
            lemma_join_front(source.message@, below.messages(), ": "@);
        },
    }
}

proof fn lemma_join_front(first: Seq<char>, rest: Seq<Seq<char>>, sep: Seq<char>)
    requires
        rest.len() > 0,
    ensures
        crate::text::join(seq![first] + rest, sep) == first + sep + crate::text::join(rest, sep),
    decreases rest.len(),
{
    let all = seq![first] + rest;
    assert(all.drop_last() =~= seq![first] + rest.drop_last());
    assert(all.last() == rest.last());
    if rest.len() > 1 {
        lemma_join_front(first, rest.drop_last(), sep);
        assert(crate::text::join(all, sep) =~= first + sep + crate::text::join(rest, sep));
    } else {
        assert(all.drop_last() =~= seq![first]);
        assert(crate::text::join(all.drop_last(), sep) == first);
        assert(crate::text::join(rest, sep) == rest[0]);
    }
}

/// The error of every service of the indexer.
#[derive(Debug)]
pub enum TridentError {
    /// Failure to reach the Stellar RPC or to understand its answer.
    RpcError {
        source: ErrorSource,
        /// The ledger that was being fetched, where it is known.
        ledger: Option<u64>,
    },
    /// Failure to decode or normalise event data. Trying again does not help.
    ParseError { source: ErrorSource },
    /// Failure to read from or write to the database or the stream.
    StorageError { source: ErrorSource },
    /// A missing or invalid configuration value.
    ConfigError { source: ErrorSource },
}

/// How a processing loop is to handle a failure.
#[derive(Debug, Clone, Copy, PartialEq, Eq, Structural)]
pub enum Severity {
    /// Transient: try the operation again.
    Retryable,
    /// Poison input: skip this item and go on.
    Skip,
    /// Unrecoverable: halt the process.
    Fatal,
}

impl TridentError {
    /// The cause of the error.
    pub open spec fn cause(self) -> ErrorSource {
        match self {
            TridentError::RpcError { source, .. } => source,
            TridentError::ParseError { source } => source,
            TridentError::StorageError { source } => source,
            TridentError::ConfigError { source } => source,
        }
    }

    /// The reaction that the kind of an error calls for.
    pub open spec fn reaction(self) -> Severity {
        match self {
            TridentError::RpcError { .. } => Severity::Retryable,
            TridentError::StorageError { .. } => Severity::Retryable,
            TridentError::ParseError { .. } => Severity::Skip,
            TridentError::ConfigError { .. } => Severity::Fatal,
        }
    }

    /// What comes before the cause when the error is displayed.
    pub open spec fn heading(self) -> Seq<char> {
        match self {
            TridentError::RpcError { ledger: None, .. } => "RPC error"@ + ": "@,
            TridentError::RpcError { ledger: Some(l), .. } => "RPC error at ledger "@ + dec(
                l as nat,
            ) + ": "@,
            TridentError::ParseError { .. } => "Parse error: "@,
            TridentError::StorageError { .. } => "Storage error: "@,
            TridentError::ConfigError { .. } => "Config error: "@,
        }
    }

    /// The text of the error: its heading, then the whole chain of causes.
    pub open spec fn text(self) -> Seq<char> {
        self.heading() + self.cause().text()
    }

    /// An RPC error without a ledger.
    pub fn rpc(source: ErrorSource) -> (r: Self)
        ensures
            r == (TridentError::RpcError { source, ledger: None }),
    {
        TridentError::RpcError { source, ledger: None }
    }

    /// An RPC error while `ledger` was being fetched.
    pub fn rpc_at(source: ErrorSource, ledger: u64) -> (r: Self)
        ensures
            r == (TridentError::RpcError { source, ledger: Some(ledger) }),
    {
        TridentError::RpcError { source, ledger: Some(ledger) }
    }

    /// A parse error.
    pub fn parse(source: ErrorSource) -> (r: Self)
        ensures
            r == (TridentError::ParseError { source }),
    {
        TridentError::ParseError { source }
    }

    /// A storage error.
    pub fn storage(source: ErrorSource) -> (r: Self)
        ensures
            r == (TridentError::StorageError { source }),
    {
        TridentError::StorageError { source }
    }

    /// A configuration error.
    pub fn config(source: ErrorSource) -> (r: Self)
        ensures
            r == (TridentError::ConfigError { source }),
    {
        TridentError::ConfigError { source }
    }

    /// How a processing loop is to react.
    pub fn severity(&self) -> (r: Severity)
        ensures
            r == self.reaction(),
    {
        match self {
            TridentError::RpcError { .. } => Severity::Retryable,
            TridentError::StorageError { .. } => Severity::Retryable,
            TridentError::ParseError { .. } => Severity::Skip,
            TridentError::ConfigError { .. } => Severity::Fatal,
        }
    }

    /// Whether the failed operation is to be tried again.
    pub fn retryable(&self) -> (r: bool)
        ensures
            r == (self is RpcError || self is StorageError),
    {
        self.severity() == Severity::Retryable
    }

    /// Whether the process is to halt.
    pub fn fatal(&self) -> (r: bool)
        ensures
            r == (self is ConfigError),
    {
        self.severity() == Severity::Fatal
    }

    /// The cause of the error.
    pub fn source(&self) -> (r: &ErrorSource)
        ensures
            *r == self.cause(),
    {
        match self {
            TridentError::RpcError { source, .. } => source,
            TridentError::ParseError { source } => source,
            TridentError::StorageError { source } => source,
            TridentError::ConfigError { source } => source,
        }
    }

    /// The text of the error, with the whole chain of causes.
    pub fn to_string(&self) -> (r: String)
        ensures
            r@ == self.text(),
    {
        let mut out = match self {
            TridentError::RpcError { ledger, .. } => match ledger {
                None => {
                    let mut s = "RPC error".to_owned();
                    s.append(": ");
                    s
                },
                Some(l) => {
                    let mut s = "RPC error at ledger ".to_owned();
                    push_dec(&mut s, *l as u128);
                    s.append(": ");
                    s
                },
            },
            TridentError::ParseError { .. } => "Parse error: ".to_owned(),
            TridentError::StorageError { .. } => "Storage error: ".to_owned(),
            TridentError::ConfigError { .. } => "Config error: ".to_owned(),
        };
        let rest = self.source().chain_text();
        out.append(rest.as_str());
        out
    }
}

/// Exactly one of retrying, skipping and halting is called for, whatever the error is.
pub proof fn every_error_has_one_reaction(e: TridentError)
    ensures
        e.reaction() == Severity::Retryable <==> (e is RpcError || e is StorageError),
        e.reaction() == Severity::Skip <==> e is ParseError,
        e.reaction() == Severity::Fatal <==> e is ConfigError,
{
}

/// The text of an error begins with its kind, and of one of the RPC with the ledger where it is
/// known, and goes on with the whole chain of its cause.
pub proof fn texts_begin_with_the_kind(source: ErrorSource, ledger: u64)
    ensures
        (TridentError::RpcError { source, ledger: None }).text() == "RPC error"@ + ": "@
            + source.text(),
        (TridentError::RpcError { source, ledger: Some(ledger) }).text()
            == "RPC error at ledger "@ + dec(ledger as nat) + ": "@ + source.text(),
        (TridentError::ParseError { source }).text() == "Parse error: "@ + source.text(),
        (TridentError::StorageError { source }).text() == "Storage error: "@ + source.text(),
        (TridentError::ConfigError { source }).text() == "Config error: "@ + source.text(),
{
}

/// The outermost message of a cause stands first.
pub proof fn the_outermost_message_stands_first(outer: ErrorSource, inner: ErrorSource)
    ensures
        outer.below is None ==> outer.text() == outer.message@ && outer.messages() == seq![
            outer.message@,
        ],
        outer.below == Some(Box::new(inner)) ==> outer.text() == outer.message@ + ": "@
            + inner.text() && outer.messages() == seq![outer.message@] + inner.messages(),
{
}

} // verus!
