//! A non-fungible token: ids in sequence, one owner each.
use vstd::prelude::*;

use crate::text::same;
use crate::text::views;

verus! {

broadcast use vstd::string::group_string_axioms;

/// Why a transfer was refused.
#[derive(Debug, Clone, Copy, PartialEq, Eq, Structural)]
pub enum NftError {
    /// The token belongs to somebody else.
    NotOwner,
}

impl NftError {
    /// The number by which the host knows the error.
    pub fn code(&self) -> (r: u32)
        ensures
            r == 1,
    {
        1
    }
}

/// What a contract publishes.
#[derive(Debug)]
pub enum NftEvent {
    Mint { to: String, token_id: u32 },
    Transfer { from: String, to: String, token_id: u32 },
}

/// What a contract publishes.
pub enum NftEventView {
    Mint { to: Seq<char>, token_id: u32 },
    Transfer { from: Seq<char>, to: Seq<char>, token_id: u32 },
}

impl View for NftEvent {
    type V = NftEventView;

    open spec fn view(&self) -> NftEventView {
        match *self {
            NftEvent::Mint { to, token_id } => NftEventView::Mint { to: to@, token_id },
            NftEvent::Transfer { from, to, token_id } => NftEventView::Transfer {
                from: from@,
                to: to@,
                token_id,
            },
        }
    }
}

/// A contract of non-fungible tokens.
#[derive(Debug)]
pub struct Nft {
    owners: Vec<String>,
}

impl View for Nft {
    type V = Seq<Seq<char>>;

    /// The owners of the tokens, by their ids.
    closed spec fn view(&self) -> Seq<Seq<char>> {
        views(self.owners@)
    }
}

impl Default for Nft {
    fn default() -> (r: Self)
        ensures
            r@ == Seq::<Seq<char>>::empty(),
    {
        let made = Nft { owners: Vec::new() };
        assert(made@ =~= Seq::<Seq<char>>::empty());
        made
    }
}

impl Nft {
    /// Mints the token with the next id, and returns the id and what is published.
    pub fn mint(&mut self, to: &str) -> (r: (u32, NftEvent))
        requires
            old(self)@.len() < u32::MAX,
        ensures
            final(self)@ == old(self)@.push(to@),
            r.0 == old(self)@.len(),
            r.1@ == (NftEventView::Mint { to: to@, token_id: r.0 }),
    {
        let token_id: u32 = self.owners.len() as u32;
        let ghost before = self.owners@;
        self.owners.push(to.to_owned());
        assert(views(self.owners@) =~= views(before).push(to@));
        (token_id, NftEvent::Mint { to: to.to_owned(), token_id })
    }

    /// Whether there is a token with an id.
    pub fn has_token(&self, token_id: u32) -> (r: bool)
        ensures
            r == (token_id < self@.len()),
    {
        (token_id as usize) < self.owners.len()
    }

    /// The owner of a token.
    pub fn owner_of(&self, token_id: u32) -> (r: String)
        requires
            token_id < self@.len(),
        ensures
            r@ == self@[token_id as int],
    {
        self.owners[token_id as usize].clone()
    }

    /// Moves a token from the caller to another owner. It is refused where the token is not the
    /// caller's.
    pub fn transfer(&mut self, from: &str, to: &str, token_id: u32) -> (r: Result<
        NftEvent,
        NftError,
    >)
        requires
            token_id < old(self)@.len(),
        ensures
            match r {
                Ok(event) => {
                    &&& old(self)@[token_id as int] == from@
                    &&& final(self)@ == old(self)@.update(token_id as int, to@)
                    &&& event@ == (NftEventView::Transfer { from: from@, to: to@, token_id })
                },
                Err(e) => {
                    &&& e == NftError::NotOwner
                    &&& old(self)@[token_id as int] != from@
                    &&& final(self)@ == old(self)@
                },
            },
    {
        if !same(self.owners[token_id as usize].as_str(), from) {
            return Err(NftError::NotOwner);
        }
        let ghost before = self.owners@;
        self.owners.set(token_id as usize, to.to_owned());
        assert(views(self.owners@) =~= views(before).update(token_id as int, to@));
        Ok(NftEvent::Transfer { from: from.to_owned(), to: to.to_owned(), token_id })
    }
}

/// Minting leaves every token with its owner.
pub proof fn minting_disturbs_no_token(owners: Seq<Seq<char>>, to: Seq<char>, id: int)
    requires
        0 <= id < owners.len(),
    ensures
        owners.push(to)[id] == owners[id],
        owners.push(to)[owners.len() as int] == to,
{
}

/// A transfer gives the token away: the former owner cannot transfer it again, unless it went to
/// that owner, and every other token stays where it was.
pub proof fn transfers_move_one_token(owners: Seq<Seq<char>>, id: int, to: Seq<char>, other: int)
    requires
        0 <= id < owners.len(),
        0 <= other < owners.len(),
    ensures
        owners.update(id, to)[id] == to,
        other != id ==> owners.update(id, to)[other] == owners[other],
        to != owners[id] ==> owners.update(id, to)[id] != owners[id],
{
}

/// What a contract publishes is seen with each field in its own place.
pub proof fn published_events_show_their_fields(e: NftEvent)
    ensures
        e matches NftEvent::Mint { to, token_id } ==> e@ == (NftEventView::Mint {
            to: to@,
            token_id,
        }),
        e matches NftEvent::Transfer { from, to, token_id } ==> e@ == (NftEventView::Transfer {
            from: from@,
            to: to@,
            token_id,
        }),
{
}

/// A mint gives the next id to whom it names, and a transfer gives a token of the source to the
/// destination; both are published so.
pub proof fn tokens_reach_whom_they_are_meant_for(
    n: &mut Nft,
    to: &str,
    minted: (u32, NftEvent),
    m: &mut Nft,
    from: &str,
    token_id: u32,
    event: NftEvent,
)
    requires
        call_ensures(Nft::mint, (n, to), minted),
        call_ensures(Nft::transfer, (m, from, to, token_id), Ok(event)),
        token_id < old(m)@.len(),
    ensures
        minted.0 == old(n)@.len(),
        final(n)@.len() == old(n)@.len() + 1,
        final(n)@[minted.0 as int] == to@,
        minted.1 is Mint && minted.1->Mint_to@ == to@ && minted.1->Mint_token_id == minted.0,
        old(m)@[token_id as int] == from@,
        final(m)@[token_id as int] == to@,
        event is Transfer && event->from@ == from@ && event->Transfer_to@ == to@
            && event->Transfer_token_id == token_id,
{
}

/// A transfer by anybody but the owner is refused and moves nothing.
pub proof fn only_the_owner_transfers(
    m: &mut Nft,
    from: &str,
    to: &str,
    token_id: u32,
    r: Result<NftEvent, NftError>,
)
    requires
        call_ensures(Nft::transfer, (m, from, to, token_id), r),
        token_id < old(m)@.len(),
    ensures
        r is Ok <==> old(m)@[token_id as int] == from@,
        r is Err ==> r->Err_0 == NftError::NotOwner && final(m)@ == old(m)@,
{
}

} // verus!
