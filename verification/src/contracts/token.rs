//! A fungible token with the functions of SEP-41.
use vstd::prelude::*;

use crate::text::same;

verus! {

broadcast use vstd::string::group_string_axioms;

/// What a spender may move, and the ledger that was given for the end of the permission.
#[derive(Debug, Clone, Copy, PartialEq, Eq, Structural)]
pub struct AllowanceValue {
    pub amount: i128,
    pub expiration_ledger: u32,
}

/// Whose tokens, and who may move them.
#[derive(Debug)]
pub struct AllowanceDataKey {
    pub from: String,
    pub spender: String,
}

/// What a token publishes.
#[derive(Debug)]
pub enum TokenNotice {
    Mint { admin: String, to: String, amount: i128 },
    Approve { from: String, spender: String, amount: i128, expiration_ledger: u32 },
    Transfer { from: String, to: String, amount: i128 },
    Burn { from: String, amount: i128 },
}

/// What a token publishes.
pub enum TokenNoticeView {
    Mint { admin: Seq<char>, to: Seq<char>, amount: i128 },
    Approve { from: Seq<char>, spender: Seq<char>, amount: i128, expiration_ledger: u32 },
    Transfer { from: Seq<char>, to: Seq<char>, amount: i128 },
    Burn { from: Seq<char>, amount: i128 },
}

impl View for TokenNotice {
    type V = TokenNoticeView;

    open spec fn view(&self) -> TokenNoticeView {
        match *self {
            TokenNotice::Mint { admin, to, amount } => TokenNoticeView::Mint {
                admin: admin@,
                to: to@,
                amount,
            },
            TokenNotice::Approve {
                from,
                spender,
                amount,
                expiration_ledger,
            } => TokenNoticeView::Approve {
                from: from@,
                spender: spender@,
                amount,
                expiration_ledger,
            },
            TokenNotice::Transfer { from, to, amount } => TokenNoticeView::Transfer {
                from: from@,
                to: to@,
                amount,
            },
            TokenNotice::Burn { from, amount } => TokenNoticeView::Burn { from: from@, amount },
        }
    }
}

#[derive(Debug)]
struct BalanceRow {
    id: String,
    amount: i128,
}

#[derive(Debug)]
struct AllowanceRow {
    key: AllowanceDataKey,
    value: AllowanceValue,
}

#[derive(Debug)]
struct Metadata {
    admin: String,
    decimals: u32,
    name: String,
    symbol: String,
}

/// A fungible token.
#[derive(Debug)]
pub struct Token {
    metadata: Option<Metadata>,
    balances: Vec<BalanceRow>,
    allowances: Vec<AllowanceRow>,
}

/// Who administers a token, and how it is shown.
pub struct MetadataView {
    pub admin: Seq<char>,
    pub decimals: u32,
    pub name: Seq<char>,
    pub symbol: Seq<char>,
}

/// What a token is.
pub struct TokenView {
    pub metadata: Option<MetadataView>,
    pub balances: Map<Seq<char>, i128>,
    pub allowances: Map<(Seq<char>, Seq<char>), AllowanceValue>,
}

spec fn is_balance(rows: Seq<BalanceRow>, id: Seq<char>, i: int) -> bool {
    0 <= i < rows.len() && rows[i].id@ == id
}

spec fn balances_view(rows: Seq<BalanceRow>) -> Map<Seq<char>, i128>
    decreases rows.len(),
{
    if rows.len() == 0 {
        Map::empty()
    } else {
        balances_view(rows.drop_last()).insert(rows.last().id@, rows.last().amount)
    }
}

spec fn distinct_balances(rows: Seq<BalanceRow>) -> bool {
    forall|i: int, j: int|
        0 <= i < rows.len() && 0 <= j < rows.len() && (#[trigger] rows[i]).id@ == (
        #[trigger] rows[j]).id@ ==> i == j
}

spec fn key_of(key: AllowanceDataKey) -> (Seq<char>, Seq<char>) {
    (key.from@, key.spender@)
}

spec fn allowances_view(rows: Seq<AllowanceRow>) -> Map<(Seq<char>, Seq<char>), AllowanceValue>
    decreases rows.len(),
{
    if rows.len() == 0 {
        Map::empty()
    } else {
        allowances_view(rows.drop_last()).insert(key_of(rows.last().key), rows.last().value)
    }
}

spec fn distinct_allowances(rows: Seq<AllowanceRow>) -> bool {
    forall|i: int, j: int|
        0 <= i < rows.len() && 0 <= j < rows.len() && key_of((#[trigger] rows[i]).key) == key_of(
            (#[trigger] rows[j]).key,
        ) ==> i == j
}

impl View for Token {
    type V = TokenView;

    closed spec fn view(&self) -> TokenView {
        TokenView {
            metadata: match self.metadata {
                Some(m) => Some(
                    MetadataView {
                        admin: m.admin@,
                        decimals: m.decimals,
                        name: m.name@,
                        symbol: m.symbol@,
                    },
                ),
                None => None,
            },
            balances: balances_view(self.balances@),
            allowances: allowances_view(self.allowances@),
        }
    }
}

proof fn lemma_balance(rows: Seq<BalanceRow>, i: int)
    requires
        distinct_balances(rows),
        0 <= i < rows.len(),
    ensures
        balances_view(rows).dom().contains(rows[i].id@),
        balances_view(rows)[rows[i].id@] == rows[i].amount,
    decreases rows.len(),
{
    if i < rows.len() - 1 {
        assert(rows.drop_last()[i] == rows[i]);
        lemma_balance(rows.drop_last(), i);
        assert(rows.last() == rows[rows.len() - 1]);
    }
}

proof fn lemma_no_balance(rows: Seq<BalanceRow>, id: Seq<char>)
    requires
        forall|i: int| 0 <= i < rows.len() ==> (#[trigger] rows[i]).id@ != id,
    ensures
        !balances_view(rows).dom().contains(id),
    decreases rows.len(),
{
    if rows.len() > 0 {
        lemma_no_balance(rows.drop_last(), id);
        assert(rows.last() == rows[rows.len() - 1]);
    }
}

proof fn lemma_set_balance(before: Seq<BalanceRow>, after: Seq<BalanceRow>, i: int)
    requires
        distinct_balances(before),
        0 <= i < before.len(),
        after.len() == before.len(),
        after[i].id@ == before[i].id@,
        forall|k: int| 0 <= k < before.len() && k != i ==> after[k] == before[k],
    ensures
        distinct_balances(after),
        balances_view(after) == balances_view(before).insert(before[i].id@, after[i].amount),
    decreases before.len(),
{
    assert(distinct_balances(after)) by {
        assert forall|a: int, b: int|
            0 <= a < after.len() && 0 <= b < after.len() && (#[trigger] after[a]).id@ == (
            #[trigger] after[b]).id@ implies a == b by {
            assert(before[a].id@ == before[b].id@);
        }
    }
    let n = before.len() - 1;
    if i < n {
        assert(before.drop_last()[i] == before[i]);
        assert(after.drop_last()[i] == after[i]);
        lemma_set_balance(before.drop_last(), after.drop_last(), i);
        assert(before[n].id@ != before[i].id@);
        assert(balances_view(after) =~= balances_view(before).insert(
            before[i].id@,
            after[i].amount,
        ));
    } else {
        assert(before.drop_last() =~= after.drop_last());
        assert(balances_view(after) =~= balances_view(before).insert(
            before[i].id@,
            after[i].amount,
        ));
    }
}

proof fn lemma_allowance(rows: Seq<AllowanceRow>, i: int)
    requires
        distinct_allowances(rows),
        0 <= i < rows.len(),
    ensures
        allowances_view(rows).dom().contains(key_of(rows[i].key)),
        allowances_view(rows)[key_of(rows[i].key)] == rows[i].value,
    decreases rows.len(),
{
    if i < rows.len() - 1 {
        assert(rows.drop_last()[i] == rows[i]);
        lemma_allowance(rows.drop_last(), i);
        assert(rows.last() == rows[rows.len() - 1]);
    }
}

proof fn lemma_no_allowance(rows: Seq<AllowanceRow>, key: (Seq<char>, Seq<char>))
    requires
        forall|i: int| 0 <= i < rows.len() ==> key_of((#[trigger] rows[i]).key) != key,
    ensures
        !allowances_view(rows).dom().contains(key),
    decreases rows.len(),
{
    if rows.len() > 0 {
        lemma_no_allowance(rows.drop_last(), key);
        assert(rows.last() == rows[rows.len() - 1]);
    }
}

proof fn lemma_set_allowance(before: Seq<AllowanceRow>, after: Seq<AllowanceRow>, i: int)
    requires
        distinct_allowances(before),
        0 <= i < before.len(),
        after.len() == before.len(),
        key_of(after[i].key) == key_of(before[i].key),
        forall|k: int| 0 <= k < before.len() && k != i ==> after[k] == before[k],
    ensures
        distinct_allowances(after),
        allowances_view(after) == allowances_view(before).insert(
            key_of(before[i].key),
            after[i].value,
        ),
    decreases before.len(),
{
    assert(distinct_allowances(after)) by {
        assert forall|a: int, b: int|
            0 <= a < after.len() && 0 <= b < after.len() && key_of((#[trigger] after[a]).key)
                == key_of((#[trigger] after[b]).key) implies a == b by {
            assert(key_of(before[a].key) == key_of(before[b].key));
        }
    }
    let n = before.len() - 1;
    if i < n {
        assert(before.drop_last()[i] == before[i]);
        assert(after.drop_last()[i] == after[i]);
        lemma_set_allowance(before.drop_last(), after.drop_last(), i);
        assert(key_of(before[n].key) != key_of(before[i].key));
    } else {
        assert(before.drop_last() =~= after.drop_last());
    }
    assert(allowances_view(after) =~= allowances_view(before).insert(
        key_of(before[i].key),
        after[i].value,
    ));
}

/// The sum of all balances.
pub open spec fn supply(balances: Map<Seq<char>, i128>) -> int
    decreases balances.dom().len(),
    when balances.dom().finite()
{
    if balances.dom().len() == 0 {
        0
    } else {
        let id = balances.dom().choose();
        balances[id] + supply(balances.remove(id))
    }
}

proof fn lemma_supply_without(balances: Map<Seq<char>, i128>, id: Seq<char>)
    requires
        balances.dom().finite(),
        balances.dom().contains(id),
    ensures
        supply(balances) == balances[id] + supply(balances.remove(id)),
    decreases balances.dom().len(),
{
    let first = balances.dom().choose();
    if first != id {
        let rest = balances.remove(first);
        lemma_supply_without(rest, id);
        let without = balances.remove(id);
        lemma_supply_without(without, first);
        assert(rest.remove(id) =~= without.remove(first));
    }
}

/// Writing a balance changes the supply by as much as it changes the balance.
pub proof fn supply_follows_balances(balances: Map<Seq<char>, i128>, id: Seq<char>, amount: i128)
    requires
        balances.dom().finite(),
    ensures
        balances.insert(id, amount).dom().finite(),
        supply(balances.insert(id, amount)) == supply(balances) - (if balances.dom().contains(id) {
            balances[id] as int
        } else {
            0
        }) + amount,
{
    let after = balances.insert(id, amount);
    lemma_supply_without(after, id);
    if balances.dom().contains(id) {
        lemma_supply_without(balances, id);
        assert(after.remove(id) =~= balances.remove(id));
    } else {
        assert(after.remove(id) =~= balances);
    }
}

impl TokenView {
    /// The balance of a holder; nobody's is missing, only zero.
    pub open spec fn balance(self, id: Seq<char>) -> i128 {
        if self.balances.dom().contains(id) {
            self.balances[id]
        } else {
            0
        }
    }

    /// What a spender may move of a holder's tokens.
    pub open spec fn allowance(self, from: Seq<char>, spender: Seq<char>) -> AllowanceValue {
        if self.allowances.dom().contains((from, spender)) {
            self.allowances[(from, spender)]
        } else {
            AllowanceValue { amount: 0, expiration_ledger: 0 }
        }
    }

    /// Whether no balance is negative, and there are finitely many.
    pub open spec fn wf(self) -> bool {
        &&& self.balances.dom().finite()
        &&& forall|id: Seq<char>| #[trigger] self.balances.dom().contains(id) ==> self.balances[id]
            >= 0
    }

    /// The same with another balance of one holder.
    pub open spec fn with_balance(self, id: Seq<char>, amount: int) -> TokenView {
        TokenView { balances: self.balances.insert(id, amount as i128), ..self }
    }

    /// After a mint.
    pub open spec fn minted(self, to: Seq<char>, amount: i128) -> TokenView {
        self.with_balance(to, self.balance(to) + amount)
    }

    /// After a burn.
    pub open spec fn burned(self, from: Seq<char>, amount: i128) -> TokenView {
        self.with_balance(from, self.balance(from) - amount)
    }

    /// After a transfer: what is taken is taken before it is given.
    pub open spec fn transferred(self, from: Seq<char>, to: Seq<char>, amount: i128) -> TokenView {
        self.burned(from, amount).minted(to, amount)
    }

    /// Whether a transfer can take place: the holder has enough, and the balance that grows does
    /// not grow too large.
    pub open spec fn can_transfer(self, from: Seq<char>, to: Seq<char>, amount: i128) -> bool {
        &&& 0 <= amount <= self.balance(from)
        &&& from == to || self.balance(to) + amount <= i128::MAX
    }

    /// After a spender has used an allowance. Using nothing writes nothing.
    pub open spec fn spent(self, from: Seq<char>, spender: Seq<char>, amount: i128) -> TokenView {
        if amount > 0 {
            let left = AllowanceValue {
                amount: (self.allowance(from, spender).amount - amount) as i128,
                expiration_ledger: self.allowance(from, spender).expiration_ledger,
            };
            TokenView { allowances: self.allowances.insert((from, spender), left), ..self }
        } else {
            self
        }
    }

    /// After a holder has allowed a spender to move tokens.
    pub open spec fn approved(
        self,
        from: Seq<char>,
        spender: Seq<char>,
        value: AllowanceValue,
    ) -> TokenView {
        TokenView { allowances: self.allowances.insert((from, spender), value), ..self }
    }
}

/// A transfer neither makes nor destroys tokens. It takes from one holder what it gives to the
/// other, leaves everybody else alone, and to oneself it changes nothing.
pub proof fn transfers_conserve_tokens(
    t: TokenView,
    from: Seq<char>,
    to: Seq<char>,
    amount: i128,
    other: Seq<char>,
)
    requires
        t.wf(),
        t.can_transfer(from, to, amount),
    ensures
        t.transferred(from, to, amount).wf(),
        supply(t.transferred(from, to, amount).balances) == supply(t.balances),
        from != to ==> t.transferred(from, to, amount).balance(from) == t.balance(from) - amount
            && t.transferred(from, to, amount).balance(to) == t.balance(to) + amount,
        from == to ==> t.transferred(from, to, amount).balance(from) == t.balance(from),
        other != from && other != to ==> t.transferred(from, to, amount).balance(other)
            == t.balance(other),
        t.transferred(from, to, amount).allowances == t.allowances,
        t.transferred(from, to, amount).metadata == t.metadata,
{
    let taken = t.burned(from, amount);
    supply_follows_balances(t.balances, from, (t.balance(from) - amount) as i128);
    supply_follows_balances(taken.balances, to, (taken.balance(to) + amount) as i128);
}

/// A mint adds its amount to the supply and a burn takes its amount away; each touches one holder.
pub proof fn mint_and_burn_change_the_supply(
    t: TokenView,
    id: Seq<char>,
    amount: i128,
    other: Seq<char>,
)
    requires
        t.wf(),
        amount >= 0,
    ensures
        t.balance(id) + amount <= i128::MAX ==> t.minted(id, amount).wf() && supply(
            t.minted(id, amount).balances,
        ) == supply(t.balances) + amount && t.minted(id, amount).balance(id) == t.balance(id)
            + amount,
        amount <= t.balance(id) ==> t.burned(id, amount).wf() && supply(
            t.burned(id, amount).balances,
        ) == supply(t.balances) - amount && t.burned(id, amount).balance(id) == t.balance(id)
            - amount,
        other != id ==> t.minted(id, amount).balance(other) == t.balance(other) && t.burned(
            id,
            amount,
        ).balance(other) == t.balance(other),
{
    supply_follows_balances(t.balances, id, (t.balance(id) + amount) as i128);
    supply_follows_balances(t.balances, id, (t.balance(id) - amount) as i128);
}

/// What a spender uses of an allowance is gone from it, and no other allowance changes.
pub proof fn allowances_are_spent_once(
    t: TokenView,
    from: Seq<char>,
    spender: Seq<char>,
    amount: i128,
    other_from: Seq<char>,
    other_spender: Seq<char>,
)
    requires
        0 <= amount <= t.allowance(from, spender).amount,
    ensures
        t.spent(from, spender, amount).allowance(from, spender).amount == t.allowance(
            from,
            spender,
        ).amount - amount,
        other_from != from || other_spender != spender ==> t.spent(from, spender, amount).allowance(
            other_from,
            other_spender,
        ) == t.allowance(other_from, other_spender),
        t.spent(from, spender, amount).balances == t.balances,
{
}

impl Default for Token {
    fn default() -> (r: Self)
        ensures
            r.inv(),
            r@.wf(),
            r@.metadata is None,
            r@.balances == Map::<Seq<char>, i128>::empty(),
            r@.allowances == Map::<(Seq<char>, Seq<char>), AllowanceValue>::empty(),
    {
        Token { metadata: None, balances: Vec::new(), allowances: Vec::new() }
    }
}

impl Token {
    /// What holds of the rows: no holder has two balances, no spender two allowances of a holder.
    pub closed spec fn inv(&self) -> bool {
        distinct_balances(self.balances@) && distinct_allowances(self.allowances@)
    }

    fn find_balance(&self, id: &str) -> (r: Option<usize>)
        requires
            self.inv(),
        ensures
            match r {
                Some(i) => is_balance(self.balances@, id@, i as int) && self@.balances.dom().contains(
                    id@,
                ) && self@.balances[id@] == self.balances@[i as int].amount,
                None => !self@.balances.dom().contains(id@) && forall|k: int|
                    0 <= k < self.balances@.len() ==> (#[trigger] self.balances@[k]).id@ != id@,
            },
    {
        let mut i: usize = 0;
        while i < self.balances.len()
            invariant
                i <= self.balances.len(),
                self.inv(),
                forall|k: int| 0 <= k < i ==> (#[trigger] self.balances@[k]).id@ != id@,
            decreases self.balances.len() - i,
        {
            if same(self.balances[i].id.as_str(), id) {
                proof {
                    lemma_balance(self.balances@, i as int);
                }
                return Some(i);
            }
            i = i + 1;
        }
        proof {
            lemma_no_balance(self.balances@, id@);
        }
        None
    }

    fn write_balance(&mut self, id: &str, amount: i128)
        requires
            old(self).inv(),
        ensures
            final(self).inv(),
            final(self)@ == old(self)@.with_balance(id@, amount as int),
    {
        let ghost before = self.balances@;
        match self.find_balance(id) {
            Some(i) => {
                self.balances[i].amount = amount;
                proof {
                    lemma_set_balance(before, self.balances@, i as int);
                }
            },
            None => {
                self.balances.push(BalanceRow { id: id.to_owned(), amount });
                proof {
                    assert(self.balances@.drop_last() =~= before);
                    assert(distinct_balances(self.balances@)) by {
                        assert forall|a: int, b: int|
                            0 <= a < self.balances@.len() && 0 <= b < self.balances@.len() && (
                            #[trigger] self.balances@[a]).id@ == (
                            #[trigger] self.balances@[b]).id@ implies a == b by {
                            if a < before.len() {
                                assert(self.balances@[a] == before[a]);
                            }
                            if b < before.len() {
                                assert(self.balances@[b] == before[b]);
                            }
                        }
                    }
                }
            },
        }
    }

    fn find_allowance(&self, from: &str, spender: &str) -> (r: Option<usize>)
        requires
            self.inv(),
        ensures
            match r {
                Some(i) => i < self.allowances@.len() && key_of(self.allowances@[i as int].key) == (
                    from@,
                    spender@,
                ) && self@.allowances.dom().contains((from@, spender@)) && self@.allowances[(
                    from@,
                    spender@,
                )] == self.allowances@[i as int].value,
                None => !self@.allowances.dom().contains((from@, spender@)) && forall|k: int|
                    0 <= k < self.allowances@.len() ==> key_of(
                        (#[trigger] self.allowances@[k]).key,
                    ) != (from@, spender@),
            },
    {
        let mut i: usize = 0;
        while i < self.allowances.len()
            invariant
                i <= self.allowances.len(),
                self.inv(),
                forall|k: int|
                    0 <= k < i ==> key_of((#[trigger] self.allowances@[k]).key) != (from@, spender@),
            decreases self.allowances.len() - i,
        {
            if same(self.allowances[i].key.from.as_str(), from) && same(
                self.allowances[i].key.spender.as_str(),
                spender,
            ) {
                proof {
                    lemma_allowance(self.allowances@, i as int);
                }
                return Some(i);
            }
            i = i + 1;
        }
        proof {
            lemma_no_allowance(self.allowances@, (from@, spender@));
        }
        None
    }

    fn write_allowance(&mut self, from: &str, spender: &str, value: AllowanceValue)
        requires
            old(self).inv(),
        ensures
            final(self).inv(),
            final(self)@ == old(self)@.approved(from@, spender@, value),
    {
        let ghost before = self.allowances@;
        match self.find_allowance(from, spender) {
            Some(i) => {
                self.allowances[i].value = value;
                proof {
                    lemma_set_allowance(before, self.allowances@, i as int);
                }
            },
            None => {
                self.allowances.push(
                    AllowanceRow {
                        key: AllowanceDataKey {
                            from: from.to_owned(),
                            spender: spender.to_owned(),
                        },
                        value,
                    },
                );
                proof {
                    assert(self.allowances@.drop_last() =~= before);
                    assert(distinct_allowances(self.allowances@)) by {
                        assert forall|a: int, b: int|
                            0 <= a < self.allowances@.len() && 0 <= b < self.allowances@.len()
                                && key_of((#[trigger] self.allowances@[a]).key) == key_of(
                                (#[trigger] self.allowances@[b]).key,
                            ) implies a == b by {
                            if a < before.len() {
                                assert(self.allowances@[a] == before[a]);
                            }
                            if b < before.len() {
                                assert(self.allowances@[b] == before[b]);
                            }
                        }
                    }
                }
            },
        }
    }

    fn read_allowance(&self, from: &str, spender: &str) -> (r: AllowanceValue)
        requires
            self.inv(),
        ensures
            r == self@.allowance(from@, spender@),
    {
        match self.find_allowance(from, spender) {
            Some(i) => self.allowances[i].value,
            None => AllowanceValue { amount: 0, expiration_ledger: 0 },
        }
    }

    fn spend_allowance(&mut self, from: &str, spender: &str, amount: i128)
        requires
            old(self).inv(),
            0 <= amount <= old(self)@.allowance(from@, spender@).amount,
        ensures
            final(self).inv(),
            final(self)@ == old(self)@.spent(from@, spender@, amount),
    {
        let allowance = self.read_allowance(from, spender);
        if amount > 0 {
            self.write_allowance(
                from,
                spender,
                AllowanceValue {
                    amount: allowance.amount - amount,
                    expiration_ledger: allowance.expiration_ledger,
                },
            );
        }
    }

    fn move_tokens(&mut self, from: &str, to: &str, amount: i128)
        requires
            old(self).inv(),
            old(self)@.wf(),
            old(self)@.can_transfer(from@, to@, amount),
        ensures
            final(self).inv(),
            final(self)@.wf(),
            final(self)@ == old(self)@.transferred(from@, to@, amount),
    {
        proof {
            transfers_conserve_tokens(self@, from@, to@, amount, from@);
        }
        let from_balance: i128 = self.balance(from);
        self.write_balance(from, from_balance - amount);
        let to_balance: i128 = self.balance(to);
        self.write_balance(to, to_balance + amount);
    }

    /// Whether the token was initialized.
    pub fn is_initialized(&self) -> (r: bool)
        ensures
            r == (self@.metadata is Some),
    {
        self.metadata.is_some()
    }

    /// Sets the administrator and how the token is shown. It can be done once.
    pub fn initialize(&mut self, admin: &str, decimal: u32, name: &str, symbol: &str)
        requires
            old(self).inv(),
            old(self)@.wf(),
            old(self)@.metadata is None,
        ensures
            final(self).inv(),
            final(self)@.wf(),
            final(self)@ == (TokenView {
                metadata: Some(
                    MetadataView {
                        admin: admin@,
                        decimals: decimal,
                        name: name@,
                        symbol: symbol@,
                    },
                ),
                ..old(self)@
            }),
    {
        self.metadata = Some(
            Metadata {
                admin: admin.to_owned(),
                decimals: decimal,
                name: name.to_owned(),
                symbol: symbol.to_owned(),
            },
        );
    }

    /// Makes tokens for a holder, by the authority of the administrator. What is published is
    /// returned.
    pub fn mint(&mut self, to: &str, amount: i128) -> (r: TokenNotice)
        requires
            old(self).inv(),
            old(self)@.wf(),
            old(self)@.metadata is Some,
            amount >= 0,
            old(self)@.balance(to@) + amount <= i128::MAX,
        ensures
            final(self).inv(),
            final(self)@.wf(),
            final(self)@ == old(self)@.minted(to@, amount),
            r@ == (TokenNoticeView::Mint {
                admin: old(self)@.metadata->0.admin,
                to: to@,
                amount,
            }),
    {
        proof {
            mint_and_burn_change_the_supply(self@, to@, amount, to@);
        }
        let balance: i128 = self.balance(to);
        self.write_balance(to, balance + amount);
        TokenNotice::Mint { admin: self.admin(), to: to.to_owned(), amount }
    }

    /// Hands the administration over, by the authority of the administrator.
    pub fn set_admin(&mut self, new_admin: &str)
        requires
            old(self).inv(),
            old(self)@.wf(),
            old(self)@.metadata is Some,
        ensures
            final(self).inv(),
            final(self)@.wf(),
            final(self)@ == (TokenView {
                metadata: Some(
                    MetadataView { admin: new_admin@, ..old(self)@.metadata->0 },
                ),
                ..old(self)@
            }),
    {
        let old_metadata = self.metadata.take();
        if let Some(m) = old_metadata {
            self.metadata = Some(
                Metadata {
                    admin: new_admin.to_owned(),
                    decimals: m.decimals,
                    name: m.name,
                    symbol: m.symbol,
                },
            );
        }
    }

    /// The administrator.
    pub fn admin(&self) -> (r: String)
        requires
            self@.metadata is Some,
        ensures
            r@ == self@.metadata->0.admin,
    {
        match &self.metadata {
            Some(m) => m.admin.clone(),
            None => vstd::pervasive::unreached(),
        }
    }

    /// How much a spender may move of a holder's tokens. The ledger that was given for the end of
    /// the permission is not looked at.
    pub fn allowance(&self, from: &str, spender: &str) -> (r: i128)
        requires
            self.inv(),
        ensures
            r == self@.allowance(from@, spender@).amount,
    {
        self.read_allowance(from, spender).amount
    }

    /// Allows a spender to move a holder's tokens, by the authority of the holder. It takes the
    /// place of what was allowed before.
    pub fn approve(&mut self, from: &str, spender: &str, amount: i128, expiration_ledger: u32) -> (r:
        TokenNotice)
        requires
            old(self).inv(),
            old(self)@.wf(),
            amount >= 0,
        ensures
            final(self).inv(),
            final(self)@.wf(),
            final(self)@ == old(self)@.approved(
                from@,
                spender@,
                AllowanceValue { amount, expiration_ledger },
            ),
            r@ == (TokenNoticeView::Approve {
                from: from@,
                spender: spender@,
                amount,
                expiration_ledger,
            }),
    {
        self.write_allowance(from, spender, AllowanceValue { amount, expiration_ledger });
        TokenNotice::Approve {
            from: from.to_owned(),
            spender: spender.to_owned(),
            amount,
            expiration_ledger,
        }
    }

    /// The balance of a holder.
    pub fn balance(&self, id: &str) -> (r: i128)
        requires
            self.inv(),
        ensures
            r == self@.balance(id@),
    {
        match self.find_balance(id) {
            Some(i) => self.balances[i].amount,
            None => 0,
        }
    }

    /// Whether a transfer can take place.
    pub fn can_transfer(&self, from: &str, to: &str, amount: i128) -> (r: bool)
        requires
            self.inv(),
        ensures
            r == self@.can_transfer(from@, to@, amount),
    {
        if amount < 0 || self.balance(from) < amount {
            return false;
        }
        same(from, to) || self.balance(to) <= i128::MAX - amount
    }

    /// Moves tokens, by the authority of the holder.
    pub fn transfer(&mut self, from: &str, to: &str, amount: i128) -> (r: TokenNotice)
        requires
            old(self).inv(),
            old(self)@.wf(),
            old(self)@.can_transfer(from@, to@, amount),
        ensures
            final(self).inv(),
            final(self)@.wf(),
            final(self)@ == old(self)@.transferred(from@, to@, amount),
            r@ == (TokenNoticeView::Transfer { from: from@, to: to@, amount }),
    {
        self.move_tokens(from, to, amount);
        TokenNotice::Transfer { from: from.to_owned(), to: to.to_owned(), amount }
    }

    /// Moves tokens out of an allowance, by the authority of the spender.
    pub fn transfer_from(&mut self, spender: &str, from: &str, to: &str, amount: i128) -> (r:
        TokenNotice)
        requires
            old(self).inv(),
            old(self)@.wf(),
            amount <= old(self)@.allowance(from@, spender@).amount,
            old(self)@.can_transfer(from@, to@, amount),
        ensures
            final(self).inv(),
            final(self)@.wf(),
            final(self)@ == old(self)@.spent(from@, spender@, amount).transferred(
                from@,
                to@,
                amount,
            ),
            r@ == (TokenNoticeView::Transfer { from: from@, to: to@, amount }),
    {
        self.spend_allowance(from, spender, amount);
        self.move_tokens(from, to, amount);
        TokenNotice::Transfer { from: from.to_owned(), to: to.to_owned(), amount }
    }

    /// Destroys tokens, by the authority of the holder.
    pub fn burn(&mut self, from: &str, amount: i128) -> (r: TokenNotice)
        requires
            old(self).inv(),
            old(self)@.wf(),
            0 <= amount <= old(self)@.balance(from@),
        ensures
            final(self).inv(),
            final(self)@.wf(),
            final(self)@ == old(self)@.burned(from@, amount),
            r@ == (TokenNoticeView::Burn { from: from@, amount }),
    {
        proof {
            mint_and_burn_change_the_supply(self@, from@, amount, from@);
        }
        let balance: i128 = self.balance(from);
        self.write_balance(from, balance - amount);
        TokenNotice::Burn { from: from.to_owned(), amount }
    }

    /// Destroys tokens out of an allowance, by the authority of the spender.
    pub fn burn_from(&mut self, spender: &str, from: &str, amount: i128) -> (r: TokenNotice)
        requires
            old(self).inv(),
            old(self)@.wf(),
            0 <= amount <= old(self)@.allowance(from@, spender@).amount,
            amount <= old(self)@.balance(from@),
        ensures
            final(self).inv(),
            final(self)@.wf(),
            final(self)@ == old(self)@.spent(from@, spender@, amount).burned(from@, amount),
            r@ == (TokenNoticeView::Burn { from: from@, amount }),
    {
        self.spend_allowance(from, spender, amount);
        self.burn(from, amount)
    }

    /// The number of decimals with which amounts are shown.
    pub fn decimals(&self) -> (r: u32)
        requires
            self@.metadata is Some,
        ensures
            r == self@.metadata->0.decimals,
    {
        match &self.metadata {
            Some(m) => m.decimals,
            None => vstd::pervasive::unreached(),
        }
    }

    /// The name of the token.
    pub fn name(&self) -> (r: String)
        requires
            self@.metadata is Some,
        ensures
            r@ == self@.metadata->0.name,
    {
        match &self.metadata {
            Some(m) => m.name.clone(),
            None => vstd::pervasive::unreached(),
        }
    }

    /// The symbol of the token.
    pub fn symbol(&self) -> (r: String)
        requires
            self@.metadata is Some,
        ensures
            r@ == self@.metadata->0.symbol,
    {
        match &self.metadata {
            Some(m) => m.symbol.clone(),
            None => vstd::pervasive::unreached(),
        }
    }
}

/// An approval sets what one spender may move of one holder's tokens, in place of what was allowed
/// before, and changes nothing else.
pub proof fn approvals_set_one_allowance(
    t: TokenView,
    from: Seq<char>,
    spender: Seq<char>,
    value: AllowanceValue,
    other_from: Seq<char>,
    other_spender: Seq<char>,
)
    ensures
        t.approved(from, spender, value).allowance(from, spender) == value,
        other_from != from || other_spender != spender ==> t.approved(
            from,
            spender,
            value,
        ).allowance(other_from, other_spender) == t.allowance(other_from, other_spender),
        t.approved(from, spender, value).balances == t.balances,
        t.approved(from, spender, value).metadata == t.metadata,
{
}

/// Nobody's balance is missing and nobody may move tokens without approval: both are zero.
pub proof fn what_was_never_set_is_zero(t: TokenView, id: Seq<char>, spender: Seq<char>)
    ensures
        !t.balances.dom().contains(id) ==> t.balance(id) == 0,
        t.balances.dom().contains(id) ==> t.balance(id) == t.balances[id],
        !t.allowances.dom().contains((id, spender)) ==> t.allowance(id, spender).amount == 0,
        t.allowances.dom().contains((id, spender)) ==> t.allowance(id, spender) == t.allowances[(
            id,
            spender,
        )],
{
}

/// A transfer can take place up to the whole balance of the holder, and up to the largest balance
/// of whoever gets it; to oneself only the former counts.
pub proof fn transfers_need_the_balance(t: TokenView, from: Seq<char>, to: Seq<char>, amount: i128)
    ensures
        amount < 0 ==> !t.can_transfer(from, to, amount),
        amount > t.balance(from) ==> !t.can_transfer(from, to, amount),
        t.balance(from) >= 0 && from == to ==> t.can_transfer(from, to, t.balance(from)),
        from != to && t.balance(to) + amount > i128::MAX ==> !t.can_transfer(from, to, amount),
        0 <= amount <= t.balance(from) && t.balance(to) + amount <= i128::MAX ==> t.can_transfer(
            from,
            to,
            amount,
        ),
{
}

/// Using nothing of an allowance writes nothing, and what is used keeps the ledger that was given
/// for the end of it.
pub proof fn spending_keeps_the_expiration(
    t: TokenView,
    from: Seq<char>,
    spender: Seq<char>,
    amount: i128,
)
    requires
        0 <= amount <= t.allowance(from, spender).amount,
    ensures
        t.spent(from, spender, 0) == t,
        t.spent(from, spender, amount).allowance(from, spender).expiration_ledger == t.allowance(
            from,
            spender,
        ).expiration_ledger,
        t.spent(from, spender, amount).metadata == t.metadata,
{
}

/// What a token publishes is seen with each field in its own place.
pub proof fn notices_show_their_fields(n: TokenNotice)
    ensures
        n matches TokenNotice::Mint { admin, to, amount } ==> n@ == (TokenNoticeView::Mint {
            admin: admin@,
            to: to@,
            amount,
        }),
        n matches TokenNotice::Approve { from, spender, amount, expiration_ledger } ==> n@ == (
        TokenNoticeView::Approve { from: from@, spender: spender@, amount, expiration_ledger }),
        n matches TokenNotice::Transfer { from, to, amount } ==> n@ == (TokenNoticeView::Transfer {
            from: from@,
            to: to@,
            amount,
        }),
        n matches TokenNotice::Burn { from, amount } ==> n@ == (TokenNoticeView::Burn {
            from: from@,
            amount,
        }),
{
}

/// A token that was initialized says of itself what it was given then.
pub proof fn tokens_say_what_they_were_given(
    t: &mut Token,
    admin: &str,
    decimals: u32,
    name: &str,
    symbol: &str,
    after: Token,
    says: (String, u32, String, String),
)
    requires
        call_ensures(Token::initialize, (t, admin, decimals, name, symbol), ()),
        after@ == final(t)@,
        call_ensures(Token::admin, (&after,), says.0),
        call_ensures(Token::decimals, (&after,), says.1),
        call_ensures(Token::name, (&after,), says.2),
        call_ensures(Token::symbol, (&after,), says.3),
    ensures
        says.0@ == admin@,
        says.1 == decimals,
        says.2@ == name@,
        says.3@ == symbol@,
        final(t)@.balances == old(t)@.balances,
        final(t)@.allowances == old(t)@.allowances,
{
}

/// A mint gives the amount to whom it names and says who administers the token; handing the
/// administration over changes nothing else.
pub proof fn mints_reach_whom_they_name(
    t: &mut Token,
    to: &str,
    amount: i128,
    r: TokenNotice,
    u: &mut Token,
    new_admin: &str,
)
    requires
        call_ensures(Token::mint, (t, to, amount), r),
        old(t)@.metadata is Some,
        old(t)@.balance(to@) + amount <= i128::MAX,
        amount >= 0,
        old(t)@.balance(to@) >= 0,
        call_ensures(Token::set_admin, (u, new_admin), ()),
        old(u)@.metadata is Some,
    ensures
        final(t)@.balance(to@) == old(t)@.balance(to@) + amount,
        final(t)@.metadata == old(t)@.metadata,
        r is Mint && r->Mint_to@ == to@ && r->Mint_amount == amount && r->Mint_admin@
            == old(t)@.metadata->0.admin,
        final(u)@.metadata is Some && final(u)@.metadata->0.admin == new_admin@,
        final(u)@.metadata->0.name == old(u)@.metadata->0.name,
        final(u)@.metadata->0.symbol == old(u)@.metadata->0.symbol,
        final(u)@.metadata->0.decimals == old(u)@.metadata->0.decimals,
        final(u)@.balances == old(u)@.balances,
{
}

/// An approval is for the spender to move the holder's tokens, and is published so.
pub proof fn approvals_are_for_the_spender(
    t: &mut Token,
    from: &str,
    spender: &str,
    amount: i128,
    expiration: u32,
    r: TokenNotice,
)
    requires
        call_ensures(Token::approve, (t, from, spender, amount, expiration), r),
    ensures
        final(t)@.allowance(from@, spender@).amount == amount,
        final(t)@.allowance(from@, spender@).expiration_ledger == expiration,
        from@ != spender@ ==> final(t)@.allowance(spender@, from@) == old(t)@.allowance(
            spender@,
            from@,
        ),
        final(t)@.balances == old(t)@.balances,
        r is Approve && r->Approve_from@ == from@ && r->spender@ == spender@ && r->Approve_amount
            == amount && r->expiration_ledger == expiration,
{
}

/// A transfer takes from the source and gives to the destination; one out of an allowance takes
/// from that too, as far as it was used. Both are published with source and destination.
pub proof fn transfers_go_from_source_to_destination(
    t: &mut Token,
    u: &mut Token,
    spender: &str,
    from: &str,
    to: &str,
    amount: i128,
    direct: TokenNotice,
    allowed: TokenNotice,
)
    requires
        call_ensures(Token::transfer, (t, from, to, amount), direct),
        call_ensures(Token::transfer_from, (u, spender, from, to, amount), allowed),
        old(t)@.wf(),
        old(t)@.can_transfer(from@, to@, amount),
        old(u)@.wf(),
        old(u)@.can_transfer(from@, to@, amount),
        amount <= old(u)@.allowance(from@, spender@).amount,
        from@ != to@,
    ensures
        final(t)@.balance(from@) == old(t)@.balance(from@) - amount,
        final(t)@.balance(to@) == old(t)@.balance(to@) + amount,
        final(t)@.allowances == old(t)@.allowances,
        final(u)@.balance(from@) == old(u)@.balance(from@) - amount,
        final(u)@.balance(to@) == old(u)@.balance(to@) + amount,
        final(u)@.allowance(from@, spender@).amount == old(u)@.allowance(from@, spender@).amount
            - amount,
        direct is Transfer && direct->Transfer_from@ == from@ && direct->Transfer_to@ == to@
            && direct->Transfer_amount == amount,
        allowed is Transfer && allowed->Transfer_from@ == from@ && allowed->Transfer_to@ == to@
            && allowed->Transfer_amount == amount,
{
    transfers_conserve_tokens(old(t)@, from@, to@, amount, from@);
    allowances_are_spent_once(old(u)@, from@, spender@, amount, from@, spender@);
    let spent = old(u)@.spent(from@, spender@, amount);
    transfers_conserve_tokens(spent, from@, to@, amount, from@);
}

/// A burn takes from its holder, and one out of an allowance from that too.
pub proof fn burns_take_from_the_holder(
    t: &mut Token,
    u: &mut Token,
    spender: &str,
    from: &str,
    amount: i128,
    direct: TokenNotice,
    allowed: TokenNotice,
)
    requires
        call_ensures(Token::burn, (t, from, amount), direct),
        call_ensures(Token::burn_from, (u, spender, from, amount), allowed),
        0 <= amount <= old(t)@.balance(from@),
        0 <= amount <= old(u)@.balance(from@),
        amount <= old(u)@.allowance(from@, spender@).amount,
    ensures
        final(t)@.balance(from@) == old(t)@.balance(from@) - amount,
        final(t)@.allowances == old(t)@.allowances,
        final(u)@.balance(from@) == old(u)@.balance(from@) - amount,
        final(u)@.allowance(from@, spender@).amount == old(u)@.allowance(from@, spender@).amount
            - amount,
        direct is Burn && direct->Burn_from@ == from@ && direct->Burn_amount == amount,
        allowed is Burn && allowed->Burn_from@ == from@ && allowed->Burn_amount == amount,
{
    allowances_are_spent_once(old(u)@, from@, spender@, amount, from@, spender@);
}

} // verus!
