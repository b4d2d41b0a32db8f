//! A model of the collaborating ledger: native balances, mints, token
//! accounts, and the atomic application of a handler's sub-calls.
//!
//! The real runtime executes a handler's sub-calls as one transaction and
//! rolls every earlier effect back when a later one fails. This module
//! gives that collaborator an executable, verified stand-in: `apply` gives
//! each sub-call kind the success condition and the exact effect the
//! collaborating programs document, and `apply_all` commits a whole list
//! of sub-calls or — on the first failure — leaves the ledger untouched.
//!
//! The model is deliberately account-shaped but minimal: it keeps each
//! mint's configured authority, each token account's mint, owner and
//! amount, and each native balance; it does not model storage contents,
//! storage fees over time, or mint supply.

use vstd::prelude::*;
use vstd::pervasive::VecAdditionalExecFns;
use crate::bytes::{bytes_eq, copy_bytes};
use crate::error::LedgerError;
use crate::processor::{invocations_view, spec_exchange, Invocation, InvocationModel,
    PRICE_LAMPORTS, TOKEN_AMOUNT};

verus! {

/// A finite map written as a sequence of key/value entries; later entries
/// win, though the ledger's invariant keeps keys unique.
pub open spec fn assoc_map<V>(s: Seq<(Seq<u8>, V)>) -> Map<Seq<u8>, V>
    decreases s.len(),
{
    if s.len() == 0 {
        Map::empty()
    } else {
        assoc_map(s.drop_last()).insert(s.last().0, s.last().1)
    }
}

/// No two entries share a key.
pub open spec fn unique_keys<V>(s: Seq<(Seq<u8>, V)>) -> bool {
    forall|i: int, j: int| 0 <= i < j < s.len()
        ==> (#[trigger] s[i]).0 != (#[trigger] s[j]).0
}

/// With unique keys, the entry list and the map agree pointwise.
pub proof fn lemma_assoc_map_props<V>(s: Seq<(Seq<u8>, V)>)
    requires
        unique_keys(s),
    ensures
        forall|k: Seq<u8>| #[trigger] assoc_map(s).contains_key(k)
            <==> exists|i: int| 0 <= i < s.len() && (#[trigger] s[i]).0 == k,
        forall|i: int| 0 <= i < s.len()
            ==> assoc_map(s).contains_key((#[trigger] s[i]).0)
                && assoc_map(s)[s[i].0] == s[i].1,
    decreases s.len(),
{
    if s.len() > 0 {
        lemma_assoc_map_props(s.drop_last());
        assert forall|k: Seq<u8>| #[trigger] assoc_map(s).contains_key(k)
            implies exists|i: int| 0 <= i < s.len() && (#[trigger] s[i]).0 == k by {
            if s.last().0 == k {
                assert(s[s.len() - 1].0 == k);
            } else {
                assert(assoc_map(s) == assoc_map(s.drop_last()).insert(s.last().0, s.last().1));
                assert(assoc_map(s.drop_last()).contains_key(k));
                let i = choose|i: int| 0 <= i < s.drop_last().len()
                    && (#[trigger] s.drop_last()[i]).0 == k;
                assert(s.drop_last()[i] == s[i]);
                assert(s[i].0 == k);
            }
        }
        assert forall|k: Seq<u8>|
            exists|i: int| 0 <= i < s.len() && (#[trigger] s[i]).0 == k
            implies #[trigger] assoc_map(s).contains_key(k) by {
            let i = choose|i: int| 0 <= i < s.len() && (#[trigger] s[i]).0 == k;
            if i < s.len() - 1 {
                assert(s.drop_last()[i].0 == k);
            }
        }
        assert forall|i: int| 0 <= i < s.len()
            implies assoc_map(s).contains_key((#[trigger] s[i]).0)
                && assoc_map(s)[s[i].0] == s[i].1 by {
            if i < s.len() - 1 {
                assert(s.drop_last()[i] == s[i]);
                assert(s[i].0 != s.last().0);
            }
        }
    }
}

/// Updating one entry's value updates exactly that key in the map.
pub proof fn lemma_assoc_map_update<V>(s: Seq<(Seq<u8>, V)>, i: int, v: V)
    requires
        unique_keys(s),
        0 <= i < s.len(),
    ensures
        unique_keys(s.update(i, (s[i].0, v))),
        assoc_map(s.update(i, (s[i].0, v))) == assoc_map(s).insert(s[i].0, v),
{
    let s2 = s.update(i, (s[i].0, v));
    assert(forall|j: int| 0 <= j < s.len() ==> (#[trigger] s2[j]).0 == s[j].0);
    lemma_assoc_map_props(s);
    lemma_assoc_map_props(s2);
    let m2 = assoc_map(s2);
    let target = assoc_map(s).insert(s[i].0, v);
    assert forall|k: Seq<u8>| m2.contains_key(k) implies target.contains_key(k) by {
        let j = choose|j: int| 0 <= j < s2.len() && (#[trigger] s2[j]).0 == k;
        assert(s[j].0 == k);
    }
    assert forall|k: Seq<u8>| target.contains_key(k) implies m2.contains_key(k) by {
        if k == s[i].0 {
            assert(s2[i].0 == k);
        } else {
            let j = choose|j: int| 0 <= j < s.len() && (#[trigger] s[j]).0 == k;
            assert(s2[j].0 == k);
        }
    }
    assert forall|k: Seq<u8>| m2.contains_key(k) implies m2[k] == target[k] by {
        let j = choose|j: int| 0 <= j < s2.len() && (#[trigger] s2[j]).0 == k;
        if j == i {
            assert(m2[k] == v);
        } else {
            assert(s[j].0 == k);
            assert(s[j].0 != s[i].0);
            assert(m2[k] == s2[j].1);
            assert(s2[j].1 == s[j].1);
        }
    }
    assert(m2 =~= target);
}

/// Appending an entry with a fresh key inserts exactly that key.
pub proof fn lemma_assoc_map_push<V>(s: Seq<(Seq<u8>, V)>, k: Seq<u8>, v: V)
    requires
        unique_keys(s),
        forall|i: int| 0 <= i < s.len() ==> (#[trigger] s[i]).0 != k,
    ensures
        unique_keys(s.push((k, v))),
        assoc_map(s.push((k, v))) == assoc_map(s).insert(k, v),
{
    let s2 = s.push((k, v));
    assert forall|i: int, j: int| 0 <= i < j < s2.len()
        implies (#[trigger] s2[i]).0 != (#[trigger] s2[j]).0 by {
        if j == s2.len() - 1 {
            assert(s2[i] == s[i]);
        } else {
            assert(s2[i] == s[i]);
            assert(s2[j] == s[j]);
        }
    }
    assert(s2.drop_last() =~= s);
    assert(s2.last() == (k, v));
}

/// With unique keys, two entries sharing a key are the same entry.
proof fn lemma_unique_key_index<V>(s: Seq<(Seq<u8>, V)>, i: int, j: int)
    requires
        unique_keys(s),
        0 <= i < s.len(),
        0 <= j < s.len(),
        s[i].0 == s[j].0,
    ensures
        i == j,
{
    if i < j {
        assert(s[i].0 != s[j].0);
    } else if j < i {
        assert(s[j].0 != s[i].0);
    }
}

/// Model of one token account: its mint, its owner, and its amount.
#[verifier::ext_equal]
pub struct TokenModel {
    pub mint: Seq<u8>,
    pub owner: Seq<u8>,
    pub amount: u64,
}

/// A native-balance entry.
#[derive(Debug, Clone, PartialEq, Eq)]
pub struct BalanceRec {
    pub key: Vec<u8>,
    pub lamports: u64,
}

impl View for BalanceRec {
    type V = (Seq<u8>, u64);

    open spec fn view(&self) -> (Seq<u8>, u64) {
        (self.key@, self.lamports)
    }
}

/// A mint entry: the mint's address and its configured authority.
#[derive(Debug, Clone, PartialEq, Eq)]
pub struct MintRec {
    pub key: Vec<u8>,
    pub authority: Vec<u8>,
}

impl View for MintRec {
    type V = (Seq<u8>, Seq<u8>);

    open spec fn view(&self) -> (Seq<u8>, Seq<u8>) {
        (self.key@, self.authority@)
    }
}

/// A token-account entry.
#[derive(Debug, Clone, PartialEq, Eq)]
pub struct TokenRec {
    pub key: Vec<u8>,
    pub mint: Vec<u8>,
    pub owner: Vec<u8>,
    pub amount: u64,
}

impl View for TokenRec {
    type V = (Seq<u8>, TokenModel);

    open spec fn view(&self) -> (Seq<u8>, TokenModel) {
        (self.key@, TokenModel { mint: self.mint@, owner: self.owner@, amount: self.amount })
    }
}

/// The entry list as key/value pairs.
pub open spec fn balances_entries(s: Seq<BalanceRec>) -> Seq<(Seq<u8>, u64)> {
    s.map_values(|r: BalanceRec| r@)
}

/// The entry list as key/value pairs.
pub open spec fn mints_entries(s: Seq<MintRec>) -> Seq<(Seq<u8>, Seq<u8>)> {
    s.map_values(|r: MintRec| r@)
}

/// The entry list as key/value pairs.
pub open spec fn tokens_entries(s: Seq<TokenRec>) -> Seq<(Seq<u8>, TokenModel)> {
    s.map_values(|r: TokenRec| r@)
}

/// Mathematical model of the ledger: three finite maps keyed by address.
#[verifier::ext_equal]
pub struct LedgerModel {
    pub balances: Map<Seq<u8>, u64>,
    pub mints: Map<Seq<u8>, Seq<u8>>,
    pub tokens: Map<Seq<u8>, TokenModel>,
}

/// The ledger stand-in: native balances, mints, and token accounts.
#[derive(Debug, Clone, PartialEq, Eq)]
pub struct Ledger {
    pub balances: Vec<BalanceRec>,
    pub mints: Vec<MintRec>,
    pub tokens: Vec<TokenRec>,
}

impl View for Ledger {
    type V = LedgerModel;

    open spec fn view(&self) -> LedgerModel {
        LedgerModel {
            balances: assoc_map(balances_entries(self.balances@)),
            mints: assoc_map(mints_entries(self.mints@)),
            tokens: assoc_map(tokens_entries(self.tokens@)),
        }
    }
}

impl Ledger {
    /// Each entry list keys every account at most once.
    pub open spec fn wf(self) -> bool {
        unique_keys(balances_entries(self.balances@))
            && unique_keys(mints_entries(self.mints@))
            && unique_keys(tokens_entries(self.tokens@))
    }
}

/// The address is known to the ledger in any of its three roles.
pub open spec fn spec_account_exists(l: LedgerModel, k: Seq<u8>) -> bool {
    l.balances.contains_key(k) || l.mints.contains_key(k) || l.tokens.contains_key(k)
}

/// What one sub-call does to the ledger, or why the collaborating program
/// rejects it. This is the authoritative semantics `apply` implements.
pub open spec fn spec_apply(l: LedgerModel, inv: InvocationModel)
    -> Result<LedgerModel, LedgerError>
{
    match inv {
        InvocationModel::CreateAccount { funder, new_account, lamports, space, owner } => {
            if spec_account_exists(l, new_account) {
                Err(LedgerError::AccountInUse)
            } else if !l.balances.contains_key(funder) || l.balances[funder] < lamports {
                Err(LedgerError::InsufficientFunds)
            } else {
                Ok(LedgerModel {
                    balances: l.balances
                        .insert(funder, (l.balances[funder] - lamports) as u64)
                        .insert(new_account, lamports),
                    ..l
                })
            }
        },
        InvocationModel::InitializeMint { mint, authority, decimals } => {
            if l.mints.contains_key(mint) {
                Err(LedgerError::MintAlreadyInitialized)
            } else {
                Ok(LedgerModel { mints: l.mints.insert(mint, authority), ..l })
            }
        },
        InvocationModel::Transfer { from, to, lamports } => {
            if !l.balances.contains_key(from) || l.balances[from] < lamports {
                Err(LedgerError::InsufficientFunds)
            } else {
                let debited = l.balances.insert(from, (l.balances[from] - lamports) as u64);
                let to_before: u64 = if debited.contains_key(to) { debited[to] } else { 0u64 };
                if to_before + lamports > u64::MAX {
                    Err(LedgerError::BalanceOverflow)
                } else {
                    Ok(LedgerModel {
                        balances: debited.insert(to, (to_before + lamports) as u64),
                        ..l
                    })
                }
            }
        },
        InvocationModel::MintTo { mint, destination, authority, amount, .. } => {
            if !l.mints.contains_key(mint) {
                Err(LedgerError::UnknownMint)
            } else if l.mints[mint] != authority {
                Err(LedgerError::AuthorityMismatch)
            } else if !l.tokens.contains_key(destination) {
                Err(LedgerError::UnknownTokenAccount)
            } else if l.tokens[destination].mint != mint {
                Err(LedgerError::MintMismatch)
            } else if l.tokens[destination].amount + amount > u64::MAX {
                Err(LedgerError::BalanceOverflow)
            } else {
                Ok(LedgerModel {
                    tokens: l.tokens.insert(destination, TokenModel {
                        amount: (l.tokens[destination].amount + amount) as u64,
                        ..l.tokens[destination]
                    }),
                    ..l
                })
            }
        },
        InvocationModel::Burn { token_account, mint, owner, amount } => {
            if !l.tokens.contains_key(token_account) {
                Err(LedgerError::UnknownTokenAccount)
            } else if l.tokens[token_account].mint != mint {
                Err(LedgerError::MintMismatch)
            } else if l.tokens[token_account].owner != owner {
                Err(LedgerError::OwnerMismatch)
            } else if l.tokens[token_account].amount < amount {
                Err(LedgerError::InsufficientTokens)
            } else {
                Ok(LedgerModel {
                    tokens: l.tokens.insert(token_account, TokenModel {
                        amount: (l.tokens[token_account].amount - amount) as u64,
                        ..l.tokens[token_account]
                    }),
                    ..l
                })
            }
        },
    }
}

/// What a whole list of sub-calls does: the sequential composition of
/// `spec_apply`, stopping at the first failure.
pub open spec fn spec_run(l: LedgerModel, invs: Seq<InvocationModel>)
    -> Result<LedgerModel, LedgerError>
    decreases invs.len(),
{
    if invs.len() == 0 {
        Ok(l)
    } else {
        match spec_apply(l, invs[0]) {
            Ok(l2) => spec_run(l2, invs.drop_first()),
            Err(e) => Err(e),
        }
    }
}

impl Ledger {
    /// An empty ledger.
    pub fn new() -> (r: Ledger)
        ensures
            r.wf(),
            r@.balances == Map::<Seq<u8>, u64>::empty(),
            r@.mints == Map::<Seq<u8>, Seq<u8>>::empty(),
            r@.tokens == Map::<Seq<u8>, TokenModel>::empty(),
    {
        let r = Ledger { balances: Vec::new(), mints: Vec::new(), tokens: Vec::new() };
        proof {
            assert(balances_entries(r.balances@) =~= Seq::<(Seq<u8>, u64)>::empty());
            assert(mints_entries(r.mints@) =~= Seq::<(Seq<u8>, Seq<u8>)>::empty());
            assert(tokens_entries(r.tokens@) =~= Seq::<(Seq<u8>, TokenModel)>::empty());
        }
        r
    }

    #[verifier::loop_isolation(false)]
    fn find_balance(&self, key: &Vec<u8>) -> (r: Option<usize>)
        requires
            self.wf(),
        ensures
            match r {
                Some(i) => i < self.balances@.len()
                    && self.balances@[i as int]@.0 == key@
                    && self@.balances.contains_key(key@)
                    && self@.balances[key@] == self.balances@[i as int]@.1,
                None => !self@.balances.contains_key(key@),
            },
    {
        proof {
            lemma_assoc_map_props(balances_entries(self.balances@));
        }
        let mut i: usize = 0;
        while i < self.balances.len()
            invariant
                i <= self.balances@.len(),
                forall|j: int| 0 <= j < i ==> (#[trigger] self.balances@[j])@.0 != key@,
            decreases self.balances@.len() - i,
        {
            if bytes_eq(&self.balances[i].key, key) {
                proof {
                    let s = balances_entries(self.balances@);
                    assert(s[i as int] == self.balances@[i as int]@);
                    assert(s[i as int].0 == key@);
                    assert(self@.balances.contains_key(key@));
                    assert(self@.balances[key@] == s[i as int].1);
                }
                return Some(i);
            }
            i = i + 1;
        }
        proof {
            assert forall|j: int| 0 <= j < self.balances@.len()
                implies (#[trigger] balances_entries(self.balances@)[j]).0 != key@ by {
                assert(balances_entries(self.balances@)[j] == self.balances@[j]@);
            }
        }
        None
    }

    #[verifier::loop_isolation(false)]
    fn find_mint(&self, key: &Vec<u8>) -> (r: Option<usize>)
        requires
            self.wf(),
        ensures
            match r {
                Some(i) => i < self.mints@.len()
                    && self.mints@[i as int]@.0 == key@
                    && self@.mints.contains_key(key@)
                    && self@.mints[key@] == self.mints@[i as int]@.1,
                None => !self@.mints.contains_key(key@),
            },
    {
        proof {
            lemma_assoc_map_props(mints_entries(self.mints@));
        }
        let mut i: usize = 0;
        while i < self.mints.len()
            invariant
                i <= self.mints@.len(),
                forall|j: int| 0 <= j < i ==> (#[trigger] self.mints@[j])@.0 != key@,
            decreases self.mints@.len() - i,
        {
            if bytes_eq(&self.mints[i].key, key) {
                proof {
                    let s = mints_entries(self.mints@);
                    assert(s[i as int] == self.mints@[i as int]@);
                    assert(s[i as int].0 == key@);
                    assert(self@.mints.contains_key(key@));
                    assert(self@.mints[key@] == s[i as int].1);
                }
                return Some(i);
            }
            i = i + 1;
        }
        proof {
            assert forall|j: int| 0 <= j < self.mints@.len()
                implies (#[trigger] mints_entries(self.mints@)[j]).0 != key@ by {
                assert(mints_entries(self.mints@)[j] == self.mints@[j]@);
            }
        }
        None
    }

    #[verifier::loop_isolation(false)]
    fn find_token(&self, key: &Vec<u8>) -> (r: Option<usize>)
        requires
            self.wf(),
        ensures
            match r {
                Some(i) => i < self.tokens@.len()
                    && self.tokens@[i as int]@.0 == key@
                    && self@.tokens.contains_key(key@)
                    && self@.tokens[key@] == self.tokens@[i as int]@.1,
                None => !self@.tokens.contains_key(key@),
            },
    {
        proof {
            lemma_assoc_map_props(tokens_entries(self.tokens@));
        }
        let mut i: usize = 0;
        while i < self.tokens.len()
            invariant
                i <= self.tokens@.len(),
                forall|j: int| 0 <= j < i ==> (#[trigger] self.tokens@[j])@.0 != key@,
            decreases self.tokens@.len() - i,
        {
            if bytes_eq(&self.tokens[i].key, key) {
                proof {
                    let s = tokens_entries(self.tokens@);
                    assert(s[i as int] == self.tokens@[i as int]@);
                    assert(s[i as int].0 == key@);
                    assert(self@.tokens.contains_key(key@));
                    assert(self@.tokens[key@] == s[i as int].1);
                }
                return Some(i);
            }
            i = i + 1;
        }
        proof {
            assert forall|j: int| 0 <= j < self.tokens@.len()
                implies (#[trigger] tokens_entries(self.tokens@)[j]).0 != key@ by {
                assert(tokens_entries(self.tokens@)[j] == self.tokens@[j]@);
            }
        }
        None
    }

    fn set_balance(&mut self, i: usize, lamports: u64)
        requires
            old(self).wf(),
            i < old(self).balances@.len(),
        ensures
            final(self).wf(),
            final(self)@.balances
                == old(self)@.balances.insert(old(self).balances@[i as int]@.0, lamports),
            final(self)@.mints == old(self)@.mints,
            final(self)@.tokens == old(self)@.tokens,
            final(self).balances@.len() == old(self).balances@.len(),
            forall|j: int| 0 <= j < old(self).balances@.len() && j != i
                ==> (#[trigger] final(self).balances@[j])@ == old(self).balances@[j]@,
            final(self).balances@[i as int]@.0 == old(self).balances@[i as int]@.0,
    {
        let key = copy_bytes(&self.balances[i].key);
        self.balances.set(i, BalanceRec { key, lamports });
        proof {
            let s = balances_entries(old(self).balances@);
            let s2 = balances_entries(self.balances@);
            assert(s2 =~= s.update(i as int, (s[i as int].0, lamports)));
            lemma_assoc_map_update(s, i as int, lamports);
        }
    }

    fn push_balance(&mut self, key: &Vec<u8>, lamports: u64)
        requires
            old(self).wf(),
            !old(self)@.balances.contains_key(key@),
        ensures
            final(self).wf(),
            final(self)@.balances == old(self)@.balances.insert(key@, lamports),
            final(self)@.mints == old(self)@.mints,
            final(self)@.tokens == old(self)@.tokens,
    {
        proof {
            lemma_assoc_map_props(balances_entries(old(self).balances@));
        }
        self.balances.push(BalanceRec { key: copy_bytes(key), lamports });
        proof {
            let s = balances_entries(old(self).balances@);
            let s2 = balances_entries(self.balances@);
            assert forall|j: int| 0 <= j < s.len() implies (#[trigger] s[j]).0 != key@ by {
                assert(old(self)@.balances.contains_key(s[j].0));
            }
            assert(s2 =~= s.push((key@, lamports)));
            lemma_assoc_map_push(s, key@, lamports);
        }
    }

    fn push_mint(&mut self, key: &Vec<u8>, authority: &Vec<u8>)
        requires
            old(self).wf(),
            !old(self)@.mints.contains_key(key@),
        ensures
            final(self).wf(),
            final(self)@.mints == old(self)@.mints.insert(key@, authority@),
            final(self)@.balances == old(self)@.balances,
            final(self)@.tokens == old(self)@.tokens,
    {
        proof {
            lemma_assoc_map_props(mints_entries(old(self).mints@));
        }
        self.mints.push(MintRec { key: copy_bytes(key), authority: copy_bytes(authority) });
        proof {
            let s = mints_entries(old(self).mints@);
            let s2 = mints_entries(self.mints@);
            assert forall|j: int| 0 <= j < s.len() implies (#[trigger] s[j]).0 != key@ by {
                assert(old(self)@.mints.contains_key(s[j].0));
            }
            assert(s2 =~= s.push((key@, authority@)));
            lemma_assoc_map_push(s, key@, authority@);
        }
    }

    fn set_token_amount(&mut self, i: usize, amount: u64)
        requires
            old(self).wf(),
            i < old(self).tokens@.len(),
        ensures
            final(self).wf(),
            final(self)@.tokens == old(self)@.tokens.insert(
                old(self).tokens@[i as int]@.0,
                (TokenModel { amount, ..old(self).tokens@[i as int]@.1 }),
            ),
            final(self)@.balances == old(self)@.balances,
            final(self)@.mints == old(self)@.mints,
    {
        let key = copy_bytes(&self.tokens[i].key);
        let mint = copy_bytes(&self.tokens[i].mint);
        let owner = copy_bytes(&self.tokens[i].owner);
        self.tokens.set(i, TokenRec { key, mint, owner, amount });
        proof {
            let s = tokens_entries(old(self).tokens@);
            let s2 = tokens_entries(self.tokens@);
            assert(s2 =~= s.update(
                i as int,
                (s[i as int].0, TokenModel { amount, ..s[i as int].1 }),
            ));
            lemma_assoc_map_update(s, i as int, TokenModel { amount, ..s[i as int].1 });
        }
    }

    /// Adds a funded native account to the ledger; false if the address
    /// is already in use.
    pub fn fund_account(&mut self, key: &Vec<u8>, lamports: u64) -> (r: bool)
        requires
            old(self).wf(),
        ensures
            final(self).wf(),
            r == !spec_account_exists(old(self)@, key@),
            r ==> final(self)@ == (LedgerModel {
                balances: old(self)@.balances.insert(key@, lamports),
                ..old(self)@
            }),
            !r ==> *final(self) == *old(self),
    {
        if self.find_balance(key).is_some()
            || self.find_mint(key).is_some()
            || self.find_token(key).is_some() {
            return false;
        }
        self.push_balance(key, lamports);
        proof {
            assert(self@ =~~= (LedgerModel {
                balances: old(self)@.balances.insert(key@, lamports),
                ..old(self)@
            }));
        }
        true
    }

    /// Adds a token account to the ledger; false if the address is
    /// already in use.
    pub fn add_token_account(
        &mut self,
        key: &Vec<u8>,
        mint: &Vec<u8>,
        owner: &Vec<u8>,
        amount: u64,
    ) -> (r: bool)
        requires
            old(self).wf(),
        ensures
            final(self).wf(),
            r == !spec_account_exists(old(self)@, key@),
            r ==> final(self)@ == (LedgerModel {
                tokens: old(self)@.tokens.insert(
                    key@,
                    (TokenModel { mint: mint@, owner: owner@, amount }),
                ),
                ..old(self)@
            }),
            !r ==> *final(self) == *old(self),
    {
        if self.find_balance(key).is_some()
            || self.find_mint(key).is_some()
            || self.find_token(key).is_some() {
            return false;
        }
        proof {
            lemma_assoc_map_props(tokens_entries(self.tokens@));
        }
        let rec = TokenRec {
            key: copy_bytes(key),
            mint: copy_bytes(mint),
            owner: copy_bytes(owner),
            amount,
        };
        self.tokens.push(rec);
        proof {
            let s = tokens_entries(old(self).tokens@);
            let s2 = tokens_entries(self.tokens@);
            assert forall|j: int| 0 <= j < s.len() implies (#[trigger] s[j]).0 != key@ by {
                assert(old(self)@.tokens.contains_key(s[j].0));
            }
            assert(s2 =~= s.push((key@, TokenModel { mint: mint@, owner: owner@, amount })));
            lemma_assoc_map_push(s, key@, TokenModel { mint: mint@, owner: owner@, amount });
            assert(self@ =~~= (LedgerModel {
                tokens: old(self)@.tokens.insert(
                    key@,
                    (TokenModel { mint: mint@, owner: owner@, amount }),
                ),
                ..old(self)@
            }));
        }
        true
    }

    /// The native balance of an address; 0 when the ledger has none.
    pub fn balance_of(&self, key: &Vec<u8>) -> (r: u64)
        requires
            self.wf(),
        ensures
            r == (if self@.balances.contains_key(key@) { self@.balances[key@] } else { 0u64 }),
    {
        match self.find_balance(key) {
            Some(i) => self.balances[i].lamports,
            None => 0,
        }
    }

    /// The token amount held by a token account; 0 when the ledger has none.
    pub fn token_amount_of(&self, key: &Vec<u8>) -> (r: u64)
        requires
            self.wf(),
        ensures
            r == (if self@.tokens.contains_key(key@) { self@.tokens[key@].amount } else { 0u64 }),
    {
        match self.find_token(key) {
            Some(i) => self.tokens[i].amount,
            None => 0,
        }
    }

    /// The configured authority of a mint, if the ledger knows the mint.
    pub fn mint_authority_of(&self, key: &Vec<u8>) -> (r: Option<Vec<u8>>)
        requires
            self.wf(),
        ensures
            match r {
                Some(a) => self@.mints.contains_key(key@) && self@.mints[key@] == a@,
                None => !self@.mints.contains_key(key@),
            },
    {
        match self.find_mint(key) {
            Some(i) => Some(copy_bytes(&self.mints[i].authority)),
            None => None,
        }
    }

    /// Applies one sub-call in place: exactly `spec_apply`, and on failure
    /// the ledger is left untouched.
    pub fn apply(&mut self, inv: &Invocation) -> (r: Result<(), LedgerError>)
        requires
            old(self).wf(),
        ensures
            final(self).wf(),
            match r {
                Ok(()) => spec_apply(old(self)@, inv@)
                    == Ok::<LedgerModel, LedgerError>(final(self)@),
                Err(e) => *final(self) == *old(self)
                    && spec_apply(old(self)@, inv@) == Err::<LedgerModel, LedgerError>(e),
            },
    {
        match inv {
            Invocation::CreateAccount { funder, new_account, lamports, space: _, owner: _ } => {
                if self.find_balance(new_account).is_some()
                    || self.find_mint(new_account).is_some()
                    || self.find_token(new_account).is_some() {
                    return Err(LedgerError::AccountInUse);
                }
                let fi = match self.find_balance(funder) {
                    Some(fi) => fi,
                    None => {
                        return Err(LedgerError::InsufficientFunds);
                    },
                };
                let funder_balance = self.balances[fi].lamports;
                if funder_balance < *lamports {
                    return Err(LedgerError::InsufficientFunds);
                }
                self.set_balance(fi, funder_balance - *lamports);
                self.push_balance(new_account, *lamports);
                proof {
                    assert(self@ =~~= spec_apply(old(self)@, inv@)->Ok_0);
                }
                Ok(())
            },
            Invocation::InitializeMint { mint, authority, decimals: _ } => {
                if self.find_mint(mint).is_some() {
                    return Err(LedgerError::MintAlreadyInitialized);
                }
                self.push_mint(mint, authority);
                proof {
                    assert(self@ =~~= spec_apply(old(self)@, inv@)->Ok_0);
                }
                Ok(())
            },
            Invocation::Transfer { from, to, lamports } => {
                let fi = match self.find_balance(from) {
                    Some(fi) => fi,
                    None => {
                        return Err(LedgerError::InsufficientFunds);
                    },
                };
                let from_balance = self.balances[fi].lamports;
                if from_balance < *lamports {
                    return Err(LedgerError::InsufficientFunds);
                }
                let debited_from: u64 = from_balance - *lamports;
                let to_idx = self.find_balance(to);
                proof {
                    let s = balances_entries(self.balances@);
                    match to_idx {
                        Some(ti) => {
                            assert(s[ti as int] == self.balances@[ti as int]@);
                            assert(s[fi as int] == self.balances@[fi as int]@);
                            if s[ti as int].0 == s[fi as int].0 {
                                lemma_unique_key_index(s, ti as int, fi as int);
                            }
                        },
                        None => {},
                    }
                }
                let to_before: u64 = match to_idx {
                    Some(ti) => if ti == fi { debited_from } else { self.balances[ti].lamports },
                    None => 0,
                };
                if to_before > u64::MAX - *lamports {
                    return Err(LedgerError::BalanceOverflow);
                }
                self.set_balance(fi, debited_from);
                match self.find_balance(to) {
                    Some(ti) => {
                        self.set_balance(ti, to_before + *lamports);
                    },
                    None => {
                        self.push_balance(to, to_before + *lamports);
                    },
                }
                proof {
                    assert(self@ =~~= spec_apply(old(self)@, inv@)->Ok_0);
                }
                Ok(())
            },
            Invocation::MintTo { mint, destination, authority, amount,
                authority_seed: _, authority_bump: _ } => {
                let mi = match self.find_mint(mint) {
                    Some(mi) => mi,
                    None => {
                        return Err(LedgerError::UnknownMint);
                    },
                };
                if !bytes_eq(&self.mints[mi].authority, authority) {
                    return Err(LedgerError::AuthorityMismatch);
                }
                let ti = match self.find_token(destination) {
                    Some(ti) => ti,
                    None => {
                        return Err(LedgerError::UnknownTokenAccount);
                    },
                };
                if !bytes_eq(&self.tokens[ti].mint, mint) {
                    return Err(LedgerError::MintMismatch);
                }
                let held = self.tokens[ti].amount;
                if held > u64::MAX - *amount {
                    return Err(LedgerError::BalanceOverflow);
                }
                self.set_token_amount(ti, held + *amount);
                proof {
                    assert(self@ =~~= spec_apply(old(self)@, inv@)->Ok_0);
                }
                Ok(())
            },
            Invocation::Burn { token_account, mint, owner, amount } => {
                let ti = match self.find_token(token_account) {
                    Some(ti) => ti,
                    None => {
                        return Err(LedgerError::UnknownTokenAccount);
                    },
                };
                if !bytes_eq(&self.tokens[ti].mint, mint) {
                    return Err(LedgerError::MintMismatch);
                }
                if !bytes_eq(&self.tokens[ti].owner, owner) {
                    return Err(LedgerError::OwnerMismatch);
                }
                let held = self.tokens[ti].amount;
                if held < *amount {
                    return Err(LedgerError::InsufficientTokens);
                }
                self.set_token_amount(ti, held - *amount);
                proof {
                    assert(self@ =~~= spec_apply(old(self)@, inv@)->Ok_0);
                }
                Ok(())
            },
        }
    }

    /// A fresh ledger with the same contents.
    pub fn duplicate(&self) -> (r: Ledger)
        ensures
            r@ == self@,
            balances_entries(r.balances@) == balances_entries(self.balances@),
            mints_entries(r.mints@) == mints_entries(self.mints@),
            tokens_entries(r.tokens@) == tokens_entries(self.tokens@),
            self.wf() ==> r.wf(),
    {
        let mut balances: Vec<BalanceRec> = Vec::new();
        let mut i: usize = 0;
        while i < self.balances.len()
            invariant
                i <= self.balances@.len(),
                balances@.len() == i,
                forall|j: int| 0 <= j < i
                    ==> (#[trigger] balances@[j])@ == self.balances@[j]@,
            decreases self.balances@.len() - i,
        {
            balances.push(BalanceRec {
                key: copy_bytes(&self.balances[i].key),
                lamports: self.balances[i].lamports,
            });
            i = i + 1;
        }
        let mut mints: Vec<MintRec> = Vec::new();
        let mut j: usize = 0;
        while j < self.mints.len()
            invariant
                j <= self.mints@.len(),
                mints@.len() == j,
                forall|k: int| 0 <= k < j ==> (#[trigger] mints@[k])@ == self.mints@[k]@,
            decreases self.mints@.len() - j,
        {
            mints.push(MintRec {
                key: copy_bytes(&self.mints[j].key),
                authority: copy_bytes(&self.mints[j].authority),
            });
            j = j + 1;
        }
        let mut tokens: Vec<TokenRec> = Vec::new();
        let mut k: usize = 0;
        while k < self.tokens.len()
            invariant
                k <= self.tokens@.len(),
                tokens@.len() == k,
                forall|m: int| 0 <= m < k ==> (#[trigger] tokens@[m])@ == self.tokens@[m]@,
            decreases self.tokens@.len() - k,
        {
            tokens.push(TokenRec {
                key: copy_bytes(&self.tokens[k].key),
                mint: copy_bytes(&self.tokens[k].mint),
                owner: copy_bytes(&self.tokens[k].owner),
                amount: self.tokens[k].amount,
            });
            k = k + 1;
        }
        let r = Ledger { balances, mints, tokens };
        proof {
            assert(balances_entries(r.balances@) =~= balances_entries(self.balances@));
            assert(mints_entries(r.mints@) =~= mints_entries(self.mints@));
            assert(tokens_entries(r.tokens@) =~= tokens_entries(self.tokens@));
        }
        r
    }

    /// Applies a handler's sub-calls as one atomic unit: either every
    /// sub-call succeeds and the ledger holds the composed result, or the
    /// first failure is returned and the ledger is exactly as before —
    /// no partial effect is ever observable.
    pub fn apply_all(&mut self, invs: &Vec<Invocation>) -> (r: Result<(), LedgerError>)
        requires
            old(self).wf(),
        ensures
            final(self).wf(),
            match r {
                Ok(()) => spec_run(old(self)@, invocations_view(invs@))
                    == Ok::<LedgerModel, LedgerError>(final(self)@),
                Err(e) => *final(self) == *old(self)
                    && spec_run(old(self)@, invocations_view(invs@))
                        == Err::<LedgerModel, LedgerError>(e),
            },
    {
        let mut work = self.duplicate();
        proof {
            assert(invocations_view(invs@).skip(0) =~= invocations_view(invs@));
        }
        let mut i: usize = 0;
        while i < invs.len()
            invariant
                self.wf(),
                work.wf(),
                i <= invs@.len(),
                self == old(self),
                spec_run(self@, invocations_view(invs@))
                    == spec_run(work@, invocations_view(invs@).skip(i as int)),
            decreases invs@.len() - i,
        {
            let ghost pre = work@;
            let ghost rest = invocations_view(invs@).skip(i as int);
            match work.apply(&invs[i]) {
                Ok(()) => {
                    proof {
                        assert(rest[0] == invocations_view(invs@)[i as int]);
                        assert(rest.drop_first() =~= invocations_view(invs@).skip(i as int + 1));
                    }
                },
                Err(e) => {
                    proof {
                        assert(rest[0] == invocations_view(invs@)[i as int]);
                    }
                    return Err(e);
                },
            }
            i = i + 1;
        }
        proof {
            assert(invocations_view(invs@).skip(invs@.len() as int)
                =~= Seq::<InvocationModel>::empty());
        }
        *self = work;
        Ok(())
    }
}


/// Law: when an exchange's sub-calls all succeed, exactly the fixed price
/// moves from the user's wallet to the treasury and exactly the fixed
/// token amount is minted to the user's token account; no mint
/// configuration changes. (The wallet is `accounts[0]`, the treasury
/// `accounts[1]`, the token account `accounts[2]`.)
pub proof fn lemma_exchange_moves_fixed_amounts(
    l: LedgerModel,
    program_id: Seq<u8>,
    accounts: Seq<Seq<u8>>,
)
    requires
        spec_exchange(program_id, accounts) is Ok,
        spec_run(l, (spec_exchange(program_id, accounts)->Ok_0).invocations) is Ok,
        accounts[0] != accounts[1],
    ensures
        ({
            let l2 = spec_run(l, (spec_exchange(program_id, accounts)->Ok_0).invocations)->Ok_0;
            &&& l.balances.contains_key(accounts[0])
            &&& l2.balances[accounts[0]] == l.balances[accounts[0]] - PRICE_LAMPORTS
            &&& l2.balances[accounts[1]] == (if l.balances.contains_key(accounts[1]) {
                    l.balances[accounts[1]]
                } else {
                    0u64
                }) + PRICE_LAMPORTS
            &&& l.tokens.contains_key(accounts[2])
            &&& l2.tokens[accounts[2]].amount == l.tokens[accounts[2]].amount + TOKEN_AMOUNT
            &&& l2.mints == l.mints
        }),
{
    let eff = spec_exchange(program_id, accounts)->Ok_0;
    let invs = eff.invocations;
    assert(invs.len() == 2);
    let l1 = spec_apply(l, invs[0])->Ok_0;
    assert(spec_apply(l, invs[0]) is Ok);
    assert(invs.drop_first()[0] == invs[1]);
    assert(spec_apply(l1, invs[1]) is Ok);
    let l2 = spec_apply(l1, invs[1])->Ok_0;
    let dd = invs.drop_first().drop_first();
    assert(dd =~= Seq::<InvocationModel>::empty());
    assert(spec_run(l2, dd) == Ok::<LedgerModel, LedgerError>(l2));
    assert(spec_run(l1, invs.drop_first()) == Ok::<LedgerModel, LedgerError>(l2));
}

} // verus!
