use vstd::prelude::*;

verus! {

/// What the program reads and writes of an account: its address, owner,
/// balance, data and whether it signed the transaction.
#[derive(Clone, PartialEq, Eq, Debug)]
pub struct Account {
    pub key: [u8; 32],
    pub owner: [u8; 32],
    pub lamports: u64,
    pub data: Vec<u8>,
    pub is_signer: bool,
}

/// The mathematical value of an [`Account`].
pub struct AccountModel {
    pub key: Seq<u8>,
    pub owner: Seq<u8>,
    pub lamports: u64,
    pub data: Seq<u8>,
    pub is_signer: bool,
}

impl DeepView for Account {
    type V = AccountModel;

    open spec fn deep_view(&self) -> AccountModel {
        AccountModel {
            key: self.key@,
            owner: self.owner@,
            lamports: self.lamports,
            data: self.data@,
            is_signer: self.is_signer,
        }
    }
}

/// Total lamports ceiling of an account set: the lamports of all accounts in
/// an instruction never come near it (the whole supply of the chain is far
/// smaller), and below it no balance update of the program can overflow.
pub const LAMPORTS_CEILING: u64 = 0x7fff_ffff_ffff_ffff;

/// `a` with its balance set to `x`.
pub open spec fn with_lamports(a: AccountModel, x: int) -> AccountModel {
    AccountModel { lamports: x as u64, ..a }
}

/// `a` with its data set to `d`.
pub open spec fn with_data(a: AccountModel, d: Seq<u8>) -> AccountModel {
    AccountModel { data: d, ..a }
}

/// Set the balance of account `i`.
pub open spec fn set_lamports(l: Seq<AccountModel>, i: int, x: int) -> Seq<AccountModel> {
    l.update(i, with_lamports(l[i], x))
}

/// Set the data of account `i`.
pub open spec fn set_data(l: Seq<AccountModel>, i: int, d: Seq<u8>) -> Seq<AccountModel> {
    l.update(i, with_data(l[i], d))
}

/// Move `amount` lamports from account `from` to account `to`: first debit,
/// then credit (the same account may play both roles).
pub open spec fn transfer_spec(l: Seq<AccountModel>, from: int, to: int, amount: u64) -> Seq<
    AccountModel,
> {
    let l1 = set_lamports(l, from, l[from].lamports - amount);
    set_lamports(l1, to, l1[to].lamports + amount)
}

/// Close account `a` into `refund`: credit its balance to `refund`, then zero
/// its balance and every byte of its data.
pub open spec fn close_spec(l: Seq<AccountModel>, a: int, refund: int) -> Seq<AccountModel> {
    let amount = l[a].lamports;
    let l1 = set_lamports(l, refund, l[refund].lamports + amount);
    let l2 = set_lamports(l1, a, 0);
    set_data(l2, a, Seq::new(l2[a].data.len(), |i: int| 0u8))
}

/// The sum of all balances.
pub open spec fn total_lamports(l: Seq<AccountModel>) -> int
    decreases l.len(),
{
    if l.len() == 0 {
        0
    } else {
        total_lamports(l.drop_last()) + l.last().lamports
    }
}

/// Changing one balance changes the total by the difference.
pub proof fn lemma_total_set_lamports(l: Seq<AccountModel>, i: int, x: int)
    requires
        0 <= i < l.len(),
        0 <= x <= u64::MAX,
    ensures
        total_lamports(set_lamports(l, i, x)) == total_lamports(l) - l[i].lamports + x,
    decreases l.len(),
{
    let l2 = set_lamports(l, i, x);
    if i == l.len() - 1 {
        assert(l2.drop_last() =~= l.drop_last());
    } else {
        lemma_total_set_lamports(l.drop_last(), i, x);
        assert(l2.drop_last() =~= set_lamports(l.drop_last(), i, x));
    }
}

/// One balance is at most the total.
pub proof fn lemma_total_bounds_one(l: Seq<AccountModel>, i: int)
    requires
        0 <= i < l.len(),
    ensures
        l[i].lamports <= total_lamports(l),
    decreases l.len(),
{
    lemma_total_nonneg(l.drop_last());
    if i < l.len() - 1 {
        lemma_total_bounds_one(l.drop_last(), i);
    }
}

/// Two different balances together are at most the total.
pub proof fn lemma_total_bounds_two(l: Seq<AccountModel>, i: int, j: int)
    requires
        0 <= i < l.len(),
        0 <= j < l.len(),
        i != j,
    ensures
        l[i].lamports + l[j].lamports <= total_lamports(l),
    decreases l.len(),
{
    let n = l.len() - 1;
    if i == n {
        lemma_total_bounds_one(l.drop_last(), j);
    } else if j == n {
        lemma_total_bounds_one(l.drop_last(), i);
    } else {
        lemma_total_bounds_two(l.drop_last(), i, j);
    }
}

/// The total is never negative.
pub proof fn lemma_total_nonneg(l: Seq<AccountModel>)
    ensures
        total_lamports(l) >= 0,
    decreases l.len(),
{
    if l.len() > 0 {
        lemma_total_nonneg(l.drop_last());
    }
}

/// A transfer keeps the total.
pub proof fn lemma_transfer_keeps_total(l: Seq<AccountModel>, from: int, to: int, amount: u64)
    requires
        0 <= from < l.len(),
        0 <= to < l.len(),
        amount <= l[from].lamports,
        total_lamports(l) <= LAMPORTS_CEILING,
    ensures
        total_lamports(transfer_spec(l, from, to, amount)) == total_lamports(l),
        transfer_spec(l, from, to, amount).len() == l.len(),
{
    let l1 = set_lamports(l, from, l[from].lamports - amount);
    lemma_total_set_lamports(l, from, l[from].lamports - amount);
    lemma_total_bounds_one(l1, to);
    lemma_total_set_lamports(l1, to, l1[to].lamports + amount);
}

/// Closing an account into a different one keeps the total.
pub proof fn lemma_close_keeps_total(l: Seq<AccountModel>, a: int, refund: int)
    requires
        0 <= a < l.len(),
        0 <= refund < l.len(),
        a != refund,
        total_lamports(l) <= LAMPORTS_CEILING,
    ensures
        total_lamports(close_spec(l, a, refund)) == total_lamports(l),
        close_spec(l, a, refund).len() == l.len(),
{
    lemma_total_bounds_two(l, a, refund);
    let amount = l[a].lamports;
    let l1 = set_lamports(l, refund, l[refund].lamports + amount);
    lemma_total_set_lamports(l, refund, l[refund].lamports + amount);
    let l2 = set_lamports(l1, a, 0);
    lemma_total_set_lamports(l1, a, 0);
    lemma_total_set_data(l2, a, Seq::new(l2[a].data.len(), |i: int| 0u8));
}

/// Changing the data of an account keeps the total.
pub proof fn lemma_total_set_data(l: Seq<AccountModel>, i: int, d: Seq<u8>)
    requires
        0 <= i < l.len(),
    ensures
        total_lamports(set_data(l, i, d)) == total_lamports(l),
    decreases l.len(),
{
    let l2 = set_data(l, i, d);
    if i == l.len() - 1 {
        assert(l2.drop_last() =~= l.drop_last());
    } else {
        lemma_total_set_data(l.drop_last(), i, d);
        assert(l2.drop_last() =~= set_data(l.drop_last(), i, d));
    }
}

} // verus!
