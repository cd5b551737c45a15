//! A call into another protocol contract, described by plain values: the
//! contract called, the name of its entry point and the arguments in order.
//! The host turns each argument into the value the entry point takes and
//! makes the call.
use vstd::prelude::*;
use crate::assoc::AccountId;
use crate::governance::{LoyaltyTier, QuorumTier};

verus! {

/// One argument of a cross-contract call.
#[derive(Clone, Debug, PartialEq, Eq)]
pub enum CallArg {
    Account(AccountId),
    OptionalAccount(Option<AccountId>),
    Bool(bool),
    U32(u32),
    U64(u64),
    I64(i64),
    I128(i128),
    Text(String),
    LoyaltyTiers(Vec<LoyaltyTier>),
    QuorumTiers(Vec<QuorumTier>),
}

/// A call of `entry_point` on the contract `target` with `args`.
#[derive(Clone, Debug, PartialEq, Eq)]
pub struct TargetCall {
    pub target: AccountId,
    pub entry_point: &'static str,
    pub args: Vec<CallArg>,
}

/// Two arguments carry the same value: texts and lists by their contents,
/// everything else by equality.
pub open spec fn same_arg(a: CallArg, b: CallArg) -> bool {
    match (a, b) {
        (CallArg::Text(x), CallArg::Text(y)) => x@ == y@,
        (CallArg::LoyaltyTiers(x), CallArg::LoyaltyTiers(y)) => x@ == y@,
        (CallArg::QuorumTiers(x), CallArg::QuorumTiers(y)) => x@ == y@,
        _ => a == b,
    }
}

/// Two argument lists carry the same values in the same order.
pub open spec fn same_args(a: Seq<CallArg>, b: Seq<CallArg>) -> bool {
    &&& a.len() == b.len()
    &&& forall|i: int| #![trigger a[i]] 0 <= i < a.len() ==> same_arg(a[i], b[i])
}

/// Putting the same argument in front of two lists that carry the same
/// values keeps them so.
pub proof fn lemma_same_args_prepend(x: CallArg, a: Seq<CallArg>, b: Seq<CallArg>)
    requires
        same_args(a, b),
    ensures
        same_args(seq![x] + a, seq![x] + b),
{
    let l = seq![x] + a;
    let r = seq![x] + b;
    assert forall|i: int| 0 <= i < l.len() implies #[trigger] same_arg(l[i], r[i]) by {
        if i == 0 {
            assert(l[0] == x && r[0] == x);
        } else {
            assert(l[i] == a[i - 1] && r[i] == b[i - 1]);
            assert(same_arg(a[i - 1], b[i - 1]));
        }
    }
}

/// A copy of a list of loyalty tiers.
pub fn copy_loyalty_tiers(v: &Vec<LoyaltyTier>) -> (r: Vec<LoyaltyTier>)
    ensures
        r@ == v@,
{
    let mut r: Vec<LoyaltyTier> = Vec::new();
    let mut i: usize = 0;
    while i < v.len()
        invariant
            i <= v.len(),
            r@ == v@.subrange(0, i as int),
        decreases v.len() - i,
    {
        r.push(v[i]);
        i = i + 1;
        assert(r@ =~= v@.subrange(0, i as int));
    }
    assert(r@ =~= v@);
    r
}

/// A copy of a list of quorum tiers.
pub fn copy_quorum_tiers(v: &Vec<QuorumTier>) -> (r: Vec<QuorumTier>)
    ensures
        r@ == v@,
{
    let mut r: Vec<QuorumTier> = Vec::new();
    let mut i: usize = 0;
    while i < v.len()
        invariant
            i <= v.len(),
            r@ == v@.subrange(0, i as int),
        decreases v.len() - i,
    {
        r.push(v[i]);
        i = i + 1;
        assert(r@ =~= v@.subrange(0, i as int));
    }
    assert(r@ =~= v@);
    r
}

/// The call of `entry_point` on `target` whose arguments are `caller`
/// followed by `fields`.
pub fn call_from(target: AccountId, entry_point: &'static str, caller: AccountId, fields: Vec<CallArg>) -> (r: TargetCall)
    ensures
        r.target == target,
        r.entry_point == entry_point,
        r.args@ == seq![CallArg::Account(caller)] + fields@,
{
    let mut args = vec![CallArg::Account(caller)];
    let mut rest = fields;
    args.append(&mut rest);
    assert(args@ =~= seq![CallArg::Account(caller)] + fields@);
    TargetCall { target, entry_point, args }
}

} // verus!
