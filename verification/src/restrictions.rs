//! The restriction engine: a recursive boolean expression tree over
//! transitions, with a structural depth bound checked at process creation.

use vstd::prelude::*;

verus! {

/// The account naming the sender or an owner of a record.
pub type AccountId = u64;

/// A key naming a role on a record.
pub type RoleKey = u32;

/// A key naming a metadata entry on a record.
pub type TokenMetadataKey = u32;

/// A metadata value attached to a record.
pub type TokenMetadataValue = u64;

/// A single input or output record of a transition: its owner, its role
/// assignments and its metadata. Read-only to the engine.
pub struct ProcessIO {
    pub owner: AccountId,
    pub roles: Vec<(RoleKey, AccountId)>,
    pub metadata: Vec<(TokenMetadataKey, TokenMetadataValue)>,
}

/// A pure boolean combinator over exactly two sub-restrictions.
#[derive(Clone, Copy, PartialEq, Eq, Structural, Debug)]
pub enum BinaryOperator {
    AND,
}

/// A restriction expression tree. Each `Combined` node exclusively owns its
/// two children, so a value is always a finite tree.
#[derive(PartialEq, Debug)]
pub enum Restriction {
    /// A predicate that always admits.
    NoRestriction,
    /// A predicate that always denies.
    Fail,
    /// Two sub-restrictions combined by a pure boolean operator.
    Combined {
        operator: BinaryOperator,
        restriction_a: Box<Restriction>,
        restriction_b: Box<Restriction>,
    },
}

/// The largest restriction-tree depth a process may be created with.
pub const MAX_DEPTH: u32 = 3;

/// The structural depth of a restriction tree: a leaf has depth 1, a
/// `Combined` node one more than its deeper child.
pub open spec fn depth(r: Restriction) -> nat
    decreases r,
{
    match r {
        Restriction::Combined { operator, restriction_a, restriction_b } => {
            let da = depth(*restriction_a);
            let db = depth(*restriction_b);
            1 + if da >= db {
                da
            } else {
                db
            }
        },
        _ => 1,
    }
}

/// What a restriction says of a transition: `NoRestriction` admits, `Fail`
/// denies, and `Combined` composes its children per its operator.
pub open spec fn eval(
    r: Restriction,
    sender: AccountId,
    inputs: Seq<ProcessIO>,
    outputs: Seq<ProcessIO>,
) -> bool
    decreases r,
{
    match r {
        Restriction::NoRestriction => true,
        Restriction::Fail => false,
        Restriction::Combined { operator, restriction_a, restriction_b } => match operator {
            BinaryOperator::AND => eval(*restriction_a, sender, inputs, outputs) && eval(
                *restriction_b,
                sender,
                inputs,
                outputs,
            ),
        },
    }
}

/// Whether every restriction in the list keeps within the creation-time
/// depth bound.
pub open spec fn all_within_depth(rs: Seq<Restriction>) -> bool {
    forall|i: int| 0 <= i < rs.len() ==> depth(#[trigger] rs[i]) <= MAX_DEPTH
}

/// Whether the tree's depth is within `limit`, without computing the
/// unbounded depth itself.
pub fn depth_within(r: &Restriction, limit: u32) -> (b: bool)
    ensures
        b == (depth(*r) <= limit),
    decreases *r,
{
    match r {
        Restriction::Combined { operator: _, restriction_a, restriction_b } => {
            limit >= 1 && depth_within(restriction_a, limit - 1) && depth_within(
                restriction_b,
                limit - 1,
            )
        },
        _ => limit >= 1,
    }
}

/// Evaluate one restriction against a transition; pure and side-effect-free.
pub fn validate_restriction(
    r: &Restriction,
    sender: &AccountId,
    inputs: &Vec<ProcessIO>,
    outputs: &Vec<ProcessIO>,
) -> (b: bool)
    ensures
        b == eval(*r, *sender, inputs@, outputs@),
    decreases *r,
{
    match r {
        Restriction::NoRestriction => true,
        Restriction::Fail => false,
        Restriction::Combined { operator, restriction_a, restriction_b } => match operator {
            BinaryOperator::AND => validate_restriction(restriction_a, sender, inputs, outputs)
                && validate_restriction(restriction_b, sender, inputs, outputs),
        },
    }
}

/// A structurally equal copy of a restriction tree.
pub fn clone_restriction(r: &Restriction) -> (res: Restriction)
    ensures
        res == *r,
    decreases *r,
{
    match r {
        Restriction::NoRestriction => Restriction::NoRestriction,
        Restriction::Fail => Restriction::Fail,
        Restriction::Combined { operator, restriction_a, restriction_b } => Restriction::Combined {
            operator: *operator,
            restriction_a: Box::new(clone_restriction(restriction_a)),
            restriction_b: Box::new(clone_restriction(restriction_b)),
        },
    }
}

/// Whether every restriction in the list keeps within the creation-time
/// depth bound `MAX_DEPTH`.
pub fn validate_depths(rs: &Vec<Restriction>) -> (b: bool)
    ensures
        b == all_within_depth(rs@),
{
    let mut i: usize = 0;
    while i < rs.len()
        invariant
            0 <= i <= rs@.len(),
            forall|k: int| 0 <= k < i ==> depth(#[trigger] rs@[k]) <= MAX_DEPTH,
        decreases rs@.len() - i,
    {
        if !depth_within(&rs[i], MAX_DEPTH) {
            return false;
        }
        i = i + 1;
    }
    true
}

/// Whether every restriction in the list admits the transition, checked in
/// order with a short circuit on the first denial.
pub fn validate_restriction_list(
    rs: &Vec<Restriction>,
    sender: &AccountId,
    inputs: &Vec<ProcessIO>,
    outputs: &Vec<ProcessIO>,
) -> (b: bool)
    ensures
        b == (forall|i: int|
            0 <= i < rs@.len() ==> eval(#[trigger] rs@[i], *sender, inputs@, outputs@)),
{
    let mut i: usize = 0;
    while i < rs.len()
        invariant
            0 <= i <= rs@.len(),
            forall|k: int| 0 <= k < i ==> eval(#[trigger] rs@[k], *sender, inputs@, outputs@),
        decreases rs@.len() - i,
    {
        if !validate_restriction(&rs[i], sender, inputs, outputs) {
            return false;
        }
        i = i + 1;
    }
    true
}

/// An elementwise structurally equal copy of a restriction list.
pub fn clone_restriction_list(rs: &Vec<Restriction>) -> (res: Vec<Restriction>)
    ensures
        res@ == rs@,
{
    let mut res: Vec<Restriction> = Vec::new();
    let mut i: usize = 0;
    while i < rs.len()
        invariant
            0 <= i <= rs.len(),
            res@ =~= rs@.take(i as int),
        decreases rs.len() - i,
    {
        res.push(clone_restriction(&rs[i]));
        i = i + 1;
    }
    assert(res@ =~= rs@);
    res
}

/// An `AND` node admits a transition exactly when both of its children do;
/// in particular two admitting children always admit, and any denying child
/// denies whatever the other says.
pub proof fn lemma_and_evaluation(
    op: BinaryOperator,
    a: Box<Restriction>,
    b: Box<Restriction>,
    sender: AccountId,
    inputs: Seq<ProcessIO>,
    outputs: Seq<ProcessIO>,
)
    ensures
        eval(
            Restriction::Combined { operator: op, restriction_a: a, restriction_b: b },
            sender,
            inputs,
            outputs,
        ) == (eval(*a, sender, inputs, outputs) && eval(*b, sender, inputs, outputs)),
{
}

} // verus!
