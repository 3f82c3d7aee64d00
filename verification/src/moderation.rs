//! What a purge of messages is to delete.

use crate::text::same_text;
use vstd::prelude::*;

verus! {

/// The number of messages that a purge deletes when none is given.
pub const DEFAULT_PURGE_AMOUNT: usize = 100;

/// What a purge deletes.
#[derive(Clone, Copy, Debug, PartialEq, Eq, Structural)]
pub enum PurgePlan {
    /// Every message of the channel, one after the other.
    Everything,
    /// The latest messages, as many as given.
    Latest(usize),
}

/// The plan of a request: everything if that is asked for, whatever the
/// amount; else the amount, or the default where none is given.
pub open spec fn purge_plan(amount: Option<usize>, purge_all: Option<bool>) -> PurgePlan {
    if purge_all == Some(true) {
        PurgePlan::Everything
    } else {
        match amount {
            Some(n) => PurgePlan::Latest(n),
            None => PurgePlan::Latest(DEFAULT_PURGE_AMOUNT),
        }
    }
}

/// Decides what a purge request deletes.
pub fn purge(amount: Option<usize>, purge_all: Option<bool>) -> (plan: PurgePlan)
    ensures
        plan == purge_plan(amount, purge_all),
{
    match purge_all {
        Some(true) => PurgePlan::Everything,
        _ => match amount {
            Some(n) => PurgePlan::Latest(n),
            None => PurgePlan::Latest(DEFAULT_PURGE_AMOUNT),
        },
    }
}

/// The number of messages to fetch for a purge of the latest `amount`: one
/// more where the command came as a message with the prefix `.`, so that
/// the command is deleted with them.
pub fn purge_messages(amount: usize, prefix: &str) -> (fetch: usize)
    ensures
        fetch == if prefix@ == "."@ && amount < usize::MAX {
            amount + 1
        } else {
            amount as int
        },
{
    if same_text(prefix, ".") && amount < usize::MAX {
        amount + 1
    } else {
        amount
    }
}

} // verus!
