//! The roles and the channel that the service is configured with, and the
//! decisions that depend on them.

use vstd::prelude::*;

verus! {

/// The identifiers that the service is set up with. They are handed to each
/// command; nothing is compiled in.
#[derive(Clone, Copy, Debug, PartialEq, Eq, Structural)]
pub struct Data {
    /// The role that a welcomed member receives, and that commands ask for.
    pub welcome_role: u64,
    /// The role of the staff.
    pub staff_role: u64,
    /// The role of the players, which the session commands ask for.
    pub dnd_role: u64,
    /// The channel where new members are announced.
    pub general_channel: u64,
}

/// What to do with a member who is to be welcomed.
#[derive(Clone, Copy, Debug, PartialEq, Eq, Structural)]
pub enum WelcomeDecision {
    /// The member is a bot: refuse.
    IsBot,
    /// The member has the welcome role already: refuse.
    AlreadyWelcomed,
    /// Give the member the welcome role.
    GrantRole(u64),
}

/// Whether `role` is among `roles`.
pub fn has_role(roles: &Vec<u64>, role: u64) -> (held: bool)
    ensures
        held == roles@.contains(role),
{
    let mut i: usize = 0;
    while i < roles.len()
        invariant
            i <= roles.len(),
            forall|k: int| 0 <= k < i ==> roles@[k] != role,
        decreases roles.len() - i,
    {
        if roles[i] == role {
            return true;
        }
        i += 1;
    }
    false
}

/// Whether the author of a command, who holds `roles`, belongs to the staff.
pub fn author_is_staff(data: &Data, roles: &Vec<u64>) -> (staff: bool)
    ensures
        staff == roles@.contains(data.staff_role),
{
    has_role(roles, data.staff_role)
}

/// Whether a member who holds `roles` may use the commands at all.
pub fn may_use_commands(data: &Data, roles: &Vec<u64>) -> (allowed: bool)
    ensures
        allowed == roles@.contains(data.welcome_role),
{
    has_role(roles, data.welcome_role)
}

/// Decides a welcome: bots are refused first, then members who hold the
/// welcome role; everyone else is granted it.
pub fn welcome(data: &Data, is_bot: bool, roles: &Vec<u64>) -> (decision: WelcomeDecision)
    ensures
        decision == if is_bot {
            WelcomeDecision::IsBot
        } else if roles@.contains(data.welcome_role) {
            WelcomeDecision::AlreadyWelcomed
        } else {
            WelcomeDecision::GrantRole(data.welcome_role)
        },
{
    if is_bot {
        WelcomeDecision::IsBot
    } else if has_role(roles, data.welcome_role) {
        WelcomeDecision::AlreadyWelcomed
    } else {
        WelcomeDecision::GrantRole(data.welcome_role)
    }
}

} // verus!
