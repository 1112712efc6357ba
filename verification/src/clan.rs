//! Clan membership rules: the rank ladder, promotion and demotion
//! eligibility, invite bookkeeping, and the pure decisions behind the
//! clan dialogs.

use vstd::prelude::*;

verus! {

/// A member's position in the clan, lowest first.
#[derive(Clone, Copy, PartialEq, Eq, Structural, Debug)]
pub enum ClanMemberPosition {
    Penalty,
    Junior,
    Senior,
    Veteran,
    Commander,
    DeputyMaster,
    Master,
}

/// The numeric rank of a position on the ladder.
pub open spec fn spec_position_rank(p: ClanMemberPosition) -> u8 {
    match p {
        ClanMemberPosition::Penalty => 0,
        ClanMemberPosition::Junior => 1,
        ClanMemberPosition::Senior => 2,
        ClanMemberPosition::Veteran => 3,
        ClanMemberPosition::Commander => 4,
        ClanMemberPosition::DeputyMaster => 5,
        ClanMemberPosition::Master => 6,
    }
}

/// The position at a numeric rank, if the rank is on the ladder.
pub open spec fn spec_rank_position(rank: u8) -> Option<ClanMemberPosition> {
    if rank == 0 {
        Some(ClanMemberPosition::Penalty)
    } else if rank == 1 {
        Some(ClanMemberPosition::Junior)
    } else if rank == 2 {
        Some(ClanMemberPosition::Senior)
    } else if rank == 3 {
        Some(ClanMemberPosition::Veteran)
    } else if rank == 4 {
        Some(ClanMemberPosition::Commander)
    } else if rank == 5 {
        Some(ClanMemberPosition::DeputyMaster)
    } else if rank == 6 {
        Some(ClanMemberPosition::Master)
    } else {
        None
    }
}

#[verifier::when_used_as_spec(spec_position_rank)]
pub fn position_to_rank(position: ClanMemberPosition) -> (rank: u8)
    ensures
        rank == spec_position_rank(position),
{
    match position {
        ClanMemberPosition::Penalty => 0,
        ClanMemberPosition::Junior => 1,
        ClanMemberPosition::Senior => 2,
        ClanMemberPosition::Veteran => 3,
        ClanMemberPosition::Commander => 4,
        ClanMemberPosition::DeputyMaster => 5,
        ClanMemberPosition::Master => 6,
    }
}

#[verifier::when_used_as_spec(spec_rank_position)]
pub fn rank_to_position(rank: u8) -> (position: Option<ClanMemberPosition>)
    ensures
        position == spec_rank_position(rank),
{
    match rank {
        0 => Some(ClanMemberPosition::Penalty),
        1 => Some(ClanMemberPosition::Junior),
        2 => Some(ClanMemberPosition::Senior),
        3 => Some(ClanMemberPosition::Veteran),
        4 => Some(ClanMemberPosition::Commander),
        5 => Some(ClanMemberPosition::DeputyMaster),
        6 => Some(ClanMemberPosition::Master),
        _ => None,
    }
}

/// The position a member would be promoted to by an actor: one rank up,
/// allowed exactly when the target sits below the actor and would still
/// sit below the actor afterwards.
pub fn next_promoted_position(
    actor_position: ClanMemberPosition,
    target_position: ClanMemberPosition,
) -> (next: Option<ClanMemberPosition>)
    ensures
        next is Some <==> spec_position_rank(target_position) + 1 < spec_position_rank(
            actor_position,
        ),
        next matches Some(p) ==> spec_position_rank(p) == spec_position_rank(target_position) + 1,
{
    let actor_rank = position_to_rank(actor_position);
    let target_rank = position_to_rank(target_position);
    let promoted_rank = target_rank + 1;
    if target_rank >= actor_rank || promoted_rank >= actor_rank {
        return None;
    }
    rank_to_position(promoted_rank)
}

/// The position a member would be demoted to by an actor: one rank down,
/// allowed exactly when the target sits below the actor and is not
/// already at the bottom of the ladder.
pub fn next_demoted_position(
    actor_position: ClanMemberPosition,
    target_position: ClanMemberPosition,
) -> (next: Option<ClanMemberPosition>)
    ensures
        next is Some <==> spec_position_rank(target_position) < spec_position_rank(actor_position)
            && spec_position_rank(target_position) > 0,
        next matches Some(p) ==> spec_position_rank(p) == spec_position_rank(target_position) - 1,
{
    let actor_rank = position_to_rank(actor_position);
    let target_rank = position_to_rank(target_position);
    if target_rank >= actor_rank {
        return None;
    }
    if target_rank == 0 {
        return None;
    }
    rank_to_position(target_rank - 1)
}

/// The display name of a position: the string database's entry where it
/// has a non-blank one (handed in already trimmed), else the built-in
/// fallback.
pub fn clan_position_name(db_name: &str, position: ClanMemberPosition) -> (r: String)
    ensures
        db_name@.len() > 0 ==> r@ == db_name@,
        db_name@.len() == 0 ==> r@ == spec_position_fallback(position),
{
    if !db_name.is_empty() {
        return db_name.to_owned();
    }
    proof {
        reveal_strlit("Penalty");
        reveal_strlit("Junior");
        reveal_strlit("Senior");
        reveal_strlit("Veteran");
        reveal_strlit("Commander");
        reveal_strlit("Deputy Master");
        reveal_strlit("Master");
    }
    match position {
        ClanMemberPosition::Penalty => String::from_str("Penalty"),
        ClanMemberPosition::Junior => String::from_str("Junior"),
        ClanMemberPosition::Senior => String::from_str("Senior"),
        ClanMemberPosition::Veteran => String::from_str("Veteran"),
        ClanMemberPosition::Commander => String::from_str("Commander"),
        ClanMemberPosition::DeputyMaster => String::from_str("Deputy Master"),
        ClanMemberPosition::Master => String::from_str("Master"),
    }
}

/// The built-in fallback name of each position.
pub open spec fn spec_position_fallback(p: ClanMemberPosition) -> Seq<char> {
    match p {
        ClanMemberPosition::Penalty => "Penalty"@,
        ClanMemberPosition::Junior => "Junior"@,
        ClanMemberPosition::Senior => "Senior"@,
        ClanMemberPosition::Veteran => "Veteran"@,
        ClanMemberPosition::Commander => "Commander"@,
        ClanMemberPosition::DeputyMaster => "Deputy Master"@,
        ClanMemberPosition::Master => "Master"@,
    }
}

/// An invitation to join a clan, pending the player's answer.
pub struct PendingClanInvite {
    pub inviter_name: String,
    pub clan_name: String,
    pub clan_unique_id: u32,
    pub clan_level: u32,
}

/// The queue of clan invitations awaiting an answer.
pub struct PendingClanInvites {
    pub invites: Vec<PendingClanInvite>,
}

impl PendingClanInvites {
    pub fn new() -> (r: PendingClanInvites)
        ensures
            r.invites@.len() == 0,
    {
        PendingClanInvites { invites: Vec::new() }
    }

    /// Queue a received invitation.
    pub fn push_invite(&mut self, invite: PendingClanInvite)
        ensures
            final(self).invites@ == old(self).invites@.push(invite),
    {
        self.invites.push(invite);
    }

    /// Answer the invitation at `i` — accepting or rejecting both remove
    /// it from the queue — and hand it back so the answer can be sent.
    pub fn resolve_invite(&mut self, i: usize) -> (invite: PendingClanInvite)
        requires
            i < old(self).invites@.len(),
        ensures
            final(self).invites@ == old(self).invites@.remove(i as int),
            invite == old(self).invites@[i as int],
    {
        self.invites.remove(i)
    }
}

/// What the clan dialog is told to do.
pub enum ClanDialogEvent {
    Open,
    InviteReceived {
        inviter_name: String,
        clan_unique_id: u32,
        clan_name: String,
        clan_level: u32,
    },
}

/// The clan-creation form's text fields.
pub struct UiCreateClanState {
    pub clan_name: String,
    pub clan_slogan: String,
}

impl Default for UiCreateClanState {
    fn default() -> (r: Self)
        ensures
            r.clan_name@.len() == 0,
            r.clan_slogan@.len() == 0,
    {
        UiCreateClanState { clan_name: String::new(), clan_slogan: String::new() }
    }
}

impl UiCreateClanState {
    /// Empty both form fields.
    pub fn clear(&mut self)
        ensures
            final(self).clan_name@.len() == 0,
            final(self).clan_slogan@.len() == 0,
    {
        self.clan_name = String::new();
        self.clan_slogan = String::new();
    }
}

/// The outcome of submitting the clan-creation form.
#[derive(Clone, Copy, PartialEq, Eq, Structural, Debug)]
pub enum CreateClanOutcome {
    /// The name field is blank: show the invalid-name message.
    InvalidName,
    /// The slogan field is blank: show the slogan-required message.
    InvalidSlogan,
    /// Send the creation request with the given fields.
    Submit,
}

/// Decide what submitting the clan-creation form does. The fields arrive
/// already trimmed; the name is checked before the slogan.
pub fn validate_clan_submission(clan_name: &str, clan_slogan: &str) -> (r: CreateClanOutcome)
    ensures
        r == CreateClanOutcome::InvalidName <==> clan_name@.len() == 0,
        r == CreateClanOutcome::InvalidSlogan <==> clan_name@.len() > 0 && clan_slogan@.len() == 0,
        r == CreateClanOutcome::Submit <==> clan_name@.len() > 0 && clan_slogan@.len() > 0,
{
    if clan_name.is_empty() {
        CreateClanOutcome::InvalidName
    } else if clan_slogan.is_empty() {
        CreateClanOutcome::InvalidSlogan
    } else {
        CreateClanOutcome::Submit
    }
}

/// What is known about the entity a player has targeted for an invite.
pub struct InviteTarget {
    /// Whether the target is a player character (only those can be invited).
    pub is_character: bool,
    /// The target's display name.
    pub name: String,
}

/// Resolve the invite target for the clan members tab: the name to invite
/// when every check passes, else the reason the invite button is disabled.
pub fn resolve_invite_target(
    selected: Option<u64>,
    player_entity: Option<u64>,
    target: Option<&InviteTarget>,
) -> (r: (Option<String>, String))
    ensures
        selected is None ==> r.0 is None && r.1@ == "No target selected."@,
        selected is Some && selected == player_entity ==> r.0 is None && r.1@
            == "You cannot invite yourself."@,
        selected is Some && selected != player_entity && target is None ==> r.0 is None && r.1@
            == "Invalid selected target."@,
        selected is Some && selected != player_entity && target is Some
            && !target->Some_0.is_character ==> r.0 is None && r.1@
            == "Target must be a character."@,
        selected is Some && selected != player_entity && target is Some
            && target->Some_0.is_character ==> r.0 is Some && r.0->Some_0@
            == target->Some_0.name@ && r.1@.len() == 0,
{
    let selected_entity = match selected {
        Some(e) => e,
        None => {
            return (None, String::from_str("No target selected."));
        },
    };
    let is_self = match player_entity {
        Some(p) => p == selected_entity,
        None => false,
    };
    if is_self {
        return (None, String::from_str("You cannot invite yourself."));
    }
    let t = match target {
        Some(t) => t,
        None => {
            return (None, String::from_str("Invalid selected target."));
        },
    };
    if !t.is_character {
        return (None, String::from_str("Target must be a character."));
    }
    (Some(t.name.clone()), String::new())
}

} // verus!
