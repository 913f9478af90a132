//! Carrying out a staff speech command: from what the command asks for and
//! what the lookups found, whether it is refused, fails, or goes ahead.
use vstd::prelude::*;

use crate::speech::{ban_outcome, ban_outcome_spec, target_outranks, BanOutcome, SpeechCommand, SpeechRequest};
use crate::strings::strings_view;

verus! {

/// What the lookups for a speech command found.
#[derive(Debug, Clone)]
pub struct SpeechFacts {
    /// The speaker's rank has the right the command needs.
    pub allowed: bool,
    /// The speaker's rank.
    pub own_rank: u8,
    /// The speaker is in a room.
    pub in_room: bool,
    /// The id found for the target's name, 0 or less when there is none.
    pub target_id: i64,
    /// The target's rank as read from the database.
    pub target_rank: i64,
    /// The target is online.
    pub target_online: bool,
    /// Whether the target is muted, when that is known.
    pub target_muted: Option<bool>,
    /// The target's row for a ban: `id, rank` (and the address for a ban
    /// of the address).
    pub ban_row: Vec<String>,
    /// The speaker's place in the room is known (`position`).
    pub position_known: bool,
}

/// How a speech command ends.
#[derive(Debug, Clone, Copy, PartialEq, Eq, Structural)]
pub enum SpeechOutcome {
    /// Not a command the speaker may give: the text is said as chat.
    NotCommand,
    /// The command fails (`scommand_failed`).
    Failed,
    /// The target was not found (`modtool_actionfailed`, `modtool_usernotfound`).
    UserNotFound,
    /// The target outranks the speaker (`modtool_actionfailed`, `modtool_rankerror`).
    RankError,
    /// A speaker without the right to give coins is told so.
    NoCoinRights,
    /// Nothing is answered.
    Silent,
    /// The command is carried out.
    Perform,
}

/// The target rank as the checks read it, cut to a byte.
pub open spec fn outranks(f: SpeechFacts) -> bool {
    (f.target_rank as u8) >= f.own_rank
}

/// How a ban ends, as a speech outcome.
pub open spec fn ban_step(f: SpeechFacts, needed: int, hours: int, reason: Seq<char>) -> SpeechOutcome {
    match ban_outcome_spec(strings_view(f.ban_row@), needed, f.own_rank, hours as i64, reason) {
        BanOutcome::UserNotFound => SpeechOutcome::UserNotFound,
        BanOutcome::RankError => SpeechOutcome::RankError,
        BanOutcome::Failed => SpeechOutcome::Failed,
        BanOutcome::Banned { .. } => SpeechOutcome::Perform,
    }
}

/// How a speech command ends: commands other than `emptyhand` and `coins`
/// are said as chat without their right; a missing target or argument
/// fails; a target name that is not found, or a target offline where it
/// must be online, is reported as not found (kicks, mutes and coins fail
/// instead); kicks and mutes fail on a target of the speaker's rank or
/// above, and on a target already muted (or, to unmute, not muted); bans
/// end as `ban_outcome_spec` says; room commands fail outside a room.
pub open spec fn speech_step_spec(c: SpeechRequest, f: SpeechFacts) -> SpeechOutcome {
    match c {
        SpeechRequest::EmptyHand => SpeechOutcome::Perform,
        SpeechRequest::Coins { target, credits } => if target is None {
            SpeechOutcome::Failed
        } else if !f.allowed {
            SpeechOutcome::NoCoinRights
        } else if credits is None || f.target_id <= 0 || !f.target_online {
            SpeechOutcome::Failed
        } else {
            SpeechOutcome::Perform
        },
        _ => if !f.allowed {
            SpeechOutcome::NotCommand
        } else {
            match c {
                SpeechRequest::Alert { target, message } => if target is None {
                    SpeechOutcome::Failed
                } else if f.target_id <= 0 {
                    SpeechOutcome::UserNotFound
                } else if message.len() == 0 {
                    SpeechOutcome::Failed
                } else if !f.target_online {
                    SpeechOutcome::UserNotFound
                } else {
                    SpeechOutcome::Perform
                },
                SpeechRequest::Kick { target, .. } => if target is None || f.target_id <= 0 || outranks(f) {
                    SpeechOutcome::Failed
                } else {
                    SpeechOutcome::Perform
                },
                SpeechRequest::Shutup { target, .. } => if target is None || f.target_id <= 0 || outranks(f)
                    || f.target_muted == Some(true) {
                    SpeechOutcome::Failed
                } else {
                    SpeechOutcome::Perform
                },
                SpeechRequest::Unmute { target } => if target is None || f.target_id <= 0 || outranks(f)
                    || f.target_muted != Some(true) {
                    SpeechOutcome::Failed
                } else {
                    SpeechOutcome::Perform
                },
                SpeechRequest::Ban { target, hours, reason } => if target is None {
                    SpeechOutcome::Failed
                } else {
                    ban_step(f, 2, hours, reason)
                },
                SpeechRequest::Superban { target, hours, reason } => if target is None {
                    SpeechOutcome::Failed
                } else {
                    ban_step(f, 3, hours, reason)
                },
                SpeechRequest::Info { target } => if target is None {
                    SpeechOutcome::Failed
                } else if f.target_id <= 0 {
                    SpeechOutcome::UserNotFound
                } else {
                    SpeechOutcome::Perform
                },
                SpeechRequest::Find { target } | SpeechRequest::Teletome { target } => if target is None {
                    SpeechOutcome::Failed
                } else if f.target_id <= 0 || !f.target_online {
                    SpeechOutcome::UserNotFound
                } else {
                    SpeechOutcome::Perform
                },
                SpeechRequest::GiveBadge { target, badge } => if target is None || badge is None || badge->0.len()
                    == 0 {
                    SpeechOutcome::Failed
                } else if f.target_id <= 0 {
                    SpeechOutcome::UserNotFound
                } else {
                    SpeechOutcome::Perform
                },
                SpeechRequest::Warp { x, y } => if x is None || y is None || !f.in_room {
                    SpeechOutcome::Failed
                } else {
                    SpeechOutcome::Perform
                },
                SpeechRequest::Offline { minutes } => if minutes is None {
                    SpeechOutcome::Failed
                } else {
                    SpeechOutcome::Perform
                },
                SpeechRequest::Position => if f.position_known {
                    SpeechOutcome::Perform
                } else {
                    SpeechOutcome::Silent
                },
                SpeechRequest::RoomAlert { .. } | SpeechRequest::RoomKick { .. } | SpeechRequest::RoomShutup { .. }
                | SpeechRequest::RoomUnmute | SpeechRequest::Teleport => if !f.in_room {
                    SpeechOutcome::Failed
                } else {
                    SpeechOutcome::Perform
                },
                _ => SpeechOutcome::Perform,
            }
        },
    }
}

fn ban_step_exec(f: &SpeechFacts, needed: usize, hours: i64, reason: &String) -> (r: SpeechOutcome)
    requires
        needed >= 2,
    ensures
        r == ban_step(*f, needed as int, hours as int, reason@),
{
    match ban_outcome(f.ban_row.as_slice(), needed, f.own_rank, hours, reason.as_str()) {
        BanOutcome::UserNotFound => SpeechOutcome::UserNotFound,
        BanOutcome::RankError => SpeechOutcome::RankError,
        BanOutcome::Failed => SpeechOutcome::Failed,
        BanOutcome::Banned { .. } => SpeechOutcome::Perform,
    }
}

/// How a speech command ends (see `speech_step_spec`).
pub fn speech_command_step(cmd: &SpeechCommand, f: &SpeechFacts) -> (r: SpeechOutcome)
    ensures
        r == speech_step_spec(cmd@, *f),
{
    match cmd {
        SpeechCommand::EmptyHand => {
            return SpeechOutcome::Perform;
        },
        SpeechCommand::Coins { target, credits } => {
            return if target.is_none() {
                SpeechOutcome::Failed
            } else if !f.allowed {
                SpeechOutcome::NoCoinRights
            } else if credits.is_none() || f.target_id <= 0 || !f.target_online {
                SpeechOutcome::Failed
            } else {
                SpeechOutcome::Perform
            };
        },
        _ => {},
    }
    if !f.allowed {
        return SpeechOutcome::NotCommand;
    }
    let outranked = target_outranks(f.target_rank, f.own_rank);
    let muted = match f.target_muted {
        Some(m) => m,
        None => false,
    };
    match cmd {
        SpeechCommand::Alert { target, message } => {
            if target.is_none() {
                SpeechOutcome::Failed
            } else if f.target_id <= 0 {
                SpeechOutcome::UserNotFound
            } else if message.as_str().is_empty() {
                SpeechOutcome::Failed
            } else if !f.target_online {
                SpeechOutcome::UserNotFound
            } else {
                SpeechOutcome::Perform
            }
        },
        SpeechCommand::Kick { target, .. } => {
            if target.is_none() || f.target_id <= 0 || outranked {
                SpeechOutcome::Failed
            } else {
                SpeechOutcome::Perform
            }
        },
        SpeechCommand::Shutup { target, .. } => {
            if target.is_none() || f.target_id <= 0 || outranked || muted {
                SpeechOutcome::Failed
            } else {
                SpeechOutcome::Perform
            }
        },
        SpeechCommand::Unmute { target } => {
            if target.is_none() || f.target_id <= 0 || outranked || !muted {
                SpeechOutcome::Failed
            } else {
                SpeechOutcome::Perform
            }
        },
        SpeechCommand::Ban { target, hours, reason } => {
            if target.is_none() {
                SpeechOutcome::Failed
            } else {
                ban_step_exec(f, 2, *hours, reason)
            }
        },
        SpeechCommand::Superban { target, hours, reason } => {
            if target.is_none() {
                SpeechOutcome::Failed
            } else {
                ban_step_exec(f, 3, *hours, reason)
            }
        },
        SpeechCommand::Info { target } => {
            if target.is_none() {
                SpeechOutcome::Failed
            } else if f.target_id <= 0 {
                SpeechOutcome::UserNotFound
            } else {
                SpeechOutcome::Perform
            }
        },
        SpeechCommand::Find { target } | SpeechCommand::Teletome { target } => {
            if target.is_none() {
                SpeechOutcome::Failed
            } else if f.target_id <= 0 || !f.target_online {
                SpeechOutcome::UserNotFound
            } else {
                SpeechOutcome::Perform
            }
        },
        SpeechCommand::GiveBadge { target, badge } => {
            let no_badge = match badge {
                Some(b) => b.as_str().is_empty(),
                None => true,
            };
            if target.is_none() || no_badge {
                SpeechOutcome::Failed
            } else if f.target_id <= 0 {
                SpeechOutcome::UserNotFound
            } else {
                SpeechOutcome::Perform
            }
        },
        SpeechCommand::Warp { x, y } => {
            if x.is_none() || y.is_none() || !f.in_room {
                SpeechOutcome::Failed
            } else {
                SpeechOutcome::Perform
            }
        },
        SpeechCommand::Offline { minutes } => {
            if minutes.is_none() {
                SpeechOutcome::Failed
            } else {
                SpeechOutcome::Perform
            }
        },
        SpeechCommand::Position => {
            if f.position_known {
                SpeechOutcome::Perform
            } else {
                SpeechOutcome::Silent
            }
        },
        SpeechCommand::RoomAlert { .. } | SpeechCommand::RoomKick { .. } | SpeechCommand::RoomShutup { .. }
        | SpeechCommand::RoomUnmute | SpeechCommand::Teleport => {
            if !f.in_room {
                SpeechOutcome::Failed
            } else {
                SpeechOutcome::Perform
            }
        },
        _ => SpeechOutcome::Perform,
    }
}

} // verus!
