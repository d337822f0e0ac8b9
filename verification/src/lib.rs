//! A turn-based contest engine.
//!
//! The library is organised around three cooperating parts: a rules module
//! that resolves one turn of the contest, a codec module that parses inbound
//! participant records and renders outbound narration lines, and an engine
//! module that drives the contest as an explicit state machine. Bounded
//! mailboxes model the message-passing discipline between the parts.

use vstd::prelude::*;

pub mod codec;
pub mod config;
pub mod engine;
pub mod mailbox;
pub mod model;
pub mod rules;

pub use codec::parse_player_info;
pub use codec::parse_u64;
pub use codec::render_action;
pub use codec::u64_to_string;
pub use config::AppConfig;
pub use config::resolve_config;
pub use engine::EngineError;
pub use engine::EngineRequest;
pub use engine::Game;
pub use engine::GameEvent;
pub use engine::lineup_live_exec;

pub use mailbox::Mailbox;
pub use mailbox::Outbox;
pub use rules::apply_rule;
pub use rules::battle_announce;
pub use rules::battle_over;
pub use rules::battle_turn;
pub use rules::battle_turn_with_roll;
pub use rules::battle_warm_up;
pub use rules::roll_dice;
pub use rules::get_cluster_reducer;
pub use rules::is_winner;
pub use rules::process_dmg;
pub use rules::rule_critical;
pub use rules::rule_lucky;
pub use rules::rule_miss;
pub use rules::rule_standard;

pub use model::AttackType;
pub use model::ClientAction;
pub use model::DecodeError;
pub use model::PlayerInfo;
pub use model::GetPlayerInfoMsg;
pub use model::StartBattleMsg;
pub use model::BattleTurnMsg;
pub use model::TurnResultMsg;
pub use model::BattleWarmUpMsg;
pub use model::BattleAnnounceMsg;
pub use model::WinnerMsg;

verus! {

/// Where the application keeps its data: the base folder and the
/// database folder under it. Resolving the folders against the running
/// environment, and creating them, is the caller's business.
#[derive(Debug)]
pub struct Directories {
    pub base: String,
    pub db: String,
}

impl Directories {
    /// A pair of folders as handed in.
    pub fn new(base: String, db: String) -> (r: Directories)
        ensures
            r.base@ == base@,
            r.db@ == db@,
    {
        Directories { base, db }
    }
}

/// A value that can be turned into a process exit status.
pub trait ExitCode {
    /// Returns the value to use as the exit status.
    fn code(self) -> i32;
}

impl ExitCode for i32 {
    fn code(self) -> (r: i32)
        ensures
            r == self,
    {
        self
    }
}

impl ExitCode for () {
    fn code(self) -> (r: i32)
        ensures
            r == 0,
    {
        0
    }
}

} // verus!
