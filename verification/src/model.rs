//! Data model shared by the rules, codec and engine modules: the attack
//! tiers, the narration events, the participant record and the request and
//! reply payloads exchanged with the workers.

use vstd::prelude::*;

verus! {

/// The discrete outcome category of one attack. `Undefined` is the
/// defensive fallback for a roll that falls outside every configured
/// bucket; it never contributes damage and is never narrated.
#[derive(Clone, Copy, Debug, PartialEq, Eq, Structural)]
pub enum AttackType {
    Miss,
    Standard,
    Lucky,
    Critical,
    Undefined,
}

/// One narration event, sent one-way to the transport and never answered.
#[derive(Clone, Debug)]
pub enum ClientAction {
    AskPlayerInfo(usize),
    Start,
    AnnouncePlayers(Vec<String>),
    PlayerAction(String, String),
    AttackResult(AttackType, u64),
    Winner(String, u64),
    Message(String),
}

/// One participant: a name, starting hit points (`energy`) and attack power.
#[derive(Clone, Debug)]
pub struct PlayerInfo {
    pub name: String,
    pub energy: u64,
    pub power: u64,
}

impl PlayerInfo {
    /// A copy that is known to carry the same record.
    pub fn duplicate(&self) -> (r: PlayerInfo)
        ensures
            r == *self,
    {
        PlayerInfo { name: self.name.clone(), energy: self.energy, power: self.power }
    }
}

/// Why an inbound participant record could not be decoded.
#[derive(Clone, Copy, Debug, PartialEq, Eq, Structural)]
pub enum DecodeError {
    /// The line does not hold exactly three whitespace-separated tokens.
    WrongTokenCount,
    /// A numeric field holds a character that is not a decimal digit.
    NotADigit,
    /// A numeric field is well formed but does not fit in a `u64`.
    NumberTooLarge,
}

/// Request: hand over the next participant record.
pub struct GetPlayerInfoMsg;

/// Request: start a new contest.
pub struct StartBattleMsg;

/// Request: resolve one turn of the contest.
pub struct BattleTurnMsg {
    pub range: Vec<u8>,
    pub info: Vec<PlayerInfo>,
    pub hp: Vec<u64>,
    pub turn: usize,
}

/// Reply to [`BattleTurnMsg`]: the updated hit points, whose turn comes
/// next, and the winner once only one participant is left standing.
pub struct TurnResultMsg {
    pub hp: Vec<u64>,
    pub next_turn: usize,
    pub winner: Option<(usize, u64)>,
}

/// Request: check whether enough participants have been gathered.
pub struct BattleWarmUpMsg {
    pub players: usize,
    pub current_players: usize,
}

/// Request: announce the contest and its participants.
pub struct BattleAnnounceMsg(pub Vec<String>);

/// Request: declare the winner with its remaining hit points.
pub struct WinnerMsg(pub String, pub u64);

} // verus!
