//! The contest state machine. Each state of a running contest holds the
//! data the next step needs; every non-terminal state has exactly one
//! pending request, and [`Game::transition`] computes the successor state
//! from the reply, replacing the state wholesale. The allowed transitions
//! form a closed set, checked by exhaustive matching.

use vstd::prelude::*;

use crate::config::AppConfig;
use crate::model::{
    BattleAnnounceMsg, BattleTurnMsg, BattleWarmUpMsg, ClientAction, DecodeError, GetPlayerInfoMsg,
    PlayerInfo, TurnResultMsg, WinnerMsg,
};
use crate::rules::{
    all_others_down, applied_damage, damage_of, lemma_next_live_other, lemma_next_turn_is_live,
    lemma_winner_iff_single_survivor, next_live_index, tier_of_roll, turn_outcome_ok,
};

verus! {

/// Set of errors that can occur during engine processing.
#[derive(Clone, Copy, Debug, PartialEq, Eq, Structural)]
pub enum EngineError {
    /// An inbound participant record could not be decoded.
    Decode(DecodeError),
    /// A worker's channel closed while a reply was pending.
    ChannelClosed,
    /// The configuration names no participant count.
    Configuration,
    /// The gathered lineup cannot support a turn: the opening participant
    /// or every possible opponent is already at zero hit points.
    Lineup,
    /// A reply arrived that the live state cannot accept, or a turn reply
    /// carried data inconsistent with the contest.
    Protocol,
}

/// The state of one contest. Exactly one instance is live per running
/// contest; a transition consumes it and returns the successor.
pub enum Game {
    /// The contest begins with its configuration.
    Start(AppConfig),
    /// Checking whether enough participants have been gathered.
    WarmUp { config: AppConfig, info: Vec<PlayerInfo> },
    /// Waiting for the transport to hand over one participant record.
    WaitPlayerInfo { config: AppConfig, info: Vec<PlayerInfo> },
    /// Announcing the contest and its participants.
    BattleAnnounce { config: AppConfig, info: Vec<PlayerInfo>, hp: Vec<u64>, turn: usize },
    /// A turn is being resolved.
    BattleOn { config: AppConfig, info: Vec<PlayerInfo>, hp: Vec<u64>, turn: usize },
    /// The winner is being declared.
    BattleOver { winner: String, hp: u64 },
    /// Terminal: the contest completed.
    Finished,
    /// Terminal: the contest failed.
    Error(EngineError),
}

/// A reply from a worker: the completion of the one pending request.
pub enum GameEvent {
    /// Reply to a warm-up request: true when enough participants are in.
    WarmUpDone(bool),
    /// Reply to a participant-record request.
    PlayerInfoReceived(PlayerInfo),
    /// Reply to an announcement request.
    AnnounceDone,
    /// Reply to a turn request.
    TurnDone(TurnResultMsg),
    /// Reply to a winner declaration.
    WinnerDone,
    /// A worker failed; the contest cannot continue.
    Failed(EngineError),
}

/// The one request a non-terminal state keeps in flight, and who answers
/// it: the participant-record request goes to the transport worker, the
/// rest go to the rules worker.
pub enum EngineRequest {
    RulesWarmUp(BattleWarmUpMsg),
    TransportPlayerInfo(GetPlayerInfoMsg),
    RulesAnnounce(BattleAnnounceMsg),
    RulesTurn(BattleTurnMsg),
    RulesWinner(WinnerMsg),
}

/// A hit-point list that supports a turn: the participant at `turn` is
/// live and at least one other participant is live.
pub open spec fn lineup_live(hp: Seq<u64>, turn: int) -> bool {
    &&& 0 <= turn < hp.len()
    &&& hp[turn] > 0
    &&& exists|j: int| 0 <= j < hp.len() && j != turn && hp[j] > 0
}

impl Game {
    /// What every reachable state keeps true: after warm-up the hit-point
    /// list stays index-aligned with the participant list, a participant
    /// at zero hit points never holds the turn, and the configuration of
    /// a gathering or fighting state always names a participant count.
    pub open spec fn wf(&self) -> bool {
        match *self {
            Game::Start(_) => true,
            Game::WarmUp { config, .. } => config.players is Some,
            Game::WaitPlayerInfo { config, .. } => config.players is Some,
            Game::BattleAnnounce { config, info, hp, turn } => {
                &&& config.players is Some
                &&& hp@.len() == info@.len()
                &&& lineup_live(hp@, turn as int)
            },
            Game::BattleOn { config, info, hp, turn } => {
                &&& config.players is Some
                &&& hp@.len() == info@.len()
                &&& lineup_live(hp@, turn as int)
            },
            Game::BattleOver { .. } => true,
            Game::Finished => true,
            Game::Error(_) => true,
        }
    }

    /// The reply kind that each live state is waiting for.
    pub open spec fn accepts(g: Game, e: GameEvent) -> bool {
        ||| g is WarmUp && e is WarmUpDone
        ||| g is WaitPlayerInfo && e is PlayerInfoReceived
        ||| g is BattleAnnounce && e is AnnounceDone
        ||| g is BattleOn && e is TurnDone
        ||| g is BattleOver && e is WinnerDone
    }

    /// The allowed-transition table, as a relation between the state
    /// before a reply, the reply, and the state after it. The error
    /// state absorbs every reply; a worker failure ends any live state;
    /// warm-up short of the target waits for a record and warm-up at the
    /// target opens the announcement, refusing a lineup that cannot
    /// fight; a received record returns to warm-up with the record
    /// appended; an acknowledged announcement starts the first turn; a
    /// turn reply loops with the updated hit points or, once a winner is
    /// named, moves to the declaration; an acknowledged declaration
    /// finishes; and a reply the live state cannot accept, or a turn
    /// reply inconsistent with the contest, is a protocol error.
    pub open spec fn next_ok(pre: Game, event: GameEvent, next: Game) -> bool {
        match (pre, event) {
            (Game::Error(e0), _) => next == Game::Error(e0),
            (_, GameEvent::Failed(e)) => next == Game::Error(e),
            (Game::WarmUp { config, info }, GameEvent::WarmUpDone(done)) => if !done {
                next == (Game::WaitPlayerInfo { config, info })
            } else {
                let hp = info@.map_values(|p: PlayerInfo| p.energy);
                if lineup_live(hp, 0) {
                    &&& next matches Game::BattleAnnounce { config: c2, info: i2, hp: h2, turn }
                    &&& c2 == config
                    &&& i2 == info
                    &&& h2@ == hp
                    &&& turn == 0
                } else {
                    next == Game::Error(EngineError::Lineup)
                }
            },
            (Game::WaitPlayerInfo { config, info }, GameEvent::PlayerInfoReceived(p)) => {
                &&& next matches Game::WarmUp { config: c2, info: i2 }
                &&& c2 == config
                &&& i2@ == info@.push(p)
            },
            (Game::BattleAnnounce { config, info, hp, turn }, GameEvent::AnnounceDone) => next
                == (Game::BattleOn { config, info, hp, turn }),
            (Game::BattleOn { config, info, hp, turn }, GameEvent::TurnDone(res)) => match res.winner {
                Some(w) => if 0 <= w.0 < info@.len() {
                    &&& next matches Game::BattleOver { winner, hp: whp }
                    &&& winner == info@[w.0 as int].name
                    &&& whp == w.1
                } else {
                    next == Game::Error(EngineError::Protocol)
                },
                None => if res.hp@.len() == info@.len() && lineup_live(
                    res.hp@,
                    res.next_turn as int,
                ) {
                    next == (Game::BattleOn { config, info, hp: res.hp, turn: res.next_turn })
                } else {
                    next == Game::Error(EngineError::Protocol)
                },
            },
            (Game::BattleOver { .. }, GameEvent::WinnerDone) => next == Game::Finished,
            _ => next == Game::Error(EngineError::Protocol),
        }
    }

    /// Opens a contest: a configuration that names a participant count
    /// enters warm-up with no participants gathered; one that names none
    /// fails before any contest state exists.
    pub fn start(config: AppConfig) -> (g: Game)
        ensures
            config.players is None ==> g == Game::Error(EngineError::Configuration),
            config.players is Some ==> (g matches Game::WarmUp { config: c, info } && c == config
                && info@ =~= Seq::<PlayerInfo>::empty()),
            g.wf(),
    {
        if config.players.is_some() {
            let info: Vec<PlayerInfo> = Vec::new();
            Game::WarmUp { config, info }
        } else {
            Game::Error(EngineError::Configuration)
        }
    }

    /// The one request this state keeps in flight: none for the opening
    /// state and the two terminal states, and exactly one, carrying this
    /// state's own data, for every other state.
    pub fn pending_request(&self) -> (r: Option<EngineRequest>)
        ensures
            self matches Game::WarmUp { config, info } ==> (config.players matches Some(p) ==> (r
                matches Some(EngineRequest::RulesWarmUp(m)) && m.players == p
                && m.current_players == info@.len())),
            self matches Game::WarmUp { config, .. } ==> (config.players is None ==> r is None),
            self is WaitPlayerInfo ==> (r matches Some(EngineRequest::TransportPlayerInfo(_))),
            self matches Game::BattleAnnounce { info, .. } ==> (r matches Some(
                EngineRequest::RulesAnnounce(m),
            ) && m.0@ == info@.map_values(|p: PlayerInfo| p.name)),
            self matches Game::BattleOn { config, info, hp, turn } ==> (r matches Some(
                EngineRequest::RulesTurn(m),
            ) && m.range@ == config.range@ && m.info@ == info@ && m.hp@ == hp@ && m.turn == turn),
            self matches Game::BattleOver { winner, hp } ==> (r matches Some(
                EngineRequest::RulesWinner(m),
            ) && m.0 == winner && m.1 == hp),
            self is Start || self is Finished || self is Error ==> r is None,
    {
        match self {
            Game::Start(_) => None,
            Game::WarmUp { config, info } => match config.players {
                Some(p) => Some(
                    EngineRequest::RulesWarmUp(
                        BattleWarmUpMsg { players: p, current_players: info.len() },
                    ),
                ),
                None => None,
            },
            Game::WaitPlayerInfo { .. } => Some(
                EngineRequest::TransportPlayerInfo(GetPlayerInfoMsg),
            ),
            Game::BattleAnnounce { info, .. } => Some(
                EngineRequest::RulesAnnounce(BattleAnnounceMsg(player_names(info))),
            ),
            Game::BattleOn { config, info, hp, turn } => Some(
                EngineRequest::RulesTurn(
                    BattleTurnMsg {
                        range: clone_range(&config.range),
                        info: clone_players(info),
                        hp: clone_points(hp),
                        turn: *turn,
                    },
                ),
            ),
            Game::BattleOver { winner, hp } => Some(
                EngineRequest::RulesWinner(WinnerMsg(winner.clone(), *hp)),
            ),
            Game::Finished => None,
            Game::Error(_) => None,
        }
    }

    /// Computes the successor state from the completion of the pending
    /// request. The closed transition table: warm-up short of the target
    /// waits for a record, warm-up at the target opens the announcement
    /// (refusing a lineup that cannot fight), a received record returns
    /// to warm-up, an acknowledged announcement starts the first turn, a
    /// turn reply either loops with the updated hit points or moves to
    /// the winner declaration, and an acknowledged declaration finishes.
    /// A worker failure, a reply the live state cannot accept, or a turn
    /// reply inconsistent with the contest ends in the error state, which
    /// absorbs everything. Well-formed states have well-formed successors.
    pub fn transition(self, event: GameEvent) -> (next: Game)
        ensures
            Game::next_ok(self, event, next),
            self.wf() ==> next.wf(),
    {
        match (self, event) {
            (Game::Error(e0), _) => Game::Error(e0),
            (_, GameEvent::Failed(e)) => Game::Error(e),
            (Game::WarmUp { config, info }, GameEvent::WarmUpDone(false)) => Game::WaitPlayerInfo {
                config,
                info,
            },
            (Game::WarmUp { config, info }, GameEvent::WarmUpDone(true)) => {
                let hp = energies(&info);
                if lineup_live_exec(&hp, 0) {
                    Game::BattleAnnounce { config, info, hp, turn: 0 }
                } else {
                    Game::Error(EngineError::Lineup)
                }
            },
            (Game::WaitPlayerInfo { config, mut info }, GameEvent::PlayerInfoReceived(p)) => {
                info.push(p);
                Game::WarmUp { config, info }
            },
            (Game::BattleAnnounce { config, info, hp, turn }, GameEvent::AnnounceDone) => {
                Game::BattleOn { config, info, hp, turn }
            },
            (Game::BattleOn { config, info, hp, turn }, GameEvent::TurnDone(res)) => {
                match res.winner {
                    Some((w, whp)) => {
                        if w < info.len() {
                            Game::BattleOver { winner: info[w].name.clone(), hp: whp }
                        } else {
                            Game::Error(EngineError::Protocol)
                        }
                    },
                    None => {
                        if res.hp.len() == info.len() && lineup_live_exec(&res.hp, res.next_turn) {
                            Game::BattleOn { config, info, hp: res.hp, turn: res.next_turn }
                        } else {
                            Game::Error(EngineError::Protocol)
                        }
                    },
                }
            },
            (Game::BattleOver { .. }, GameEvent::WinnerDone) => Game::Finished,
            _ => Game::Error(EngineError::Protocol),
        }
    }
}

/// A turn reply that really came from resolving a turn is never refused
/// by [`Game::transition`] as a protocol error: when no winner is named
/// the reply's hit points stay aligned with the participants and the
/// lineup still supports a turn, and a named winner is a real index.
pub proof fn lemma_honest_turn_reply_accepted(
    range: Seq<u8>,
    info: Seq<PlayerInfo>,
    hp: Seq<u64>,
    turn: int,
    dice: u8,
    r: TurnResultMsg,
    ob0: Seq<ClientAction>,
    ob1: Seq<ClientAction>,
)
    requires
        hp.len() <= usize::MAX,
        hp.len() == info.len(),
        0 <= turn < hp.len(),
        hp[turn] > 0,
        exists|j: int| 0 <= j < hp.len() && j != turn && hp[j] > 0,
        turn_outcome_ok(range, info, hp, turn, dice, r, ob0, ob1),
    ensures
        r.winner is None ==> r.hp@.len() == info.len() && lineup_live(r.hp@, r.next_turn as int),
        r.winner matches Some(w) ==> w.0 < info.len(),
{
    let defender = next_live_index(hp, turn);
    lemma_next_live_other(hp, turn);
    let newhp = hp.update(defender, applied_damage(hp[defender], damage_of(tier_of_roll(
        range,
        dice,
    ), info[turn].power as int)));
    assert(newhp[turn] == hp[turn]);
    lemma_next_turn_is_live(range, info, hp, turn, dice, r, ob0, ob1);
    if r.winner is None {
        assert(!all_others_down(newhp, turn));
        let m = choose|m: int| 0 <= m < newhp.len() && m != turn && newhp[m] > 0;
        if r.next_turn == turn {
            assert(newhp[m] > 0);
        } else {
            assert(newhp[turn] > 0);
        }
    } else {
        lemma_winner_iff_single_survivor(range, info, hp, turn, dice, r, ob0, ob1);
    }
}

/// Whether the hit-point list supports a turn for the participant at
/// `turn`: that participant is live and so is at least one other.
pub fn lineup_live_exec(hp: &Vec<u64>, turn: usize) -> (r: bool)
    ensures
        r == lineup_live(hp@, turn as int),
{
    if turn >= hp.len() {
        return false;
    }
    if hp[turn] == 0 {
        return false;
    }
    let mut j: usize = 0;
    while j < hp.len()
        invariant
            0 <= j <= hp@.len(),
            turn < hp@.len(),
            hp@[turn as int] > 0,
            forall|i: int| 0 <= i < j && i != turn ==> hp@[i] == 0,
        decreases hp@.len() - j,
    {
        if j != turn && hp[j] > 0 {
            proof {
                assert(exists|m: int| 0 <= m < hp@.len() && m != turn as int && hp@[m] > 0) by {
                    assert(hp@[j as int] > 0);
                }
            }
            return true;
        }
        j = j + 1;
    }
    false
}

/// The starting hit points of each participant, index-aligned.
fn energies(info: &Vec<PlayerInfo>) -> (r: Vec<u64>)
    ensures
        r@ == info@.map_values(|p: PlayerInfo| p.energy),
{
    let mut out: Vec<u64> = Vec::new();
    let mut i: usize = 0;
    while i < info.len()
        invariant
            0 <= i <= info@.len(),
            out@ == info@.take(i as int).map_values(|p: PlayerInfo| p.energy),
        decreases info@.len() - i,
    {
        out.push(info[i].energy);
        proof {
            assert(info@.take(i + 1).drop_last() =~= info@.take(i as int));
            assert(out@ =~= info@.take(i + 1).map_values(|p: PlayerInfo| p.energy));
        }
        i = i + 1;
    }
    proof {
        assert(info@.take(info@.len() as int) =~= info@);
    }
    out
}

/// The name of each participant, index-aligned.
fn player_names(info: &Vec<PlayerInfo>) -> (r: Vec<String>)
    ensures
        r@ == info@.map_values(|p: PlayerInfo| p.name),
{
    let mut out: Vec<String> = Vec::new();
    let mut i: usize = 0;
    while i < info.len()
        invariant
            0 <= i <= info@.len(),
            out@ == info@.take(i as int).map_values(|p: PlayerInfo| p.name),
        decreases info@.len() - i,
    {
        out.push(info[i].name.clone());
        proof {
            assert(out@ =~= info@.take(i + 1).map_values(|p: PlayerInfo| p.name));
        }
        i = i + 1;
    }
    proof {
        assert(info@.take(info@.len() as int) =~= info@);
    }
    out
}

/// A copy of the participant list that is known to carry the same records.
fn clone_players(info: &Vec<PlayerInfo>) -> (r: Vec<PlayerInfo>)
    ensures
        r@ == info@,
{
    let mut out: Vec<PlayerInfo> = Vec::new();
    let mut i: usize = 0;
    while i < info.len()
        invariant
            0 <= i <= info@.len(),
            out@ == info@.take(i as int),
        decreases info@.len() - i,
    {
        out.push(info[i].duplicate());
        proof {
            assert(out@ =~= info@.take(i + 1));
        }
        i = i + 1;
    }
    proof {
        assert(info@.take(info@.len() as int) =~= info@);
    }
    out
}

/// A copy of the bucket boundary list.
fn clone_range(range: &Vec<u8>) -> (r: Vec<u8>)
    ensures
        r@ == range@,
{
    let mut out: Vec<u8> = Vec::new();
    let mut i: usize = 0;
    while i < range.len()
        invariant
            0 <= i <= range@.len(),
            out@ == range@.take(i as int),
        decreases range@.len() - i,
    {
        out.push(range[i]);
        proof {
            assert(out@ =~= range@.take(i + 1));
        }
        i = i + 1;
    }
    proof {
        assert(range@.take(range@.len() as int) =~= range@);
    }
    out
}

/// A copy of the running hit-point list.
fn clone_points(hp: &Vec<u64>) -> (r: Vec<u64>)
    ensures
        r@ == hp@,
{
    let mut out: Vec<u64> = Vec::new();
    let mut i: usize = 0;
    while i < hp.len()
        invariant
            0 <= i <= hp@.len(),
            out@ == hp@.take(i as int),
        decreases hp@.len() - i,
    {
        out.push(hp[i]);
        proof {
            assert(out@ =~= hp@.take(i + 1));
        }
        i = i + 1;
    }
    proof {
        assert(hp@.take(hp@.len() as int) =~= hp@);
    }
    out
}

} // verus!
