use fantasy::AppConfig;
use fantasy::EngineError;
use fantasy::EngineRequest;
use fantasy::Game;
use fantasy::GameEvent;
use fantasy::Mailbox;
use fantasy::Outbox;
use fantasy::PlayerInfo;
use fantasy::battle_announce;
use fantasy::battle_over;
use fantasy::battle_turn_with_roll;
use fantasy::battle_warm_up;
use fantasy::parse_player_info;
use fantasy::render_action;
use fantasy::resolve_config;

#[test]
fn default_config() {
    let c = AppConfig::default();
    assert_eq!(c.players, Some(2));
    assert_eq!(c.range, vec![15, 70, 96]);
}

#[test]
fn config_precedence() {
    let file = AppConfig {
        players: Some(3),
        range: vec![10, 20, 30],
    };
    let c = resolve_config(Some(file), None);
    assert_eq!(c.players, Some(3));
    assert_eq!(c.range, vec![10, 20, 30]);

    let file = AppConfig {
        players: None,
        range: vec![],
    };
    let c = resolve_config(Some(file), None);
    assert_eq!(c.players, Some(2));
    assert_eq!(c.range, vec![15, 70, 96]);

    let file = AppConfig {
        players: Some(3),
        range: vec![10, 20, 30],
    };
    let c = resolve_config(Some(file), Some(5));
    assert_eq!(c.players, Some(5));

    let c = resolve_config(None, None);
    assert_eq!(c.players, Some(2));
    assert_eq!(c.range, vec![15, 70, 96]);
}

#[test]
fn start_without_participant_count_fails() {
    let g = Game::start(AppConfig {
        players: None,
        range: vec![15, 70, 96],
    });
    assert!(matches!(g, Game::Error(EngineError::Configuration)));
}

#[test]
fn lineup_with_no_live_opponent_is_refused() {
    let config = AppConfig::default();
    let g = Game::start(config);
    let g = g.transition(GameEvent::PlayerInfoReceived(
        parse_player_info("A 0 10").unwrap(),
    ));
    // A record reply in warm-up is not what the state waits for.
    assert!(matches!(g, Game::Error(EngineError::Protocol)));

    let g = Game::start(AppConfig::default());
    let g = g.transition(GameEvent::WarmUpDone(false));
    let g = g.transition(GameEvent::PlayerInfoReceived(
        parse_player_info("A 0 10").unwrap(),
    ));
    let g = g.transition(GameEvent::WarmUpDone(false));
    let g = g.transition(GameEvent::PlayerInfoReceived(
        parse_player_info("B 5 10").unwrap(),
    ));
    let g = g.transition(GameEvent::WarmUpDone(true));
    assert!(matches!(g, Game::Error(EngineError::Lineup)));
}

#[test]
fn worker_failure_ends_the_contest() {
    let g = Game::start(AppConfig::default());
    let g = g.transition(GameEvent::Failed(EngineError::ChannelClosed));
    assert!(matches!(g, Game::Error(EngineError::ChannelClosed)));
    // The error state absorbs later replies unchanged.
    let g = g.transition(GameEvent::WarmUpDone(true));
    assert!(matches!(g, Game::Error(EngineError::ChannelClosed)));
}

/// Plays the rules worker for one request, with a scripted dice roll.
fn answer(req: &EngineRequest, dice: u8, outbox: &mut Outbox) -> GameEvent {
    match req {
        EngineRequest::RulesWarmUp(m) => GameEvent::WarmUpDone(battle_warm_up(
            m.players,
            m.current_players,
            outbox,
        )),
        EngineRequest::TransportPlayerInfo(_) => unreachable!("handled by the test body"),
        EngineRequest::RulesAnnounce(m) => {
            battle_announce(m.0.clone(), outbox);
            GameEvent::AnnounceDone
        }
        EngineRequest::RulesTurn(m) => {
            assert!(m.info.len() >= 1);
            assert!(m.hp.len() == m.info.len());
            assert!(m.turn < m.info.len());
            assert!(m.hp[m.turn] > 0);
            assert!(m
                .hp
                .iter()
                .enumerate()
                .any(|(j, h)| j != m.turn && *h > 0));
            GameEvent::TurnDone(battle_turn_with_roll(
                &m.range, &m.info, &m.hp, m.turn, dice, outbox,
            ))
        }
        EngineRequest::RulesWinner(m) => {
            battle_over(m.0.clone(), m.1, outbox);
            GameEvent::WinnerDone
        }
    }
}

#[test]
fn full_contest_with_scripted_rolls() {
    let records = ["A 100 100", "B 100 100"];
    let mut next_record: usize = 0;
    // Miss first, then standard hits back and forth until B falls.
    let rolls = [10, 50];
    let mut next_roll: usize = 0;
    let mut outbox = Outbox::new();
    let mut narration: Vec<String> = Vec::new();
    let mut g = Game::start(AppConfig::default());
    let mut steps: usize = 0;
    loop {
        steps += 1;
        assert!(steps < 100, "the contest must terminate");
        let event = match g.pending_request() {
            None => break,
            Some(EngineRequest::TransportPlayerInfo(_)) => {
                let record = parse_player_info(records[next_record]).unwrap();
                next_record += 1;
                GameEvent::PlayerInfoReceived(record)
            }
            Some(req) => {
                let dice = rolls[next_roll % rolls.len()];
                if matches!(req, EngineRequest::RulesTurn(_)) {
                    next_roll += 1;
                }
                answer(&req, dice, &mut outbox)
            }
        };
        for e in outbox.drain() {
            narration.push(render_action(&e));
        }
        g = g.transition(event);
    }
    assert!(matches!(g, Game::Finished));
    assert_eq!(
        narration,
        vec![
            String::from("Entre o personagem 1"),
            String::from("Entre o personagem 2"),
            String::from("O jogo começou"),
            String::from("Batalha entre [A, B]"),
            // roll 10: A misses B
            String::from("A atacou B"),
            String::from("Errou ! - 0 HP"),
            // roll 50: B hits A for 33 (100 -> 67)
            String::from("B atacou A"),
            String::from("Normal - 33 HP"),
            // roll 10: A misses... the script alternates 10, 50
            String::from("A atacou B"),
            String::from("Errou ! - 0 HP"),
            String::from("B atacou A"),
            String::from("Normal - 33 HP"),
            String::from("A atacou B"),
            String::from("Errou ! - 0 HP"),
            String::from("B atacou A"),
            String::from("Normal - 33 HP"),
            String::from("A atacou B"),
            String::from("Errou ! - 0 HP"),
            // roll 50: B hits A for 33 (1 -> 0): B wins with 100 left
            String::from("B atacou A"),
            String::from("Normal - 33 HP"),
            String::from("Jogo acabou, o vencedor foi B com HP restante de 100"),
        ]
    );
}

#[test]
fn outbox_delivers_in_emission_order() {
    let mut outbox = Outbox::new();
    battle_warm_up(2, 0, &mut outbox);
    battle_announce(vec![String::from("A")], &mut outbox);
    battle_over(String::from("A"), 7, &mut outbox);
    let lines: Vec<String> = outbox.drain().iter().map(render_action).collect();
    assert_eq!(
        lines,
        vec![
            String::from("Entre o personagem 1"),
            String::from("O jogo começou"),
            String::from("Batalha entre [A]"),
            String::from("Jogo acabou, o vencedor foi A com HP restante de 7"),
        ]
    );
    assert_eq!(outbox.len(), 0);
}

#[test]
fn warm_up_counts() {
    let mut outbox = Outbox::new();
    assert!(!battle_warm_up(2, 0, &mut outbox));
    assert!(!battle_warm_up(2, 1, &mut outbox));
    assert!(battle_warm_up(2, 2, &mut outbox));
    assert_eq!(outbox.len(), 2);
}

#[test]
fn bounded_mailbox_drops_when_full_and_keeps_order() {
    let mut mb: Mailbox<u32> = Mailbox::new(2);
    assert!(mb.send(1));
    assert!(mb.send(2));
    // Full: the third message is rejected, not queued.
    assert!(!mb.send(3));
    assert_eq!(mb.len(), 2);
    // First in, first out.
    assert_eq!(mb.recv(), Some(1));
    assert!(mb.send(4));
    assert_eq!(mb.recv(), Some(2));
    assert_eq!(mb.recv(), Some(4));
    assert_eq!(mb.recv(), None);
}

#[test]
fn each_live_state_has_exactly_one_pending_request() {
    let g = Game::start(AppConfig::default());
    match g.pending_request() {
        Some(EngineRequest::RulesWarmUp(m)) => {
            assert_eq!(m.players, 2);
            assert_eq!(m.current_players, 0);
        }
        other => panic!("warm-up expected, got {:?}", other.is_some()),
    }
    let g = g.transition(GameEvent::WarmUpDone(false));
    assert!(matches!(
        g.pending_request(),
        Some(EngineRequest::TransportPlayerInfo(_))
    ));
    let g = g.transition(GameEvent::Failed(EngineError::ChannelClosed));
    assert!(g.pending_request().is_none());
}

#[test]
fn config_duplicate_keeps_the_values() {
    let c = AppConfig::default();
    let d = c.duplicate();
    assert_eq!(d.players, c.players);
    assert_eq!(d.range, c.range);
}

#[test]
fn player_info_duplicate_keeps_the_record() {
    let p = PlayerInfo {
        name: String::from("A"),
        energy: 3,
        power: 4,
    };
    let q = p.duplicate();
    assert_eq!(q.name, "A");
    assert_eq!(q.energy, 3);
    assert_eq!(q.power, 4);
}
