use fantasy::AttackType;
use fantasy::Outbox;
use fantasy::apply_rule;
use fantasy::battle_turn_with_roll;
use fantasy::get_cluster_reducer;
use fantasy::is_winner;
use fantasy::process_dmg;
use fantasy::rule_critical;
use fantasy::rule_lucky;
use fantasy::rule_miss;
use fantasy::rule_standard;
use fantasy::PlayerInfo;

fn player(name: &str, energy: u64, power: u64) -> PlayerInfo {
    PlayerInfo {
        name: String::from(name),
        energy,
        power,
    }
}

#[test]
fn it_works() {
    assert_eq!(2 + 2, 4);
}

#[test]
fn lib_it_works() {
    assert_eq!(2 + 2, 4);
}

#[test]
fn regular_rule_standard_test() {
    let dmg = rule_standard(100);
    assert_eq!(dmg, 33);
}

#[test]
fn regular_rule_lucky_test() {
    let dmg = rule_lucky(120);
    assert_eq!(dmg, 48);
}

#[test]
fn regular_rule_critical_test() {
    let dmg = rule_critical(120);
    assert_eq!(dmg, 80);
}

#[test]
fn rule_miss_deals_nothing() {
    assert_eq!(rule_miss(0), 0);
    assert_eq!(rule_miss(1_000_000), 0);
}

#[test]
fn rule_formulas_on_more_values() {
    assert_eq!(rule_standard(0), 0);
    assert_eq!(rule_standard(10), 3);
    assert_eq!(rule_standard(u64::MAX), u64::MAX / 3);
    assert_eq!(rule_lucky(100), 33 + 33 / 5);
    assert_eq!(rule_critical(100), 66);
    assert_eq!(apply_rule(AttackType::Miss, 120), 0);
    assert_eq!(apply_rule(AttackType::Standard, 120), 40);
    assert_eq!(apply_rule(AttackType::Lucky, 120), 48);
    assert_eq!(apply_rule(AttackType::Critical, 120), 80);
    assert_eq!(apply_rule(AttackType::Undefined, 120), 0);
}

#[test]
fn damage_application_saturates_at_zero() {
    assert_eq!(process_dmg(&10, &3), 7);
    assert_eq!(process_dmg(&3, &10), 0);
    assert_eq!(process_dmg(&5, &5), 0);
    assert_eq!(process_dmg(&0, &0), 0);
    assert_eq!(process_dmg(&u64::MAX, &1), u64::MAX - 1);
}

#[test]
fn bucket_selection_default_boundaries() {
    let b: Vec<u8> = vec![15, 70, 96];
    assert_eq!(get_cluster_reducer(&b, 0), AttackType::Miss);
    assert_eq!(get_cluster_reducer(&b, 14), AttackType::Miss);
    assert_eq!(get_cluster_reducer(&b, 15), AttackType::Standard);
    assert_eq!(get_cluster_reducer(&b, 69), AttackType::Standard);
    assert_eq!(get_cluster_reducer(&b, 70), AttackType::Lucky);
    assert_eq!(get_cluster_reducer(&b, 95), AttackType::Lucky);
    assert_eq!(get_cluster_reducer(&b, 96), AttackType::Undefined);
    assert_eq!(get_cluster_reducer(&b, 99), AttackType::Undefined);
}

#[test]
fn bucket_selection_four_boundaries_reaches_critical() {
    let b: Vec<u8> = vec![15, 70, 96, 100];
    assert_eq!(get_cluster_reducer(&b, 96), AttackType::Critical);
    assert_eq!(get_cluster_reducer(&b, 99), AttackType::Critical);
}

#[test]
fn bucket_selection_short_boundary_list() {
    let b: Vec<u8> = vec![50];
    assert_eq!(get_cluster_reducer(&b, 10), AttackType::Miss);
    assert_eq!(get_cluster_reducer(&b, 50), AttackType::Undefined);
    let empty: Vec<u8> = vec![];
    assert_eq!(get_cluster_reducer(&empty, 0), AttackType::Undefined);
}

#[test]
fn bucket_selection_is_repeatable() {
    let b: Vec<u8> = vec![15, 70, 96];
    for roll in 0..100u8 {
        let first = get_cluster_reducer(&b, roll);
        let second = get_cluster_reducer(&b, roll);
        assert_eq!(first, second);
    }
}

#[test]
fn winner_detection() {
    let hp: Vec<u64> = vec![0, 5, 0];
    assert!(is_winner(&hp, 1));
    let hp: Vec<u64> = vec![5, 5];
    assert!(!is_winner(&hp, 0));
    let hp: Vec<u64> = vec![5, 0, 7];
    assert!(!is_winner(&hp, 0));
    let hp: Vec<u64> = vec![0, 0];
    assert!(is_winner(&hp, 0));
    let hp: Vec<u64> = vec![7];
    assert!(is_winner(&hp, 0));
}

#[test]
fn turn_with_miss_changes_nothing() {
    let range: Vec<u8> = vec![15, 70, 96];
    let info = vec![player("A", 100, 100), player("B", 100, 100)];
    let hp: Vec<u64> = vec![100, 100];
    let mut outbox = Outbox::new();
    let r = battle_turn_with_roll(&range, &info, &hp, 0, 10, &mut outbox);
    assert_eq!(r.hp, vec![100, 100]);
    assert_eq!(r.next_turn, 1);
    assert!(r.winner.is_none());
}

#[test]
fn turn_with_standard_hit() {
    let range: Vec<u8> = vec![15, 70, 96];
    let info = vec![player("A", 100, 100), player("B", 100, 100)];
    let hp: Vec<u64> = vec![100, 100];
    let mut outbox = Outbox::new();
    let r = battle_turn_with_roll(&range, &info, &hp, 0, 50, &mut outbox);
    assert_eq!(r.hp, vec![100, 67]);
    assert_eq!(r.next_turn, 1);
    assert!(r.winner.is_none());
}

#[test]
fn repeated_standard_hits_never_go_negative() {
    let range: Vec<u8> = vec![15, 70, 96];
    let info = vec![player("A", 100, 100), player("B", 100, 100)];
    let mut hp: Vec<u64> = vec![100, 100];
    for _ in 0..3 {
        let mut outbox = Outbox::new();
        let r = battle_turn_with_roll(&range, &info, &hp, 0, 50, &mut outbox);
        hp = r.hp;
    }
    assert_eq!(hp, vec![100, 1]);
    let mut outbox = Outbox::new();
    let r = battle_turn_with_roll(&range, &info, &hp, 0, 50, &mut outbox);
    assert_eq!(r.hp, vec![100, 0]);
    assert_eq!(r.winner, Some((0, 100)));
}

#[test]
fn turn_skips_fallen_participants_and_wraps() {
    let range: Vec<u8> = vec![15, 70, 96];
    let info = vec![
        player("A", 10, 30),
        player("B", 10, 30),
        player("C", 10, 30),
    ];
    // The middle participant is down: the attacker at 0 hits C, not B.
    let hp: Vec<u64> = vec![10, 0, 10];
    let mut outbox = Outbox::new();
    let r = battle_turn_with_roll(&range, &info, &hp, 0, 50, &mut outbox);
    assert_eq!(r.hp, vec![10, 0, 0]);
    // C fell to the hit; the turn wraps past the end back to A.
    assert_eq!(r.next_turn, 0);
    assert_eq!(r.winner, Some((0, 10)));

    // Wrapping defender selection: the attacker at the end hits A.
    let hp: Vec<u64> = vec![10, 0, 10];
    let mut outbox = Outbox::new();
    let r = battle_turn_with_roll(&range, &info, &hp, 2, 10, &mut outbox);
    assert_eq!(r.hp, vec![10, 0, 10]);
    assert_eq!(r.next_turn, 0);
    assert!(r.winner.is_none());
}

#[test]
fn dice_rolls_stay_below_one_hundred() {
    for _ in 0..1000 {
        assert!(fantasy::roll_dice() < 100);
    }
}

#[test]
fn random_turn_stays_within_the_rules() {
    let range: Vec<u8> = vec![15, 70, 96];
    let info = vec![player("A", 100, 100), player("B", 100, 100)];
    let hp: Vec<u64> = vec![100, 100];
    for _ in 0..50 {
        let mut outbox = Outbox::new();
        let r = fantasy::battle_turn(&range, &info, &hp, 0, &mut outbox);
        // The attacker is untouched; the defender takes the damage of
        // one of the reachable tiers: miss or undefined 0, standard 33,
        // lucky 39 (critical needs a fourth boundary).
        assert_eq!(r.hp[0], 100);
        assert!(matches!(r.hp[1], 100 | 67 | 61));
        assert_eq!(r.next_turn, 1);
        assert!(r.winner.is_none());
        let events = outbox.drain();
        assert!(events.len() == 1 || events.len() == 2);
    }
}

#[test]
fn turn_narration_names_attacker_and_defender() {
    let range: Vec<u8> = vec![15, 70, 96];
    let info = vec![player("A", 100, 100), player("B", 100, 100)];
    let hp: Vec<u64> = vec![100, 100];
    let mut outbox = Outbox::new();
    let _ = battle_turn_with_roll(&range, &info, &hp, 0, 50, &mut outbox);
    let events = outbox.drain();
    assert_eq!(events.len(), 2);
    assert_eq!(fantasy::render_action(&events[0]), "A atacou B");
    assert_eq!(fantasy::render_action(&events[1]), "Normal - 33 HP");
}

#[test]
fn undefined_tier_suppresses_outcome_narration() {
    let range: Vec<u8> = vec![15, 70, 96];
    let info = vec![player("A", 100, 100), player("B", 100, 100)];
    let hp: Vec<u64> = vec![100, 100];
    let mut outbox = Outbox::new();
    let r = battle_turn_with_roll(&range, &info, &hp, 0, 96, &mut outbox);
    assert_eq!(r.hp, vec![100, 100]);
    let events = outbox.drain();
    assert_eq!(events.len(), 1);
    assert_eq!(fantasy::render_action(&events[0]), "A atacou B");
}
