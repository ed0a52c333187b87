use buckshot_roulette_gameplay_engine::game_players::GamePlayers;
use buckshot_roulette_gameplay_engine::item::{Item, NotAdreneline, UnaryItem};
use buckshot_roulette_gameplay_engine::multiplayer_count::MultiplayerCount;
use buckshot_roulette_gameplay_engine::player_number::PlayerNumber;
use buckshot_roulette_gameplay_engine::random_source::RandomSource;
use buckshot_roulette_gameplay_engine::round::{
    FinishedRoundOrRng, Round, RoundContinuation, ShotResult, TurnContinuation, TurnSummary,
};
use buckshot_roulette_gameplay_engine::round_player::StunState;
use buckshot_roulette_gameplay_engine::shell::{ShellType, ShotgunDamage};
use buckshot_roulette_gameplay_engine::turn::{
    ContinuedTurn, InvalidItemUseError, ItemUseResult, LearnedShell, ShotgunRackResult,
    TakenAction, TerminalAction,
};

/// A random source that replays a fixed list of values, then zeros.
struct ScriptedRng {
    script: Vec<usize>,
    pos: usize,
}

impl ScriptedRng {
    fn new(script: &[usize]) -> Self {
        ScriptedRng {
            script: script.to_vec(),
            pos: 0,
        }
    }

    fn next_value(&mut self) -> usize {
        let v = self.script.get(self.pos).copied().unwrap_or(0);
        self.pos += 1;
        v
    }
}

impl RandomSource for ScriptedRng {
    fn index_in(&mut self, low: usize, high: usize) -> usize {
        low + self.next_value() % (high - low)
    }

    fn health_in(&mut self, low: i32, high: i32) -> i32 {
        low + (self.next_value() as i32) % (high - low)
    }

    fn coin(&mut self) -> bool {
        self.next_value() % 2 == 1
    }
}

fn unary(u: UnaryItem) -> Item {
    Item::NotAdreneline(NotAdreneline::UnaryItem(u))
}

fn round_of(count: MultiplayerCount, script: &[usize]) -> Round<ScriptedRng> {
    let players = GamePlayers::new(count);
    Round::new(&players, FinishedRoundOrRng::Rng(ScriptedRng::new(script)))
}

fn expect_continued(action: TakenAction<ScriptedRng>) -> ContinuedTurn<ScriptedRng> {
    match action {
        TakenAction::Continued(c) => c,
        TakenAction::Terminal(_) => panic!("the turn should go on"),
    }
}

fn continued_round(summary: TurnSummary<ScriptedRng>) -> (TurnContinuation, Round<ScriptedRng>) {
    match summary.round_continuation {
        RoundContinuation::RoundContinues(c) => (c.turn_continuation, c.round),
        RoundContinuation::RoundEnds(_) => panic!("the round should go on"),
    }
}

fn health_of(round: &Round<ScriptedRng>, seat: usize) -> i32 {
    round.seats()[seat].player().unwrap().health()
}

fn stun_of(round: &Round<ScriptedRng>, seat: usize) -> StunState {
    round.seats()[seat].player().unwrap().stun_state()
}

// Two players, health 3, one live then one blank shell; every item draw is an index into the
// pool [Phone, Inverter, Magnifying Glass, Cigarettes, Handsaw, Beer, Adrenaline, Jammer].

#[test]
fn scripted_round_deals_the_scripted_loadout() {
    let round = round_of(MultiplayerCount::Two, &[0, 0, 0, 5, 0, 4, 3, 0]);
    assert_eq!(round.max_health(), 3);
    assert_eq!(round.next_player(), PlayerNumber::One);
    assert_eq!(round.shells().len(), 2);
    assert_eq!(round.shells()[0].shell_type(), ShellType::Live);
    assert_eq!(round.shells()[1].shell_type(), ShellType::Blank);
    assert_eq!(
        round.seats()[0].items(),
        &vec![unary(UnaryItem::Beer), unary(UnaryItem::Handsaw)]
    );
    assert_eq!(
        round.seats()[1].items(),
        &vec![unary(UnaryItem::Phone), unary(UnaryItem::Cigarettes)]
    );
    assert_eq!(round.first_dead_player(), None);
    assert!(!round.game_modifiers().turn_order_inverted);
}

#[test]
fn beer_ejects_exactly_one_shell() {
    let round = round_of(MultiplayerCount::Two, &[0, 0, 0, 5, 0, 5, 0, 0]);
    let mut seen = Vec::new();
    let summary = round.with_turn(|turn| {
        let before = turn.shell_count();
        let first = expect_continued(turn.use_unary_item(UnaryItem::Beer));
        seen.push((before, *first.item_result()));
        let turn = first.next_action();
        let after = turn.shell_count();
        seen.push((after, Ok(ItemUseResult::Default)));
        turn.use_unary_item(UnaryItem::Beer)
    });
    assert_eq!(seen[0].0, 2);
    assert_eq!(
        seen[0].1,
        Ok(ItemUseResult::ShotgunRacked(ShotgunRackResult {
            empty: false,
            ejected_shell_type: ShellType::Live,
        }))
    );
    assert_eq!(seen[1].0, 1);
    assert!(summary.shot_result.is_none());
    let (continuation, round) = continued_round(summary);
    assert_eq!(continuation, TurnContinuation::LoadoutEnds(PlayerNumber::Two));
    assert_eq!(round.next_player(), PlayerNumber::Two);
    assert!(!round.shells().is_empty());
    assert_eq!(health_of(&round, 0), 3);
    assert_eq!(health_of(&round, 1), 3);
}

#[test]
fn beer_on_last_shell_ends_the_turn() {
    let round = round_of(MultiplayerCount::Two, &[0, 0, 0, 5, 0, 5, 0, 0]);
    let mut action = None;
    let summary = round.with_turn(|turn| {
        let turn = expect_continued(turn.use_unary_item(UnaryItem::Beer)).next_action();
        let taken = turn.use_unary_item(UnaryItem::Beer);
        if let TakenAction::Terminal(t) = &taken {
            action = Some(t.action());
        }
        taken
    });
    assert_eq!(
        action,
        Some(TerminalAction::Item(ItemUseResult::ShotgunRacked(
            ShotgunRackResult {
                empty: true,
                ejected_shell_type: ShellType::Blank,
            }
        )))
    );
    let (continuation, round) = continued_round(summary);
    assert_eq!(continuation, TurnContinuation::LoadoutEnds(PlayerNumber::Two));
    assert!(!round.shells().is_empty());
    assert_eq!(round.next_player(), PlayerNumber::Two);
}

#[test]
fn cigarettes_at_full_health_change_nothing() {
    let round = round_of(MultiplayerCount::Two, &[0, 0, 0, 3, 0, 0, 0, 0]);
    let mut seen = Vec::new();
    let summary = round.with_turn(|turn| {
        let before = turn.player().health();
        let c = expect_continued(turn.use_unary_item(UnaryItem::Cigarettes));
        let result = *c.item_result();
        let turn = c.next_action();
        seen.push((before, turn.player().health(), result, turn.items().clone()));
        TakenAction::Continued(expect_continued(turn.use_unary_item(UnaryItem::Cigarettes)))
    });
    let (before, after, result, items) = &seen[0];
    assert_eq!(*before, 3);
    assert_eq!(*after, 3);
    assert_eq!(*result, Ok(ItemUseResult::Default));
    assert_eq!(items, &vec![unary(UnaryItem::Phone)]);
    let (continuation, round) = continued_round(summary);
    assert_eq!(continuation, TurnContinuation::TurnOpen);
    assert_eq!(round.next_player(), PlayerNumber::One);
    assert_eq!(health_of(&round, 0), 3);
}

#[test]
fn second_handsaw_is_refused_and_sawn_shot_deals_two() {
    let round = round_of(MultiplayerCount::Two, &[0, 0, 0, 4, 0, 4, 0, 0]);
    let mut seen = Vec::new();
    let summary = round.with_turn(|turn| {
        let c = expect_continued(turn.use_unary_item(UnaryItem::Handsaw));
        seen.push(*c.item_result());
        let turn = c.next_action();
        assert!(turn.sawn());
        let c = expect_continued(turn.use_unary_item(UnaryItem::Handsaw));
        seen.push(*c.item_result());
        let turn = c.next_action();
        assert_eq!(turn.items(), &vec![unary(UnaryItem::Handsaw)]);
        turn.shoot(PlayerNumber::Two)
    });
    assert_eq!(seen[0], Ok(ItemUseResult::Default));
    assert_eq!(seen[1], Err(InvalidItemUseError::DoubleSaw));
    assert_eq!(
        summary.shot_result,
        Some(ShotResult {
            target_player: PlayerNumber::Two,
            damage: ShotgunDamage::SawedShot(false),
        })
    );
    let (continuation, round) = continued_round(summary);
    assert_eq!(continuation, TurnContinuation::LoadoutContinues);
    assert_eq!(health_of(&round, 1), 1);
    assert!(!round.game_modifiers().shotgun_sawn);
    assert_eq!(round.next_player(), PlayerNumber::Two);
}

#[test]
fn missing_items_are_refused() {
    let round = round_of(MultiplayerCount::Two, &[0, 0, 0, 0, 0, 0, 0, 0]);
    let mut seen = Vec::new();
    let _ = round.with_turn(|turn| {
        let c = expect_continued(turn.use_unary_item(UnaryItem::Remote));
        seen.push(*c.item_result());
        let c = expect_continued(c.next_action().use_jammer(PlayerNumber::Two));
        seen.push(*c.item_result());
        let c = expect_continued(
            c.next_action()
                .use_adreneline(PlayerNumber::Two, UnaryItem::Phone),
        );
        seen.push(*c.item_result());
        c.next_action().shoot(PlayerNumber::Two)
    });
    assert_eq!(
        seen,
        vec![
            Err(InvalidItemUseError::NoItem),
            Err(InvalidItemUseError::NoItem),
            Err(InvalidItemUseError::NoItem),
        ]
    );
}

#[test]
fn jammer_stuns_once_and_skips_two_turns() {
    let round = round_of(MultiplayerCount::Two, &[0, 0, 0, 7, 0, 6, 0, 0]);
    let mut seen = Vec::new();
    let summary = round.with_turn(|turn| {
        let c = expect_continued(turn.use_jammer(PlayerNumber::One));
        seen.push(*c.item_result());
        let c = expect_continued(c.next_action().use_jammer(PlayerNumber::Three));
        seen.push(*c.item_result());
        let c = expect_continued(c.next_action().use_jammer(PlayerNumber::Two));
        seen.push(*c.item_result());
        let turn = c.next_action();
        assert_eq!(turn.other_seats()[0].stun_state, Some(StunState::Stunned));
        let c = expect_continued(turn.use_jammer(PlayerNumber::Two));
        seen.push(*c.item_result());
        let c = expect_continued(
            c.next_action()
                .use_adreneline_then_jammer(PlayerNumber::Two, PlayerNumber::Two),
        );
        seen.push(*c.item_result());
        let turn = c.next_action();
        assert_eq!(turn.items(), &vec![Item::Adreneline]);
        turn.shoot(PlayerNumber::Two)
    });
    assert_eq!(
        seen,
        vec![
            Err(InvalidItemUseError::InvalidStunTarget),
            Err(InvalidItemUseError::InvalidStunTarget),
            Ok(ItemUseResult::StunnedPlayer(PlayerNumber::Two)),
            Err(InvalidItemUseError::DoubleStun),
            Err(InvalidItemUseError::DoubleStun),
        ]
    );
    let (continuation, round) = continued_round(summary);
    assert_eq!(continuation, TurnContinuation::LoadoutContinues);
    assert_eq!(health_of(&round, 1), 2);
    assert_eq!(stun_of(&round, 1), StunState::Recovering);
    assert_eq!(round.next_player(), PlayerNumber::One);

    let summary = round.with_turn(|turn| turn.shoot(PlayerNumber::Two));
    assert_eq!(
        summary.shot_result,
        Some(ShotResult {
            target_player: PlayerNumber::Two,
            damage: ShotgunDamage::Blank,
        })
    );
    let (continuation, round) = continued_round(summary);
    assert_eq!(continuation, TurnContinuation::LoadoutEnds(PlayerNumber::One));
    assert_eq!(stun_of(&round, 1), StunState::Unstunned);
    assert_eq!(round.next_player(), PlayerNumber::One);
}

#[test]
fn adrenaline_steals_and_uses_an_item() {
    let round = round_of(MultiplayerCount::Two, &[0, 0, 0, 6, 5, 0, 0, 0]);
    let mut seen = Vec::new();
    let summary = round.with_turn(|turn| {
        let c = expect_continued(turn.use_adreneline(PlayerNumber::Two, UnaryItem::Cigarettes));
        seen.push(*c.item_result());
        let c = expect_continued(
            c.next_action()
                .use_adreneline(PlayerNumber::One, UnaryItem::Phone),
        );
        seen.push(*c.item_result());
        let c = expect_continued(
            c.next_action()
                .use_adreneline_then_jammer(PlayerNumber::Two, PlayerNumber::Two),
        );
        seen.push(*c.item_result());
        let c = expect_continued(c.next_action().use_adreneline(PlayerNumber::Two, UnaryItem::Beer));
        seen.push(*c.item_result());
        let turn = c.next_action();
        assert_eq!(turn.items(), &vec![unary(UnaryItem::Phone)]);
        assert_eq!(turn.other_seats()[0].items, vec![unary(UnaryItem::Phone)]);
        assert_eq!(turn.shell_count(), 1);
        turn.shoot(PlayerNumber::Two)
    });
    assert_eq!(
        seen,
        vec![
            Err(InvalidItemUseError::BadAdrenelineTarget),
            Err(InvalidItemUseError::BadAdrenelineTarget),
            Err(InvalidItemUseError::BadAdrenelineTarget),
            Ok(ItemUseResult::ShotgunRacked(ShotgunRackResult {
                empty: false,
                ejected_shell_type: ShellType::Live,
            })),
        ]
    );
    assert_eq!(
        summary.shot_result,
        Some(ShotResult {
            target_player: PlayerNumber::Two,
            damage: ShotgunDamage::Blank,
        })
    );
}

#[test]
fn phone_reveals_from_the_third_shell_and_glass_the_first() {
    // five shells: live, live, blank, blank, blank; the phone draws index 3
    let round = round_of(MultiplayerCount::Two, &[0, 4, 0, 0, 0, 2, 0, 0, 0, 1]);
    assert_eq!(round.shells().len(), 5);
    let mut seen = Vec::new();
    let _ = round.with_turn(|turn| {
        let c = expect_continued(turn.use_unary_item(UnaryItem::Phone));
        seen.push(*c.item_result());
        let c = expect_continued(c.next_action().use_unary_item(UnaryItem::MagnifyingGlass));
        seen.push(*c.item_result());
        c.next_action().shoot(PlayerNumber::Two)
    });
    assert_eq!(
        seen,
        vec![
            Ok(ItemUseResult::LearnedShell(LearnedShell {
                relative_index: 3,
                shell_type: ShellType::Blank,
            })),
            Ok(ItemUseResult::LearnedShell(LearnedShell {
                relative_index: 0,
                shell_type: ShellType::Live,
            })),
        ]
    );
}

#[test]
fn phone_reveals_nothing_with_two_shells() {
    let round = round_of(MultiplayerCount::Two, &[0, 0, 0, 0, 0, 0, 0, 0]);
    let mut seen = Vec::new();
    let _ = round.with_turn(|turn| {
        let c = expect_continued(turn.use_unary_item(UnaryItem::Phone));
        seen.push(*c.item_result());
        c.next_action().shoot(PlayerNumber::Two)
    });
    assert_eq!(seen, vec![Ok(ItemUseResult::Default)]);
}

#[test]
fn blank_at_self_keeps_the_turn() {
    // the inverter turns the live front shell into a blank
    let round = round_of(MultiplayerCount::Two, &[0, 0, 0, 1, 0, 0, 0, 0]);
    let summary = round.with_turn(|turn| {
        let c = expect_continued(turn.use_unary_item(UnaryItem::Inverter));
        assert_eq!(*c.item_result(), Ok(ItemUseResult::Default));
        c.next_action().shoot(PlayerNumber::One)
    });
    assert_eq!(
        summary.shot_result,
        Some(ShotResult {
            target_player: PlayerNumber::One,
            damage: ShotgunDamage::Blank,
        })
    );
    let (continuation, round) = continued_round(summary);
    assert_eq!(continuation, TurnContinuation::LoadoutContinues);
    assert_eq!(round.next_player(), PlayerNumber::One);
    assert_eq!(health_of(&round, 0), 3);
    assert_eq!(round.shells().len(), 1);
}

#[test]
fn live_at_self_passes_the_turn() {
    let round = round_of(MultiplayerCount::Two, &[0, 0, 0, 0, 0, 0, 0, 0]);
    let summary = round.with_turn(|turn| turn.shoot(PlayerNumber::One));
    assert_eq!(
        summary.shot_result,
        Some(ShotResult {
            target_player: PlayerNumber::One,
            damage: ShotgunDamage::RegularShot(false),
        })
    );
    let (_, round) = continued_round(summary);
    assert_eq!(health_of(&round, 0), 2);
    assert_eq!(round.next_player(), PlayerNumber::Two);
}

#[test]
fn remote_reverses_the_turn_order() {
    // three players, health 4: the Remote comes first in their pool
    let round = round_of(MultiplayerCount::Three, &[0, 0, 0, 0, 0, 0, 0, 0, 0, 0, 0, 0, 0]);
    assert_eq!(round.max_health(), 4);
    assert_eq!(round.seats()[0].items()[0], unary(UnaryItem::Remote));
    assert_eq!(round.seats()[2].items()[0], unary(UnaryItem::Phone));
    let summary = round.with_turn(|turn| {
        let c = expect_continued(turn.use_unary_item(UnaryItem::Remote));
        let turn = c.next_action();
        assert!(turn.turn_order_inverted());
        turn.shoot(PlayerNumber::Two)
    });
    let (_, round) = continued_round(summary);
    assert!(round.game_modifiers().turn_order_inverted);
    assert_eq!(round.next_player(), PlayerNumber::Three);
    assert_eq!(health_of(&round, 1), 3);
}

#[test]
fn jammed_player_is_skipped_in_three_player_order() {
    // player one holds the Jammer (last in the three-player pool)
    let round = round_of(MultiplayerCount::Three, &[0, 0, 0, 8, 0, 0, 0, 0, 0, 0, 0, 0, 0]);
    let summary = round.with_turn(|turn| {
        let c = expect_continued(turn.use_jammer(PlayerNumber::Two));
        assert_eq!(
            *c.item_result(),
            Ok(ItemUseResult::StunnedPlayer(PlayerNumber::Two))
        );
        c.next_action().shoot(PlayerNumber::Three)
    });
    let (_, round) = continued_round(summary);
    assert_eq!(round.next_player(), PlayerNumber::Three);
    assert_eq!(stun_of(&round, 1), StunState::Recovering);
}

#[test]
fn killing_shot_records_the_first_dead_and_ends_two_player_round() {
    // health 3; four live shells, then two blanks
    let players = GamePlayers::new(MultiplayerCount::Two);
    let mut round = Round::new(
        &players,
        FinishedRoundOrRng::Rng(ScriptedRng::new(&[0, 8, 0, 0, 0, 0, 0, 0, 0, 0, 0])),
    );
    assert_eq!(round.shells().len(), 6);
    let shots = [
        (PlayerNumber::Two, 2, 3),
        (PlayerNumber::One, 2, 2),
        (PlayerNumber::Two, 1, 2),
        (PlayerNumber::One, 1, 1),
        (PlayerNumber::Two, 1, 1),
        (PlayerNumber::Two, 1, 1),
    ];
    for (target, two_health, one_health) in shots {
        let summary = round.with_turn(|turn| turn.shoot(target));
        let (_, next) = continued_round(summary);
        round = next;
        assert_eq!(health_of(&round, 1), two_health);
        assert_eq!(health_of(&round, 0), one_health);
        assert_eq!(round.first_dead_player(), None);
    }
    // the blank player two fired at themself kept the turn, and emptied the queue
    assert_eq!(round.next_player(), PlayerNumber::Two);
    assert_eq!(round.shells()[0].shell_type(), ShellType::Live);
    let summary = round.with_turn(|turn| turn.shoot(PlayerNumber::One));
    assert_eq!(
        summary.shot_result,
        Some(ShotResult {
            target_player: PlayerNumber::One,
            damage: ShotgunDamage::RegularShot(true),
        })
    );
    let finished = match summary.round_continuation {
        RoundContinuation::RoundEnds(f) => f,
        RoundContinuation::RoundContinues(_) => panic!("the round should end"),
    };
    assert_eq!(finished.winner(), PlayerNumber::Two);
    assert_eq!(finished.first_dead_player(), PlayerNumber::One);
    assert_eq!(
        finished.number(),
        buckshot_roulette_gameplay_engine::round_number::RoundNumber::One
    );
    let next = Round::new(&players, FinishedRoundOrRng::FinishedRound(finished));
    assert_eq!(
        next.number(),
        buckshot_roulette_gameplay_engine::round_number::RoundNumber::Two
    );
    assert_eq!(next.next_player(), PlayerNumber::One);
    assert_eq!(next.first_dead_player(), None);
    assert_eq!(health_of(&next, 0), next.max_health());
    assert_eq!(health_of(&next, 1), next.max_health());
}
