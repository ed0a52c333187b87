use buckshot_roulette_gameplay_engine::game_players::{GamePlayers, MissingPlayerError};
use buckshot_roulette_gameplay_engine::game_session::{GameSession, NoRoundError};
use buckshot_roulette_gameplay_engine::item::{
    global_item_limit, initialize_item_count_map, player_item_limit, Item, NotAdreneline,
    UnaryItem,
};
use buckshot_roulette_gameplay_engine::loadout::{sequence_options, Loadout};
use buckshot_roulette_gameplay_engine::multiplayer_count::MultiplayerCount;
use buckshot_roulette_gameplay_engine::player::Player;
use buckshot_roulette_gameplay_engine::player_number::PlayerNumber;
use buckshot_roulette_gameplay_engine::round::RoundContinuation;
use buckshot_roulette_gameplay_engine::round_number::RoundNumber;
use buckshot_roulette_gameplay_engine::round_player::{AlreadyStunnedError, RoundPlayer, StunState};
use buckshot_roulette_gameplay_engine::round_start_info::RoundStartInfo;
use buckshot_roulette_gameplay_engine::seat::Seat;
use buckshot_roulette_gameplay_engine::shell::{Shell, ShellType, ShotgunDamage};
use buckshot_roulette_gameplay_engine::turn::{ItemUseResult, TakenAction};
use rand::rngs::StdRng;
use rand_chacha::ChaCha8Rng;
use rand::SeedableRng;

fn unary(u: UnaryItem) -> Item {
    Item::NotAdreneline(NotAdreneline::UnaryItem(u))
}

fn other(p: PlayerNumber) -> PlayerNumber {
    match p {
        PlayerNumber::One => PlayerNumber::Two,
        _ => PlayerNumber::One,
    }
}

#[test]
fn two_players_shooting_each_other_play_exactly_three_rounds() {
    let mut session: GameSession<StdRng> =
        GameSession::new(MultiplayerCount::Two, StdRng::seed_from_u64(11));
    for expected_round in [RoundNumber::One, RoundNumber::Two, RoundNumber::Three] {
        let mut ended = None;
        for _ in 0..200 {
            let round = session.round().unwrap();
            assert_eq!(round.number(), expected_round);
            assert_eq!(round.living_players().count(), 2);
            let shooter = round.next_player();
            let target = other(shooter);
            let outcome = session
                .with_turn(
                    |turn| turn.shoot(target),
                    |summary| match &summary.round_continuation {
                        RoundContinuation::RoundEnds(f) => {
                            Some((f.winner(), f.first_dead_player(), f.number()))
                        }
                        RoundContinuation::RoundContinues(_) => None,
                    },
                )
                .unwrap()
                .unwrap();
            if let Some((winner, first_dead, number)) = outcome {
                assert_eq!(winner, shooter);
                assert_eq!(first_dead, target);
                assert_eq!(number, expected_round);
                ended = Some(first_dead);
                break;
            }
        }
        let loser = ended.expect("the round should end");
        if expected_round != RoundNumber::Three {
            assert_eq!(session.round().unwrap().next_player(), loser);
        }
    }
    assert!(session.round().is_none());
    let total_wins: usize = session
        .players()
        .as_vec()
        .iter()
        .map(|p| p.wins().len())
        .sum();
    assert_eq!(total_wins, 3);
    let again = session.with_turn(|turn| turn.shoot(PlayerNumber::One), |_| ());
    assert_eq!(again.unwrap_err(), NoRoundError::NoRound);
    assert_eq!(NoRoundError::NoRound.message(), "No round is active");
}

#[test]
fn canonical_shell_combinations_for_two_players() {
    assert_eq!(
        sequence_options(MultiplayerCount::Two),
        vec![(1, 1), (1, 2), (2, 1), (2, 2), (2, 3), (3, 1), (3, 2), (3, 3), (4, 2)]
    );
    assert_eq!(sequence_options(MultiplayerCount::Four)[5], (3, 4));
    assert_eq!(sequence_options(MultiplayerCount::Three).len(), 10);
}

#[test]
fn drawn_loadouts_are_canonical() {
    let mut rng = StdRng::seed_from_u64(3);
    for count in [MultiplayerCount::Two, MultiplayerCount::Three, MultiplayerCount::Four] {
        let options = sequence_options(count);
        for _ in 0..50 {
            let loadout = Loadout::new(count, &mut rng);
            assert!(options.contains(&(loadout.initial_live_rounds, loadout.initial_blank_rounds)));
            let (low, high) = match count {
                MultiplayerCount::Three => (3, 5),
                _ => (2, 4),
            };
            assert!(low <= loadout.new_items && loadout.new_items <= high);
        }
    }
}

#[test]
fn item_limits_match_the_table() {
    assert_eq!(global_item_limit(unary(UnaryItem::Remote)), 2);
    assert_eq!(global_item_limit(unary(UnaryItem::Beer)), 32);
    assert_eq!(global_item_limit(Item::NotAdreneline(NotAdreneline::Jammer)), 1);
    assert_eq!(global_item_limit(Item::Adreneline), 32);
    assert_eq!(player_item_limit(unary(UnaryItem::Remote)), 1);
    assert_eq!(player_item_limit(unary(UnaryItem::Cigarettes)), 1);
    assert_eq!(player_item_limit(unary(UnaryItem::Handsaw)), 2);
    assert_eq!(player_item_limit(unary(UnaryItem::Inverter)), 4);
    assert_eq!(player_item_limit(unary(UnaryItem::Phone)), 8);
    assert_eq!(player_item_limit(Item::Adreneline), 4);
    assert_eq!(unary(UnaryItem::MagnifyingGlass).name(), "Magnifying Glass");
    for i in 0..9 {
        assert_eq!(Item::at_position(i).position(), i);
    }
}

#[test]
fn count_table_starts_at_zero_for_every_item() {
    let table = initialize_item_count_map();
    assert_eq!(table.len(), 9);
    for k in 0..9 {
        assert_eq!(table.get(&k), Some(&0));
    }
}

fn fresh_player(number: PlayerNumber, seed: u64) -> RoundPlayer {
    let mut rng = StdRng::seed_from_u64(seed);
    let info = RoundStartInfo::new(number, MultiplayerCount::Two, &mut rng);
    assert!(info.max_health() == 3 || info.max_health() == 4);
    assert_eq!(info.starting_player(), number);
    RoundPlayer::new(&Player::new(number), &info)
}

#[test]
fn item_pool_respects_caps_and_remote_rule() {
    let seat = Seat::new(fresh_player(PlayerNumber::One, 1));
    let mut table = initialize_item_count_map();
    table.insert(8, 1);
    assert_eq!(
        seat.item_pool(2, &table),
        vec![
            unary(UnaryItem::Phone),
            unary(UnaryItem::Inverter),
            unary(UnaryItem::MagnifyingGlass),
            unary(UnaryItem::Cigarettes),
            unary(UnaryItem::Handsaw),
            unary(UnaryItem::Beer),
            Item::Adreneline,
        ]
    );
    let fresh = initialize_item_count_map();
    let pool = seat.item_pool(3, &fresh);
    assert_eq!(pool.len(), 9);
    assert_eq!(pool[0], unary(UnaryItem::Remote));
    assert_eq!(pool[8], Item::NotAdreneline(NotAdreneline::Jammer));
}

#[test]
fn round_player_damage_heal_and_stun() {
    let mut player = fresh_player(PlayerNumber::Two, 5);
    let max = player.health();
    assert_eq!(player.player_number(), PlayerNumber::Two);
    assert!(!player.take_damage(false));
    assert_eq!(player.health(), max - 1);
    player.gain_health(5);
    assert_eq!(player.health(), max);
    assert!(player.take_damage(true) == (max - 2 == 0));
    assert!(player.take_damage(true));
    assert_eq!(player.health(), 0);

    let mut player = fresh_player(PlayerNumber::One, 6);
    assert_eq!(player.stun(), Ok(()));
    assert_eq!(player.stun_state(), StunState::Stunned);
    assert_eq!(player.stun(), Err(AlreadyStunnedError::AlreadyStunned));
    assert!(!player.update_stunned());
    assert_eq!(player.stun(), Err(AlreadyStunnedError::CantStunWhileRecovering));
    assert!(!player.update_stunned());
    assert_eq!(player.stun_state(), StunState::Unstunned);
    assert!(player.update_stunned());
}

#[test]
fn occupied_seat_takes_shots() {
    let mut seat = Seat::new(fresh_player(PlayerNumber::One, 9));
    let start = seat.player().unwrap().health();
    {
        let mut occupied = seat.create_occupied_seat().unwrap();
        assert_eq!(occupied.shoot(Shell::new(ShellType::Blank), true), ShotgunDamage::Blank);
        assert_eq!(
            occupied.shoot(Shell::new(ShellType::Live), false),
            ShotgunDamage::RegularShot(false)
        );
    }
    assert_eq!(seat.player().unwrap().health(), start - 1);
    let view = seat.create_view();
    assert_eq!(view.stun_state, Some(StunState::Unstunned));
    assert_eq!(view.player_number, PlayerNumber::One);
    assert!(view.items.is_empty());
}

#[test]
fn shell_inverts_and_fires() {
    let mut shell = Shell::new(ShellType::Live);
    shell.invert();
    assert_eq!(shell.shell_type(), ShellType::Blank);
    assert!(!shell.fire());
    assert!(Shell::new(ShellType::Live).fire());
}

#[test]
fn game_players_register_wins() {
    let mut players = GamePlayers::new(MultiplayerCount::Three);
    let numbers: Vec<PlayerNumber> = players.as_vec().iter().map(|p| p.number()).collect();
    assert_eq!(numbers, vec![PlayerNumber::One, PlayerNumber::Two, PlayerNumber::Three]);
    assert_eq!(
        players.register_win(PlayerNumber::Four, RoundNumber::One),
        Err(MissingPlayerError::MissingPlayer)
    );
    assert_eq!(players.register_win(PlayerNumber::Two, RoundNumber::One), Ok(()));
    assert_eq!(players.as_vec()[1].wins(), &vec![RoundNumber::One]);
    assert!(players.as_vec()[0].wins().is_empty());
    assert_eq!(players.multiplayer_count(), MultiplayerCount::Three);
}

#[test]
fn names_and_round_order() {
    assert_eq!(PlayerNumber::Three.name(), "Three");
    assert_eq!(MultiplayerCount::Four.name(), "4");
    assert_eq!(RoundNumber::Two.name(), "2");
    assert_eq!(RoundNumber::One.next(), Some(RoundNumber::Two));
    assert_eq!(RoundNumber::Three.next(), None);
    assert_eq!(PlayerNumber::from_seat_index(3), PlayerNumber::Four);
    assert_eq!(PlayerNumber::Four.seat_index(), 3);
}

#[test]
fn four_players_shooting_themselves_leave_one_winner_after_three_deaths() {
    let mut session: GameSession<StdRng> =
        GameSession::new(MultiplayerCount::Four, StdRng::seed_from_u64(42));
    let mut deaths = 0;
    let mut winner = None;
    for _ in 0..200 {
        let shooter = session.round().unwrap().next_player();
        let outcome = session
            .with_turn(
                |turn| turn.shoot(shooter),
                |summary| {
                    let damage = summary.shot_result.unwrap().damage;
                    let ended = match &summary.round_continuation {
                        RoundContinuation::RoundEnds(f) => Some(f.winner()),
                        RoundContinuation::RoundContinues(_) => None,
                    };
                    (damage, ended)
                },
            )
            .unwrap()
            .unwrap();
        match outcome.0 {
            ShotgunDamage::RegularShot(true) | ShotgunDamage::SawedShot(true) => deaths += 1,
            ShotgunDamage::Blank => {
                if outcome.1.is_none() {
                    assert_eq!(session.round().unwrap().next_player(), shooter);
                }
            }
            _ => {}
        }
        if let Some(w) = outcome.1 {
            assert_ne!(w, shooter);
            winner = Some(w);
            break;
        }
    }
    assert_eq!(deaths, 3);
    assert!(winner.is_some());
    assert_eq!(
        session.round().unwrap().number(),
        RoundNumber::Two
    );
}

#[test]
fn chacha_source_deals_canonical_rounds() {
    let mut rng = ChaCha8Rng::seed_from_u64(42);
    for _ in 0..20 {
        let info = RoundStartInfo::new(PlayerNumber::One, MultiplayerCount::Three, &mut rng);
        assert!(info.max_health() == 4 || info.max_health() == 5);
        assert_eq!(info.player_count(), MultiplayerCount::Three);
        let loadout = Loadout::new(MultiplayerCount::Three, &mut rng);
        assert!(sequence_options(MultiplayerCount::Three)
            .contains(&(loadout.initial_live_rounds, loadout.initial_blank_rounds)));
        assert!(3 <= loadout.new_items && loadout.new_items <= 5);
    }
    let session: GameSession<ChaCha8Rng> =
        GameSession::new(MultiplayerCount::Four, ChaCha8Rng::seed_from_u64(7));
    let round = session.round().unwrap();
    assert_eq!(round.living_players().count(), 4);
    assert!(!round.shells().is_empty());
    for seat in round.living_players() {
        let player = seat.player().unwrap();
        assert_eq!(player.health(), round.max_health());
        assert!(!seat.items().is_empty());
    }
}

fn play_round_two_shoots_self(session: &mut GameSession<ChaCha8Rng>, round_number: RoundNumber) {
    let mut won_round = false;
    let mut first_turn = true;
    for _ in 0..200 {
        let round = session.round().unwrap();
        assert_eq!(round.number(), round_number);
        assert_eq!(round.living_players().count(), 2);
        if round_number == RoundNumber::One && first_turn {
            assert_eq!(round.next_player(), PlayerNumber::One);
        }
        first_turn = false;
        for seat in round.living_players() {
            assert!(!seat.items().is_empty());
            let player = seat.player().unwrap();
            assert!(player.health() > 0);
            assert_eq!(player.stun_state(), StunState::Unstunned);
        }
        let shooter = round.next_player();
        let blank_at_self = session
            .with_turn(
                |turn| turn.shoot(PlayerNumber::Two),
                |summary| {
                    let damage = summary.shot_result.unwrap().damage;
                    match &summary.round_continuation {
                        RoundContinuation::RoundContinues(_) => {}
                        RoundContinuation::RoundEnds(finished_round) => {
                            assert_eq!(finished_round.winner(), PlayerNumber::One);
                            won_round = true;
                        }
                    }
                    damage == ShotgunDamage::Blank && shooter == PlayerNumber::Two
                },
            )
            .unwrap()
            .unwrap();
        if won_round {
            break;
        }
        // a blank fired at oneself keeps the turn; anything else passes it
        let next = session.round().unwrap().next_player();
        if blank_at_self {
            assert_eq!(next, PlayerNumber::Two);
        } else {
            assert_eq!(next, other(shooter));
        }
    }
    assert!(won_round);
    let player_one = session.players().as_vec()[0];
    let expected: Vec<RoundNumber> = [RoundNumber::One, RoundNumber::Two, RoundNumber::Three]
        .into_iter()
        .take(match round_number {
            RoundNumber::One => 1,
            RoundNumber::Two => 2,
            RoundNumber::Three => 3,
        })
        .collect();
    assert_eq!(player_one.wins(), &expected);
    match round_number {
        RoundNumber::One => assert_eq!(session.round().unwrap().number(), RoundNumber::Two),
        RoundNumber::Two => assert_eq!(session.round().unwrap().number(), RoundNumber::Three),
        RoundNumber::Three => assert!(session.round().is_none()),
    }
}

#[test]
fn player_two_shooting_only_themself_loses_every_round() {
    let rng: ChaCha8Rng = ChaCha8Rng::seed_from_u64(42);
    let mut session: GameSession<ChaCha8Rng> = GameSession::new(MultiplayerCount::Two, rng);
    play_round_two_shoots_self(&mut session, RoundNumber::One);
    play_round_two_shoots_self(&mut session, RoundNumber::Two);
    play_round_two_shoots_self(&mut session, RoundNumber::Three);
    assert!(session.round().is_none());
}

#[test]
fn cigarettes_heal_one_below_full_health_and_nothing_at_full() {
    let cigarettes = unary(UnaryItem::Cigarettes);
    let mut uses = 0;
    for seed in 0..20u64 {
        let mut session: GameSession<StdRng> =
            GameSession::new(MultiplayerCount::Two, StdRng::seed_from_u64(seed));
        for _ in 0..100 {
            if session.round().is_none() {
                break;
            }
            let max = session.round().unwrap().max_health();
            let outcome = session.with_turn(
                |turn| {
                    let target = other(turn.player().player_number());
                    if turn.items().contains(&cigarettes) {
                        let before = turn.player().health();
                        match turn.use_unary_item(UnaryItem::Cigarettes) {
                            TakenAction::Continued(c) => {
                                assert_eq!(*c.item_result(), Ok(ItemUseResult::Default));
                                let next = c.next_action();
                                let after = next.player().health();
                                assert!(after <= max);
                                if before < max {
                                    assert_eq!(after, before + 1);
                                } else {
                                    assert_eq!(after, before);
                                }
                                uses += 1;
                                next.shoot(target)
                            }
                            TakenAction::Terminal(_) => panic!("Cigs shouldn't be a terminal action"),
                        }
                    } else {
                        turn.shoot(target)
                    }
                },
                |summary| summary.shot_result.is_some(),
            );
            assert_eq!(outcome.unwrap(), Some(true));
        }
    }
    assert!(uses > 0);
}
