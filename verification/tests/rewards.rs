use wager_escrow::config::GlobalConfig;
use wager_escrow::engine::Engine;
use wager_escrow::game::{GameSettings, Status};
use wager_escrow::identity::Identity;
use wager_escrow::lifecycle::settle;
use wager_escrow::reward::{refund_all, split, Payout, SplitStrategy};
use wager_escrow::roster::Roster;
use wager_escrow::token::{Payment, TokenId};

fn who(n: u8) -> Identity {
    Identity::new([n; 32])
}

fn amounts(payouts: &[Payout]) -> Vec<u128> {
    payouts.iter().map(|p| p.amount).collect()
}

fn engine(strategy: SplitStrategy) -> Engine {
    let config =
        GlobalConfig::init(who(1), Some(true), Some(1), Some(TokenId::new("VLD-76ecd8"))).unwrap();
    let mut engine = Engine::with_strategy(config, strategy);
    engine.set_admin(&who(1), who(9)).unwrap();
    engine
}

fn fee() -> Payment {
    Payment::new(TokenId::new("VLD-76ecd8"), 0, 1)
}

fn wager(amount: u128) -> Payment {
    Payment::new(TokenId::new("VLD-76ecd8"), 0, amount)
}

#[test]
fn default_strategy_is_equal() {
    assert_eq!(SplitStrategy::default(), SplitStrategy::Equal);
}

#[test]
fn equal_split_gives_the_rest_to_the_first() {
    let winners = vec![(who(1), 0), (who(2), 0), (who(3), 0)];
    let payouts = split(SplitStrategy::Equal, 10, &winners);
    assert_eq!(
        payouts,
        vec![
            Payout { to: who(1), amount: 4 },
            Payout { to: who(2), amount: 3 },
            Payout { to: who(3), amount: 3 },
        ]
    );
}

#[test]
fn equal_split_does_not_read_the_weights() {
    let winners = vec![(who(1), 7), (who(2), 1)];
    assert_eq!(amounts(&split(SplitStrategy::Equal, 10, &winners)), vec![5, 5]);
}

#[test]
fn equal_split_of_less_than_one_each() {
    let winners = vec![(who(1), 0), (who(2), 0), (who(3), 0)];
    assert_eq!(amounts(&split(SplitStrategy::Equal, 2, &winners)), vec![2, 0, 0]);
    assert_eq!(amounts(&split(SplitStrategy::Equal, 0, &winners)), vec![0, 0, 0]);
}

#[test]
fn single_winner_takes_all() {
    let winners = vec![(who(4), 0)];
    assert_eq!(
        split(SplitStrategy::Equal, 12345, &winners),
        vec![Payout { to: who(4), amount: 12345 }]
    );
    assert_eq!(
        split(SplitStrategy::Weighted, 12345, &winners),
        vec![Payout { to: who(4), amount: 12345 }]
    );
}

#[test]
fn weighted_split_by_units() {
    let winners = vec![(who(1), 1), (who(2), 3)];
    assert_eq!(amounts(&split(SplitStrategy::Weighted, 100, &winners)), vec![25, 75]);
    let winners = vec![(who(1), 2), (who(2), 1)];
    assert_eq!(amounts(&split(SplitStrategy::Weighted, 10, &winners)), vec![7, 3]);
}

#[test]
fn weighted_split_gives_the_rest_to_the_first_even_without_weight() {
    let winners = vec![(who(1), 0), (who(2), 1), (who(3), 2)];
    assert_eq!(amounts(&split(SplitStrategy::Weighted, 10, &winners)), vec![1, 3, 6]);
    let winners = vec![(who(1), 0), (who(2), 3)];
    assert_eq!(amounts(&split(SplitStrategy::Weighted, 10, &winners)), vec![0, 10]);
}

#[test]
fn weighted_split_without_any_weight_is_equal() {
    let winners = vec![(who(1), 0), (who(2), 0)];
    assert_eq!(amounts(&split(SplitStrategy::Weighted, 11, &winners)), vec![6, 5]);
}

#[test]
fn weighted_split_with_more_weight_than_pool() {
    let winners = vec![(who(1), 7), (who(2), 8)];
    assert_eq!(amounts(&split(SplitStrategy::Weighted, 10, &winners)), vec![5, 5]);
    let winners = vec![(who(1), 7000), (who(2), 3000)];
    assert_eq!(amounts(&split(SplitStrategy::Weighted, 100, &winners)), vec![70, 30]);
    assert_eq!(amounts(&split(SplitStrategy::Weighted, 1, &winners)), vec![1, 0]);
    assert_eq!(amounts(&split(SplitStrategy::Weighted, 3, &winners)), vec![3, 0]);
    assert_eq!(amounts(&split(SplitStrategy::Weighted, 4, &winners)), vec![3, 1]);
}

#[test]
fn weighted_split_with_more_weight_than_64_bits_is_equal() {
    let winners = vec![(who(1), u64::MAX), (who(2), 1)];
    assert_eq!(amounts(&split(SplitStrategy::Weighted, 100, &winners)), vec![50, 50]);
    let winners = vec![(who(1), u64::MAX - 1), (who(2), 1)];
    assert_eq!(amounts(&split(SplitStrategy::Weighted, u64::MAX.into(), &winners)), vec![
        u128::from(u64::MAX) - 1,
        1
    ]);
}

#[test]
fn split_of_the_largest_pool() {
    let winners = vec![(who(1), u64::MAX), (who(2), u64::MAX)];
    let half = u128::MAX / 2;
    assert_eq!(amounts(&split(SplitStrategy::Equal, u128::MAX, &winners)), vec![half + 1, half]);
    assert_eq!(
        amounts(&split(SplitStrategy::Weighted, u128::MAX, &winners)),
        vec![half + 1, half]
    );
    let winners = vec![(who(1), 1), (who(2), u64::MAX - 1)];
    let two_64: u128 = 1 << 64;
    assert_eq!(
        amounts(&split(SplitStrategy::Weighted, u128::MAX, &winners)),
        vec![two_64 + 1, u128::MAX - two_64 - 1]
    );
}

#[test]
fn split_uses_up_the_pool() {
    let winners = vec![(who(1), 5), (who(2), 0), (who(3), 11), (who(4), 2), (who(5), 1)];
    for pool in [0u128, 1, 17, 18, 19, 1000, 999_999_999_999] {
        for strategy in [SplitStrategy::Equal, SplitStrategy::Weighted] {
            let payouts = split(strategy, pool, &winners);
            assert_eq!(payouts.len(), winners.len());
            assert_eq!(amounts(&payouts).iter().sum::<u128>(), pool);
            for (payout, winner) in payouts.iter().zip(winners.iter()) {
                assert_eq!(payout.to, winner.0);
            }
        }
    }
}

#[test]
fn refund_gives_each_player_one_wager() {
    let mut players = Roster::new();
    players.insert(who(3));
    players.insert(who(1));
    assert_eq!(
        refund_all(9, &players),
        vec![Payout { to: who(3), amount: 9 }, Payout { to: who(1), amount: 9 }]
    );
    assert_eq!(refund_all(9, &Roster::new()), vec![]);
}

#[test]
fn settle_pays_the_winners_of_a_valid_game() {
    let mut engine = engine(SplitStrategy::Equal);
    let id = engine.create_game(&who(1), &fee(), 0, 10, 2, 3, 10).unwrap();
    engine.join_game(&who(2), &wager(10), 0, id).unwrap();
    engine.join_game(&who(3), &wager(10), 0, id).unwrap();
    engine.join_game(&who(4), &wager(10), 0, id).unwrap();
    let game: &GameSettings = engine.get_game_settings(id).unwrap();
    assert_eq!(game.status(), Status::Valid);
    assert_eq!(game.escrow(), 30);
    let winners = vec![(who(3), 1), (who(7), 3)];
    assert_eq!(
        settle(SplitStrategy::Equal, game, &winners),
        vec![Payout { to: who(3), amount: 15 }, Payout { to: who(7), amount: 15 }]
    );
    assert_eq!(
        settle(SplitStrategy::Weighted, game, &winners),
        vec![Payout { to: who(3), amount: 8 }, Payout { to: who(7), amount: 22 }]
    );
}

#[test]
fn settle_without_winners_pays_the_players_back() {
    let mut engine = engine(SplitStrategy::Equal);
    let id = engine.create_game(&who(1), &fee(), 0, 10, 1, 3, 10).unwrap();
    engine.join_game(&who(2), &wager(10), 0, id).unwrap();
    engine.join_game(&who(3), &wager(10), 0, id).unwrap();
    let game = engine.get_game_settings(id).unwrap();
    assert_eq!(game.status(), Status::Valid);
    assert_eq!(
        settle(SplitStrategy::Equal, game, &vec![]),
        vec![Payout { to: who(2), amount: 10 }, Payout { to: who(3), amount: 10 }]
    );
}

#[test]
fn settle_of_an_invalid_game_pays_the_players_back() {
    let mut engine = engine(SplitStrategy::Equal);
    let id = engine.create_game(&who(1), &fee(), 0, 10, 3, 3, 10).unwrap();
    engine.join_game(&who(2), &wager(10), 0, id).unwrap();
    engine.join_game(&who(1), &wager(10), 0, id).unwrap();
    let game = engine.get_game_settings(id).unwrap();
    assert_eq!(game.status(), Status::Invalid);
    let winners = vec![(who(5), 1)];
    assert_eq!(
        settle(SplitStrategy::Weighted, game, &winners),
        vec![Payout { to: who(2), amount: 10 }, Payout { to: who(1), amount: 10 }]
    );
}

#[test]
fn settle_of_a_game_without_players_pays_nothing() {
    let mut engine = engine(SplitStrategy::Equal);
    let id = engine.create_game(&who(1), &fee(), 0, 10, 1, 1, 10).unwrap();
    let payouts = engine.send_reward(&who(9), 11, id, &vec![(who(5), 1)]).unwrap();
    assert_eq!(payouts, vec![]);
    assert!(engine.get_game_settings(id).is_err());
}

#[test]
fn send_reward_splits_by_the_strategy_of_the_engine() {
    let mut engine = engine(SplitStrategy::Weighted);
    assert_eq!(engine.strategy(), SplitStrategy::Weighted);
    let id = engine.create_game(&who(1), &fee(), 0, 10, 2, 2, 50).unwrap();
    engine.join_game(&who(2), &wager(50), 0, id).unwrap();
    engine.join_game(&who(3), &wager(50), 10, id).unwrap();
    let winners = vec![(who(2), 7000), (who(3), 3000)];
    let payouts = engine.send_reward(&who(9), 11, id, &winners).unwrap();
    assert_eq!(
        payouts,
        vec![Payout { to: who(2), amount: 70 }, Payout { to: who(3), amount: 30 }]
    );
}
