//! Rules engine for a turn-based shell-roulette elimination game for two to four players.
//!
//! A match (`game_session`) plays three rounds (`round`). Each round deals loadouts of shells
//! and items (`loadout`, `seat`), hands the active player a `turn` in which items may be used
//! before a shot ends it, and settles shots, eliminations, stuns and the turn order. The
//! abstract state the contracts speak of, with its invariant and the rules of every item, is
//! in `round_model`. Randomness comes from a `random_source`, so a seeded generator replays a
//! match.
pub mod game_players;
pub mod game_session;
pub mod item;
pub mod loadout;
pub mod multiplayer_count;
pub mod player;
pub mod player_number;
pub mod random_source;
pub mod round;
pub mod round_model;
pub mod round_number;
pub mod round_player;
pub mod round_start_info;
pub mod seat;
pub mod shell;
pub mod turn;
