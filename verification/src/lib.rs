//! Selection of fight-replay metadata: a desirability order on replay
//! records, top-k selection over a fetched candidate pool, and the small
//! text formats around it (game lists, display names).

pub mod compare;
pub mod display;
pub mod fightcade;
pub mod game_list;
pub mod text;
