//! Game rules of the RPG raid shop, verified with Verus: player names,
//! factions, sprite animation, the client's bookkeeping of the server's
//! snapshot, the server's guest rules, and the decisions of the developer
//! task runner.

pub mod animation;
pub mod client_sync;
pub mod dev_tasks;
pub mod display_name;
pub mod dodge;
pub mod faction;
pub mod guests;
pub mod numbers;
pub mod text;
pub mod time_span;
