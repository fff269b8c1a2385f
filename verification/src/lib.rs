pub mod clock;
pub mod dates;
pub mod debate;
pub mod debate_engine;
pub mod debate_norm;
pub mod debate_packet;
pub mod debate_text;
pub mod debate_turns;
pub mod notion;
pub mod paths;
pub mod providers;
pub mod records;
pub mod search;
pub mod settings;
pub mod stats;
pub mod store;
pub mod sync;
pub mod text;
pub mod util;

pub use settings::default_poll_interval;
