pub mod bag;
pub mod codec;
pub mod board;
pub mod game_loop;
pub mod game_state;
pub mod grid;
pub mod highlight;
pub mod input;
pub mod lines;
pub mod modes;
pub mod history;
pub mod hold;
pub mod piece;
pub mod regions;
pub mod rng;
pub mod rotation;
pub mod scoring;
pub mod text;
