pub mod board;
pub mod encoding;
pub mod policy;
pub mod reward;
pub mod selfplay;
