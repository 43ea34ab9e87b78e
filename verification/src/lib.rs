pub mod chess_engine;
pub mod chess_renderer;
