pub mod controls;
pub mod effects;
pub mod game;
pub mod score_text;
pub mod scoreboard;
pub mod screen_text;
pub mod shader;
pub mod sound;
pub mod sprites;
pub mod strings;
