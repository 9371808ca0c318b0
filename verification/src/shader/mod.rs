pub mod glitch;
