pub mod renderer;
pub mod bg1;
pub mod mode_0;
pub mod mode_1;
pub mod bg;
pub mod sprites;
