pub mod basic_cursor_controller;
pub mod basic_line_controller;
pub mod cursor_controller;
pub mod keys;
pub mod lines_controller;
pub mod reader;
pub mod renderer;
pub mod state_controller;
pub mod states;
pub mod supabase;
pub mod text;
pub mod traits;
