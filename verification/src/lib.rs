//! Request handling of a local clip server.
pub mod answer;
pub mod answer_laws;
pub mod ask;
pub mod ask_laws;
pub mod clip;
pub mod clip_laws;
pub mod clip_text_laws;
pub mod clock;
pub mod daemon;
pub mod http;
pub mod http_laws;
pub mod json;
pub mod laws;
pub mod lists;
pub mod project;
pub mod project_laws;
pub mod reply;
pub mod runs;
pub mod state;
pub mod state_laws;
pub mod text;
pub mod text_laws;
