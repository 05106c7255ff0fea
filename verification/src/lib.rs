//! A fixed-size worker pool as a verified state machine: the work channel,
//! the workers, submission and the two passes of shutdown. Around it stand
//! the small verified pieces of the programs that use it or accompany it: the
//! pages a server answers with, a line search, a blog post's way to
//! publication, and a few more.

pub mod adder;
pub mod blog;
pub mod channel;
pub mod coins;
pub mod generics;
pub mod guessing_game;
pub mod gui;
pub mod hosting;
pub mod http;
pub mod minigrep;
pub mod pool;
pub mod pool_laws;
pub mod pool_model;
pub mod restaurant;
pub mod shapes;
pub mod shoes;
pub mod summary;
pub mod text;
pub mod workout;
