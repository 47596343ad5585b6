//! Event-routing and data-aggregation core of a guild todo bot.
//!
//! The library keeps one shared todo list per team inside each guild,
//! routes inbound command and component interactions to handlers,
//! correlates the multi-step add workflow through short-lived sessions,
//! and renders the per-team report deterministically.

pub mod laws;
pub mod render;
pub mod respond;
pub mod router;
pub mod seqs;
pub mod session;
pub mod store;
pub mod team;
pub mod todo;

pub use respond::Response;
pub use router::Event;
pub use router::TodoBot;
pub use session::SessionStore;
pub use store::RepoError;
pub use store::TodoStore;
pub use team::Team;
pub use todo::Todo;
pub use todo::TodoView;
