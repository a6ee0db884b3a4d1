//! The rules of a note monitor.
//!
//! A server watches archives and broadcasts the text of those that change (`watch`, `relay`). A
//! client is linked to it (`link`), keeps the conversation (`dashboard`, `message`, `ids`,
//! `clock`), shows it (`screen`) and answers by updating notes at a router (`note`). What holds
//! of all this together is stated in `laws`; what one call of each operation gives, said of its
//! arguments and its result alone, in `operations`.
pub mod clock;
pub mod dashboard;
pub mod ids;
pub mod laws;
pub mod link;
pub mod message;
pub mod note;
pub mod operations;
pub mod relay;
pub mod screen;
pub mod text;
pub mod watch;
