//! Conversation engine of an appointment bot: a service catalog that is
//! browsed as a tree, compact callback tokens that carry each choice through an
//! inline keyboard, and the per-conversation dialogue state they advance.

pub mod base58;
pub mod calendar;
pub mod decimal;
pub mod dialogue;
pub mod domain;
pub mod engine;
pub mod iso;
pub mod keyboard;
pub mod le;
pub mod token;
