//! Continuing an unfinished turn of a conversation.
//!
//! A turn that was interrupted, or that failed, can be taken up again from its
//! durable history: the items it has produced stay, its terminal state is
//! cleared, and no user message is made up for it.
pub mod text;
pub mod rpc;
pub mod turn;
pub mod history;
pub mod thread_state;
pub mod paginated_turn_items;
pub mod recovery_plan;
pub mod continue_turn;
pub mod course;
pub mod client;
