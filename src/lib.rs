pub mod identity;
pub mod message;
pub mod mention;
pub mod walk;
pub mod history;
