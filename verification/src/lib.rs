//! A todo list with a local store and a last-writer-wins synchronisation
//! service, with every operation specified over a mathematical model of the
//! stored records.

pub mod error;
pub mod host;
pub mod local;
pub mod order;
pub mod priority;
pub mod request;
pub mod seqs;
pub mod server;
pub mod text;
pub mod time;

pub use error::StoreError;
pub use priority::Priority;
pub use time::Timestamp;
