//! What holds of the service as a whole.

pub mod batches;
pub mod calls;
pub mod columns;
pub mod csv;
pub mod inputs;
pub mod lines;
pub mod maps;
pub mod media;
pub mod models;
pub mod numbers;
pub mod parity;
pub mod records;
pub mod replies;
pub mod requests;
pub mod rows;
pub mod tensors;
pub mod texts;
pub mod views;
