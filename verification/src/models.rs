pub mod collection;
pub mod document;
pub mod error;
pub mod storage;
