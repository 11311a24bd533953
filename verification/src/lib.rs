//! Chmodrt recursively changes the mode of directories or files. Numeric
//! modes must be an octal between one and four digits. Symbolic modes are
//! not supported.
//!
//! The library performs no input or output of its own. A run is a state
//! machine: it writes to in-memory streams and, whenever it needs the file
//! system or a line of input, hands a request to its caller and resumes once
//! the answer has been supplied.
pub mod answer;
pub mod config;
pub mod error;
pub mod mode;
pub mod opts;
pub mod program;
pub mod request;
pub mod state;
pub mod status;
pub mod stream;
pub mod text;
pub mod walk;
