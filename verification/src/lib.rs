pub mod document;
pub mod filename;
pub mod numeral;
pub mod progress;
pub mod session;
