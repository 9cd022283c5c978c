//! Scanning a committed snapshot for marker lines and turning each line,
//! together with the commit that last touched it, into an output record.

pub mod csv;
pub mod model;
pub mod output;
pub mod pipeline;
pub mod record;
pub mod scanner;
pub mod text;
pub mod timefmt;
