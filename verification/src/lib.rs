//! A template-expansion engine for synthetic test data.
//!
//! A template is compiled once into a sequence of value-producing
//! generators; the compiled form is then invoked once per record index to
//! append one record to a byte sink.

pub mod compile;
pub mod corpus;
pub mod dates;
pub mod error;
pub mod gens;
pub mod laws;
pub mod num;
pub mod rnd;
pub mod util;

pub use compile::{parse, Options, Parser};
pub use corpus::{next_line, random_line};
pub use error::Error;
pub use gens::{
    BytesRnd, BytesSeq, Composite, DateRnd, DateSeq, EnumRnd, EnumSeq, FileRnd, FileSeq,
    Generator, Generust, IntRnd, IntSeq, Integer, IpV4, Phone, RowNum, Text, Timestamp, Uuid4,
};
