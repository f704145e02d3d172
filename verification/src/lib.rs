//! Small verified exercises around an employee-directory command: a
//! whitespace tokenizer and four-token line parser, an insertion-ordered
//! mapping from departments to employees, and a handful of companion
//! exercises on enums, structs, generics, traits, and strings.

pub mod basics;
pub mod bistro;
pub mod directory;
pub mod enums;
pub mod generics;
pub mod parser;
pub mod restaurant;
pub mod shapes;
pub mod summaries;
pub mod words;
