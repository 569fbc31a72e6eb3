//! Naming colours: the two textual colour notations accepted on the command
//! line, the request sent to the naming service, and what is made of its
//! answer.

pub mod arguments;
pub mod color;
pub mod decimal;
pub mod error;
pub mod hexadecimal;
pub mod output;
pub mod resolver;
pub mod text;
pub mod triple;
