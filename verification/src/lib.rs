//! Runtime support core of a freestanding C library: textual integer
//! parsing, multibyte/code-unit conversion, allocation planning and the byte
//! string primitives, each with a machine-checked contract.

pub mod byteset;
pub mod ctype;
pub mod errno;
pub mod locale;
pub mod numeric;
pub mod signal;
pub mod stdlib;
pub mod string;
pub mod strtointeger;
pub mod support;
pub mod uchar;
