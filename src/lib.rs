//! Conversion between Rust byte strings and the null-terminated buffers that
//! C interfaces read and write.
//!
//! Foreign buffers are modelled as byte slices: the logical content of a
//! buffer ends at its first zero byte, or at the end of the slice when it
//! holds none.
pub mod convert;
pub mod cstring;
pub mod multistring;

pub use convert::{with_c_str, FromCStr, ToCStr, BUF_LEN};
pub use cstring::{check_for_null, nul_position, CString, InteriorNull};
pub use multistring::{from_c_multistring, parse_multistring};
