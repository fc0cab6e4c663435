//! Entry filters: size and modification-time limits.

pub use self::size::SizeFilter;
pub use self::time::TimeFilter;

pub mod size;
pub mod time;
