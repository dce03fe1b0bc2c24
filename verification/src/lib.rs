//! Finds, in a log of any size, the timestamp format in use and the first and
//! the last line that carry a timestamp, with a buffer of fixed size.
//!
//! - [`registry`]: the ordered catalog of timestamp formats;
//! - [`format`]: a format, and the instant that a line carries under it;
//! - [`detect`]: the format of a log, from a sample of its first lines;
//! - [`scan`]: the scans from the start and from the end of a log, block by
//!   block, and the range that they find;
//! - [`bracket`]: what that range is, said of the log as a whole;
//! - [`lines`]: lines as bytes, and the line at which a scan stops;
//! - [`number`]: the integers of timestamp fields;
//! - [`pattern`] and [`calendar`]: the regular expressions of `regex` and the
//!   calendar of `chrono`, which the rest takes on trust.
//!
//! Reading files is left to the caller: the scans say which bytes they want.

pub mod bracket;
pub mod calendar;
pub mod detect;
pub mod format;
pub mod lines;
pub mod number;
pub mod pattern;
pub mod registry;
pub mod scan;
