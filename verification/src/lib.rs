//! Engine-free readers for The Elder Scrolls III (Morrowind) data files.

use vstd::prelude::*;

pub mod bsa;
pub mod bytes;
pub mod cell;
pub mod latin1;
pub mod load_order;
pub mod loose;
pub mod math;
pub mod nif;
pub mod paths;
pub mod plugin;
pub mod terrain;
pub mod tes_id;
pub mod text;
pub mod vfs;

verus! {

/// The `std::io::Error` a file read can fail with; carried through in error values and
/// never inspected.
#[verifier::external_type_specification]
#[verifier::external_body]
pub struct ExIoError(std::io::Error);

/// The `Display` text of an I/O error.
///
/// Calls `<std::io::Error as Display>::fmt` through `format!`; the text comes from the
/// operating system, so nothing is stated of it.
#[verifier::external_body]
pub(crate) fn io_error_text(e: &std::io::Error) -> String {
    format!("{e}")
}

} // verus!
