//! Defines common exit codes (`E`) and error messages (`M`).
use vstd::prelude::*;

verus! {

/// Successful execution.
pub const ESUCCESS: i32 = 0x00;

/// Invalid usage.
pub const EUSAGE: i32 = 0x01;

/// The file or directory cannot be accessed.
pub const MACCESS: &'static str = "cannot access";

/// A usage error where the type is missing.
pub const MNOTYPE: &'static str = "missing type option";

/// The file or directory cannot be found.
pub const MNOTFOUND: &'static str = "cannot not be found";

/// A usage error where conflicting options are present.
pub const MCONFLICT: &'static str = "conflicting options";

/// The program cannot read from the standard input.
pub const MSTDINERR: &'static str = "cannot read from stdin";

/// A usage error where the number of free arguments is too small.
pub const MFREEARGS: &'static str = "a mode and at least one path must be provided";

/// A usage error where the numeric mode is invalid.
pub const MNUMERIC: &'static str = "mode must be an octal between one and four digits";

} // verus!
