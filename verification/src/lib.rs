pub mod compile;
pub mod error;
pub mod ext;
pub mod state;
pub mod subst;
pub mod text;
pub mod vars;

use vstd::prelude::*;

verus! {

/// The default statement timeout, in milliseconds, bound to SQL actions
/// until a `set-sql-timeout` command changes it.
pub const DEFAULT_SQL_TIMEOUT_MS: u128 = 12700;

} // verus!
