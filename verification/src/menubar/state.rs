//! Small on-disk state for the app: the last limit the user picked, and the
//! automatic update check.

use crate::proto::DEFAULT_UPPER;
use vstd::prelude::*;

verus! {

/// Persisted app state.
#[derive(Debug, Clone, Copy, PartialEq, Eq)]
pub struct AppState {
    /// The last limit below 100 the user chose.
    pub last_upper: u8,
    /// Check for updates automatically.
    pub check_updates: bool,
    /// When the last automatic check started, in seconds since the Unix
    /// epoch.
    pub last_update_check: u64,
}

impl Default for AppState {
    fn default() -> (r: Self)
        ensures
            r == (AppState {
                last_upper: DEFAULT_UPPER,
                check_updates: true,
                last_update_check: 0,
            }),
    {
        AppState { last_upper: DEFAULT_UPPER, check_updates: true, last_update_check: 0 }
    }
}

} // verus!
