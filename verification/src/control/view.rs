//! The screens of the tracker.
use vstd::prelude::*;

verus! {

/// The screen that is shown.
#[derive(Debug, Clone, Copy, PartialEq, Eq, Structural)]
pub enum View {
    Splash,
    Menu,
    Dashboard,
    RunDetail,
    Compare,
    GpuMonitor,
    Settings,
    Help,
}

} // verus!
