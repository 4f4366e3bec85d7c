//! Test runner: discovers test runnables in the active buffer, decides how they are executed
//! through the task infrastructure, parses runner output into structured per-test results, and
//! says what a dock panel shows of them.
//!
//! The editor around the runner answers its questions and performs its actions: buffers,
//! terminals and places in a buffer stand here under numbers that the editor gave them.

pub mod adapter;
pub mod discovery;
pub mod discovery_laws;
pub mod laws;
pub mod manager;
pub mod names;
pub mod panel_laws;
pub mod resolve;
pub mod resolve_laws;
pub mod run;
pub mod run_laws;
pub mod run_task;
pub mod rust_adapter;
pub mod rust_laws;
pub mod state;
pub mod state_laws;
pub mod test_panel;
pub mod text;
pub mod text_laws;
pub mod view_laws;

use std::sync::Arc;

use vstd::prelude::*;

pub use adapter::{DiscoveredTest, RunKind, TestAdapter, TestStatus};
pub use manager::TestRunnerManager;
pub use run::TestRunEvent;
pub use rust_adapter::RustAdapter;
pub use test_panel::{TestPanel, TestPanelSettings};

verus! {

/// The test adapters bundled with the runner.
pub fn default_adapters() -> (r: Vec<Arc<RustAdapter>>)
    ensures
        r@ == seq![Arc::new(RustAdapter)],
{
    let mut adapters: Vec<Arc<RustAdapter>> = Vec::new();
    adapters.push(Arc::new(RustAdapter));
    adapters
}

} // verus!
