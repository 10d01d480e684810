//! Data contract with the receipt-printer collaborator.
//!
//! Printing consumes an order detail (or a create-order result) and is
//! done entirely outside: discovery and transmission talk to the
//! operating system, and a printing failure must never roll back or
//! block a persisted order.  These are the shapes the collaborator
//! reports back in.

use vstd::prelude::*;

verus! {

/// One printer the collaborator discovered.
#[derive(Clone, Debug)]
pub struct PrinterInfo {
    pub name: String,
    pub is_default: bool,
    pub status: String,
}

/// Outcome of a printer-discovery pass.
#[derive(Clone, Debug)]
pub struct PrinterCheckResult {
    pub connected: bool,
    pub printers: Vec<PrinterInfo>,
    pub default_printer: Option<String>,
    pub error: Option<String>,
}

/// Outcome of sending a test page.
#[derive(Clone, Debug)]
pub struct TestPrintResult {
    pub success: bool,
    pub message: String,
}

} // verus!
