use vstd::prelude::*;

use super::transaction::Transaction;

verus! {

/// Types of dialog a frontend may need to create during script execution.
#[derive(Clone, Copy, Debug, PartialEq, Eq, Structural)]
pub enum Dialog {
    Notification,
    /// Dialog that should display a message and allow the user to either
    /// continue or stop the test.
    ManualInput,
}

/// Requests for actions a frontend needs to perform during script
/// execution. A `Wait` carries the pause in milliseconds.
#[derive(Clone, Debug, PartialEq)]
pub enum FrontendRequest {
    /// No action is required of the host.
    NoAction,
    Wait(u64),
    GuiPrint(String),
    GuiDialogue { kind: Dialog, message: String },
    TCUTransact(Transaction),
    TCUFlush,
    // Requests for direct communication with the printer, not via the TCU.
    PrinterOpen,
    PrinterClose,
    PrinterTransact(Transaction),
}

} // verus!
