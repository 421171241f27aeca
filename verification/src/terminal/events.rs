//! Events a terminal reports, and the channel they travel on.
use vstd::prelude::*;

use std::sync::mpsc::{Receiver, Sender};

verus! {

/// `std::sync::mpsc::Sender`.
#[verifier::external_type_specification]
#[verifier::external_body]
#[verifier::reject_recursive_types(T)]
pub struct ExSender<T>(Sender<T>);

/// `std::sync::mpsc::Receiver`.
#[verifier::external_type_specification]
#[verifier::external_body]
#[verifier::reject_recursive_types(T)]
pub struct ExReceiver<T>(Receiver<T>);

/// `Sender::clone`: another handle to the same channel.  Nothing is stated of it.
pub assume_specification<T> [<Sender<T> as Clone>::clone] (s: &Sender<T>) -> (r: Sender<T>);

/// What a terminal reports.
#[derive(Debug, Clone)]
pub enum TerminalEvent {
    /// The terminal needs redrawing.
    Wakeup,
    /// The title changed.
    TitleChanged(String),
    /// The bell rang.
    Bell,
    /// The terminal exited with this status.
    Exit(i32),
    /// A request to store text on the clipboard.
    ClipboardStore(String),
}

/// The sending end of a terminal's event channel.
#[derive(Clone)]
pub struct TerminalEventSender(pub Sender<TerminalEvent>);

/// A new channel (`std::sync::mpsc::channel`).  Nothing is stated of the two ends.
#[verifier::external_body]
fn mpsc_channel<T>() -> (c: (Sender<T>, Receiver<T>)) {
    std::sync::mpsc::channel()
}

/// A new event channel: the sender terminals report to and the receiver the interface
/// reads from.
pub fn event_channel() -> (TerminalEventSender, Receiver<TerminalEvent>) {
    let (tx, rx) = mpsc_channel();
    (TerminalEventSender(tx), rx)
}

} // verus!
