use vstd::prelude::*;

use crate::TouchStatus;

verus! {

#[verifier::external_type_specification]
#[verifier::external_body]
#[verifier::reject_recursive_types(T)]
pub struct ExAtomic<T>(atomic::Atomic<T>);

#[verifier::external_type_specification]
#[verifier::external_body]
#[verifier::reject_recursive_types(T)]
pub struct ExSyncSender<T>(std::sync::mpsc::SyncSender<T>);

#[verifier::external_type_specification]
#[verifier::external_body]
#[verifier::reject_recursive_types(T)]
pub struct ExReceiver<T>(std::sync::mpsc::Receiver<T>);

/// The per-device published status: one atomic three-valued cell, written by
/// that device's decoder alone and read by any thread without locking.
///
/// The cell is opaque here: nothing is assumed about what a load returns, so
/// everything proved about the classifier holds whatever other threads saw.
#[derive(Debug)]
pub struct StatusCell {
    cell: atomic::Atomic<TouchStatus>,
}

impl StatusCell {
    /// Relies on atomic::Atomic::new to create a cell holding `s`.
    #[verifier::external_body]
    pub fn new(s: TouchStatus) -> StatusCell {
        StatusCell { cell: atomic::Atomic::new(s) }
    }

    /// Relies on atomic::Atomic::load with acquire ordering; the result is
    /// whatever status was last stored, which no contract here pins down.
    #[verifier::external_body]
    pub fn load(&self) -> TouchStatus {
        self.cell.load(atomic::Ordering::Acquire)
    }

    /// Relies on atomic::Atomic::store with release ordering.
    #[verifier::external_body]
    pub(crate) fn store(&self, s: TouchStatus) {
        self.cell.store(s, atomic::Ordering::Release)
    }
}

/// The sending half of the coalescing wakeup channel.
#[derive(Debug)]
pub struct Notifier {
    tx: std::sync::mpsc::SyncSender<()>,
}

/// The receiving half of the coalescing wakeup channel.
#[derive(Debug)]
pub struct WaitReceiver {
    rx: std::sync::mpsc::Receiver<()>,
}

/// Failure modes of waiting for a wakeup: every sender is gone, or the
/// bounded variant ran out of time.
#[derive(Debug, Clone, Copy, PartialEq, Eq, Structural)]
pub enum WaitError {
    Disconnected,
    Timeout,
}

/// Relies on std::sync::mpsc::sync_channel: a rendezvous-or-buffered channel
/// whose buffer holds at most `bound` pending messages.
#[verifier::external_body]
pub fn notify_channel(bound: usize) -> (Notifier, WaitReceiver) {
    let (tx, rx) = std::sync::mpsc::sync_channel(bound);
    (Notifier { tx }, WaitReceiver { rx })
}

impl Notifier {
    /// Relies on SyncSender::try_send: never blocks; the message is dropped
    /// (false) when the buffer is already full or every receiver is gone.
    #[verifier::external_body]
    pub(crate) fn notify(&self) -> bool {
        self.tx.try_send(()).is_ok()
    }

    /// Relies on SyncSender::clone: another sender for the same channel.
    #[verifier::external_body]
    pub(crate) fn dup(&self) -> Notifier {
        Notifier { tx: self.tx.clone() }
    }
}

impl WaitReceiver {
    /// Relies on Receiver::recv: blocks until a notification arrives, and
    /// fails exactly when every sender has disconnected, so an error from
    /// this call is always the disconnection kind, never the timeout kind.
    #[verifier::external_body]
    pub fn recv(&self) -> (r: Result<(), WaitError>)
        ensures
            r matches Err(e) ==> e == WaitError::Disconnected,
    {
        match self.rx.recv() {
            Ok(()) => Ok(()),
            Err(_) => Err(WaitError::Disconnected),
        }
    }

    /// Relies on Receiver::recv_timeout: as `recv`, but gives up after `t`,
    /// telling the timeout apart from disconnection.  Both error kinds are
    /// genuinely possible, so nothing more is claimed; std's documentation
    /// notes a rare panic when this call races a concurrent send, and no
    /// contract here rests on this call.
    #[verifier::external_body]
    pub fn recv_timeout(&self, t: std::time::Duration) -> Result<(), WaitError> {
        match self.rx.recv_timeout(t) {
            Ok(()) => Ok(()),
            Err(std::sync::mpsc::RecvTimeoutError::Timeout) => Err(WaitError::Timeout),
            Err(std::sync::mpsc::RecvTimeoutError::Disconnected) => Err(WaitError::Disconnected),
        }
    }
}

/// Relies on Arc::clone: the new handle refers to the very same value.
#[verifier::external_body]
pub(crate) fn arc_dup<T>(a: &std::sync::Arc<T>) -> (r: std::sync::Arc<T>)
    ensures
        r == *a,
{
    std::sync::Arc::clone(a)
}

} // verus!
