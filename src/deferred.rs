//! Single-assignment result cells: a value computed in the background is handed over
//! once and then stays.
use crate::channel::{mpsc_channel, mpsc_try_recv, oneshot_try_recv};
use vstd::prelude::*;

verus! {

/// A value that is still being loaded, with the channel it will arrive on and the error of
/// the last failed attempt.
#[verifier::reject_recursive_types(T)]
#[verifier::reject_recursive_types(E)]
pub struct Unloaded<T, E> {
    pub tx: std::sync::mpsc::Sender<Result<T, E>>,
    pub rx: std::sync::mpsc::Receiver<Result<T, E>>,
    pub err: Option<E>,
}

/// A value that is loaded in the background: pending until a result arrives, then loaded
/// for good.
#[verifier::reject_recursive_types(T)]
#[verifier::reject_recursive_types(E)]
pub enum Loadable<T, E> {
    Unloaded(Unloaded<T, E>),
    Loaded(T),
}

/// The cell after a frame in which `received` came off its channel (`None`: nothing came).
/// A loaded cell never changes; a failed attempt is recorded and the cell stays pending.
pub open spec fn loadable_advanced<T, E>(cell: Loadable<T, E>, received: Option<Result<T, E>>) -> Loadable<T, E> {
    match cell {
        Loadable::Loaded(_) => cell,
        Loadable::Unloaded(u) => match received {
            None => cell,
            Some(Ok(v)) => Loadable::Loaded(v),
            Some(Err(e)) => Loadable::Unloaded(Unloaded { err: Some(e), ..u }),
        },
    }
}

impl<T, E> Loadable<T, E> {
    /// A pending cell with a fresh channel and no error recorded.
    pub fn unloaded() -> (r: Self)
        ensures
            r matches Loadable::Unloaded(u) && u.err is None,
    {
        let (tx, rx) = mpsc_channel();
        Loadable::Unloaded(Unloaded { tx, rx, err: None })
    }

    /// A pending cell with a fresh channel and `err` recorded as the last error.
    pub fn error(err: E) -> (r: Self)
        ensures
            r matches Loadable::Unloaded(u) && u.err == Some(err),
    {
        let (tx, rx) = mpsc_channel();
        Loadable::Unloaded(Unloaded { tx, rx, err: Some(err) })
    }

    /// A loaded cell.
    pub fn loaded(value: T) -> (r: Self)
        ensures
            r == Loadable::<T, E>::Loaded(value),
    {
        Loadable::Loaded(value)
    }

    /// Whether the value has arrived.
    pub fn is_loaded(&self) -> (r: bool)
        ensures
            r == (*self is Loaded),
    {
        match self {
            Loadable::Loaded(_) => true,
            Loadable::Unloaded(_) => false,
        }
    }

    /// Takes in what came off the channel this frame.
    pub fn advance_with(&mut self, received: Option<Result<T, E>>)
        ensures
            *final(self) == loadable_advanced(*old(self), received),
    {
        if let Loadable::Unloaded(u) = self {
            match received {
                None => {},
                Some(Ok(v)) => {
                    *self = Loadable::Loaded(v);
                },
                Some(Err(e)) => {
                    u.err = Some(e);
                },
            }
        }
    }

    /// Polls the channel once without blocking and takes in what came.
    pub fn try_advance(&mut self)
        ensures
            exists|received: Option<Result<T, E>>| *final(self) == loadable_advanced(*old(self), received),
            *old(self) is Loaded ==> *final(self) == *old(self),
    {
        let received = match self {
            Loadable::Unloaded(u) => mpsc_try_recv(&u.rx),
            Loadable::Loaded(_) => None,
        };
        self.advance_with(received);
    }
}

impl<T, E> Default for Loadable<T, E> {
    /// A pending cell with a fresh channel and no error recorded.
    fn default() -> (r: Self)
        ensures
            r matches Loadable::Unloaded(u) && u.err is None,
    {
        Self::unloaded()
    }
}

/// A pending cell stays as it is while nothing arrives; the first value that arrives
/// makes it loaded with that value, and nothing that comes after changes it again.
pub proof fn lemma_loadable_single_assignment<T, E>(
    u: Unloaded<T, E>,
    value: T,
    later: Option<Result<T, E>>,
)
    ensures
        loadable_advanced(Loadable::Unloaded(u), None) == Loadable::<T, E>::Unloaded(u),
        loadable_advanced(Loadable::Unloaded(u), Some(Ok(value))) == Loadable::<T, E>::Loaded(value),
        loadable_advanced(loadable_advanced(Loadable::Unloaded(u), Some(Ok(value))), later)
            == Loadable::<T, E>::Loaded(value),
{
}

/// A download of one buffer per model, received once.
#[verifier::reject_recursive_types(T)]
pub enum ExportDownloadReceiver<T> {
    /// Waiting for the download.
    Downloading(oneshot::Receiver<Vec<T>>),
    /// Downloaded.
    Downloaded(Vec<T>),
}

/// The receiver after a frame in which `received` came off its channel.
pub open spec fn download_advanced<T>(cell: ExportDownloadReceiver<T>, received: Option<Vec<T>>) -> ExportDownloadReceiver<T> {
    match (cell, received) {
        (ExportDownloadReceiver::Downloading(_), Some(v)) => ExportDownloadReceiver::Downloaded(v),
        _ => cell,
    }
}

impl<T> ExportDownloadReceiver<T> {
    /// Polls the channel once without blocking, leaving the receiver as it is; nothing comes
    /// once the data is in.
    pub fn poll(&self) -> (r: Option<Vec<T>>)
        ensures
            *self is Downloaded ==> r is None,
    {
        match self {
            ExportDownloadReceiver::Downloading(rx) => oneshot_try_recv(rx),
            ExportDownloadReceiver::Downloaded(_) => None,
        }
    }

    /// A receiver waiting on `rx`.
    pub fn new(rx: oneshot::Receiver<Vec<T>>) -> (r: Self)
        ensures
            r == ExportDownloadReceiver::<T>::Downloading(rx),
    {
        ExportDownloadReceiver::Downloading(rx)
    }

    /// Whether the data has arrived.
    pub fn is_downloaded(&self) -> (r: bool)
        ensures
            r == (*self is Downloaded),
    {
        match self {
            ExportDownloadReceiver::Downloaded(_) => true,
            ExportDownloadReceiver::Downloading(_) => false,
        }
    }

    /// Takes in what came off the channel this frame.
    pub fn advance_with(&mut self, received: Option<Vec<T>>)
        ensures
            *final(self) == download_advanced(*old(self), received),
    {
        if let ExportDownloadReceiver::Downloading(_) = self {
            if let Some(v) = received {
                *self = ExportDownloadReceiver::Downloaded(v);
            }
        }
    }

    /// Polls the channel once without blocking and takes in what came.
    pub fn try_recv(&mut self)
        ensures
            exists|received: Option<Vec<T>>| *final(self) == download_advanced(*old(self), received),
            *old(self) is Downloaded ==> *final(self) == *old(self),
    {
        let received = match self {
            ExportDownloadReceiver::Downloading(rx) => oneshot_try_recv(rx),
            ExportDownloadReceiver::Downloaded(_) => None,
        };
        self.advance_with(received);
    }
}

/// A download that has not arrived stays waiting while nothing comes; the first value makes
/// it downloaded, and nothing after that changes it.
pub proof fn lemma_download_single_assignment<T>(
    rx: oneshot::Receiver<Vec<T>>,
    value: Vec<T>,
    later: Option<Vec<T>>,
)
    ensures
        download_advanced(ExportDownloadReceiver::Downloading(rx), None) == ExportDownloadReceiver::<T>::Downloading(rx),
        download_advanced(ExportDownloadReceiver::Downloading(rx), Some(value)) == ExportDownloadReceiver::<T>::Downloaded(value),
        download_advanced(download_advanced(ExportDownloadReceiver::Downloading(rx), Some(value)), later)
            == ExportDownloadReceiver::<T>::Downloaded(value),
{
}

} // verus!
