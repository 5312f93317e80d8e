//! Progress of transfers, derived from the event stream.
use vstd::prelude::*;
use crate::event::{KindView, TransitEvent, TransitEventKind};

verus! {

/// How far a transfer has come.
#[derive(Debug, PartialEq, Eq)]
pub struct ProgressUpdate {
    /// The object's name.
    pub object: String,
    /// Bytes moved so far.
    pub transferred: u64,
    /// The object's size.
    pub total: u64,
    /// Whether the transfer is complete.
    pub done: bool,
}

/// What a [`ProgressUpdate`] holds.
pub struct UpdateView {
    pub object: Seq<char>,
    pub transferred: u64,
    pub total: u64,
    pub done: bool,
}

impl View for ProgressUpdate {
    type V = UpdateView;

    open spec fn view(&self) -> UpdateView {
        UpdateView {
            object: self.object@,
            transferred: self.transferred,
            total: self.total,
            done: self.done,
        }
    }
}

/// Turns the events of transfers into updates.
#[derive(Debug)]
pub struct ProgressObserver {
    /// The object under way.
    pub object: String,
    /// Its size.
    pub total: u64,
}

/// What a [`ProgressObserver`] remembers.
pub struct ProgressView {
    pub object: Seq<char>,
    pub total: u64,
}

impl View for ProgressObserver {
    type V = ProgressView;

    open spec fn view(&self) -> ProgressView {
        ProgressView { object: self.object@, total: self.total }
    }
}

/// What is remembered after an event: the object that a transfer started on.
pub open spec fn remembered(p: ProgressView, kind: KindView) -> ProgressView {
    match kind {
        KindView::TransferStarted { name, total_bytes } => ProgressView {
            object: name,
            total: total_bytes,
        },
        _ => p,
    }
}

/// The update that an event gives, if it gives one.
pub open spec fn update_of(p: ProgressView, kind: KindView) -> Option<UpdateView> {
    match kind {
        KindView::TransferStarted { name, total_bytes } => Some(
            UpdateView { object: name, transferred: 0, total: total_bytes, done: false },
        ),
        KindView::TransferProgress { transferred, total } => Some(
            UpdateView { object: p.object, transferred, total, done: false },
        ),
        KindView::TransferCompleted { bytes, .. } => Some(
            UpdateView { object: p.object, transferred: bytes, total: bytes, done: true },
        ),
        _ => None,
    }
}

impl ProgressObserver {
    /// An observer that has seen nothing.
    pub fn new() -> (r: ProgressObserver)
        ensures
            r@ == (ProgressView { object: Seq::empty(), total: 0 }),
    {
        ProgressObserver { object: String::new(), total: 0 }
    }

    /// Takes in an event; gives the update that it amounts to, if any.
    pub fn on_event(&mut self, event: &TransitEvent) -> (r: Option<ProgressUpdate>)
        ensures
            final(self)@ == remembered(old(self)@, event@.kind),
            match r {
                Some(u) => update_of(old(self)@, event@.kind) == Some(u@),
                None => update_of(old(self)@, event@.kind) is None,
            },
    {
        match &event.kind {
            TransitEventKind::TransferStarted { name, total_bytes } => {
                self.object = name.clone();
                self.total = *total_bytes;
                Some(
                    ProgressUpdate {
                        object: name.clone(),
                        transferred: 0,
                        total: *total_bytes,
                        done: false,
                    },
                )
            },
            TransitEventKind::TransferProgress { transferred, total } => Some(
                ProgressUpdate {
                    object: self.object.clone(),
                    transferred: *transferred,
                    total: *total,
                    done: false,
                },
            ),
            TransitEventKind::TransferCompleted { bytes, .. } => Some(
                ProgressUpdate {
                    object: self.object.clone(),
                    transferred: *bytes,
                    total: *bytes,
                    done: true,
                },
            ),
            _ => None,
        }
    }
}

} // verus!
