//! Files on their way out and the receipts for them.
use vstd::prelude::*;
use crate::text;
use crate::time::Duration;

verus! {

/// A file to push.
#[derive(Debug, PartialEq, Eq)]
pub struct OutboundFile<'a> {
    /// The name shown to the peer.
    pub name: String,
    /// The MIME type, if known.
    pub mime_type: Option<String>,
    /// The contents.
    pub bytes: &'a [u8],
}

/// What an [`OutboundFile`] holds.
pub struct FileView {
    pub name: Seq<char>,
    pub mime_type: Option<Seq<char>>,
    pub bytes: Seq<u8>,
}

impl<'a> View for OutboundFile<'a> {
    type V = FileView;

    open spec fn view(&self) -> FileView {
        FileView {
            name: self.name@,
            mime_type: text::optional(self.mime_type),
            bytes: self.bytes@,
        }
    }
}

impl<'a> Clone for OutboundFile<'a> {
    fn clone(&self) -> (r: OutboundFile<'a>)
        ensures
            r@ == self@,
    {
        OutboundFile {
            name: self.name.clone(),
            mime_type: text::clone_optional(&self.mime_type),
            bytes: self.bytes,
        }
    }
}

impl<'a> OutboundFile<'a> {
    /// A file with a name and contents.
    pub fn new(name: &str, bytes: &'a [u8]) -> (r: OutboundFile<'a>)
        ensures
            r@ == (FileView { name: name@, mime_type: None, bytes: bytes@ }),
    {
        OutboundFile { name: name.to_owned(), mime_type: None, bytes }
    }

    /// The same file with a MIME type.
    pub fn with_mime(self, mime: &str) -> (r: OutboundFile<'a>)
        ensures
            r@ == (FileView { mime_type: Some(mime@), ..self@ }),
    {
        OutboundFile { mime_type: Some(mime.to_owned()), ..self }
    }

    /// The size in bytes.
    pub fn len(&self) -> (r: u64)
        ensures
            r == self@.bytes.len(),
    {
        self.bytes.len() as u64
    }

    /// Whether the file holds nothing.
    pub fn is_empty(&self) -> (r: bool)
        ensures
            r == (self@.bytes.len() == 0),
    {
        self.bytes.len() == 0
    }
}

/// The receipt for a completed transfer.
#[derive(Debug, PartialEq, Eq)]
pub struct TransferReceipt {
    /// The object's name.
    pub object_name: String,
    /// Bytes moved.
    pub bytes: u64,
    /// Chunks they were moved in.
    pub chunks: u64,
    /// How long it took.
    pub duration: Duration,
}

/// What a [`TransferReceipt`] holds.
pub struct ReceiptView {
    pub object_name: Seq<char>,
    pub bytes: u64,
    pub chunks: u64,
    pub duration: Duration,
}

impl View for TransferReceipt {
    type V = ReceiptView;

    open spec fn view(&self) -> ReceiptView {
        ReceiptView {
            object_name: self.object_name@,
            bytes: self.bytes,
            chunks: self.chunks,
            duration: self.duration,
        }
    }
}

impl Clone for TransferReceipt {
    fn clone(&self) -> (r: TransferReceipt)
        ensures
            r@ == self@,
    {
        TransferReceipt {
            object_name: self.object_name.clone(),
            bytes: self.bytes,
            chunks: self.chunks,
            duration: self.duration,
        }
    }
}

} // verus!
