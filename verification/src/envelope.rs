//! The frame value that travels from a socket, through the registry, to
//! every connection's mailbox.

use vstd::prelude::*;

verus! {

/// The status code and the reason that accompany a close frame.
#[derive(Debug, PartialEq, Eq)]
pub struct CloseFrame {
    pub code: u16,
    pub reason: String,
}

/// The mathematical value of a [`CloseFrame`].
pub struct CloseFrameView {
    pub code: u16,
    pub reason: Seq<char>,
}

impl View for CloseFrame {
    type V = CloseFrameView;

    open spec fn view(&self) -> CloseFrameView {
        CloseFrameView { code: self.code, reason: self.reason@ }
    }
}

impl Clone for CloseFrame {
    fn clone(&self) -> (copy: CloseFrame)
        ensures
            copy@ == self@,
    {
        CloseFrame { code: self.code, reason: self.reason.clone() }
    }
}

/// One frame: text, binary, ping, pong, or close with an optional reason.
#[derive(Debug, PartialEq, Eq)]
pub enum Envelope {
    Text(String),
    Binary(Vec<u8>),
    Ping(Vec<u8>),
    Pong(Vec<u8>),
    Close(Option<CloseFrame>),
}

/// The mathematical value of an [`Envelope`].
pub enum EnvelopeView {
    Text(Seq<char>),
    Binary(Seq<u8>),
    Ping(Seq<u8>),
    Pong(Seq<u8>),
    Close(Option<CloseFrameView>),
}

impl View for Envelope {
    type V = EnvelopeView;

    open spec fn view(&self) -> EnvelopeView {
        match *self {
            Envelope::Text(text) => EnvelopeView::Text(text@),
            Envelope::Binary(bytes) => EnvelopeView::Binary(bytes@),
            Envelope::Ping(bytes) => EnvelopeView::Ping(bytes@),
            Envelope::Pong(bytes) => EnvelopeView::Pong(bytes@),
            Envelope::Close(None) => EnvelopeView::Close(None),
            Envelope::Close(Some(frame)) => EnvelopeView::Close(Some(frame@)),
        }
    }
}

impl Clone for Envelope {
    /// An envelope is never changed once built; a broadcast hands each
    /// recipient a copy with the same value.
    fn clone(&self) -> (copy: Envelope)
        ensures
            copy@ == self@,
    {
        match self {
            Envelope::Text(text) => Envelope::Text(text.clone()),
            Envelope::Binary(bytes) => Envelope::Binary(bytes.clone()),
            Envelope::Ping(bytes) => Envelope::Ping(bytes.clone()),
            Envelope::Pong(bytes) => Envelope::Pong(bytes.clone()),
            Envelope::Close(None) => Envelope::Close(None),
            Envelope::Close(Some(frame)) => Envelope::Close(Some(frame.clone())),
        }
    }
}

} // verus!
