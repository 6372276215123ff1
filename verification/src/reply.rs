//! Answers to calls from Elixir.

use vstd::prelude::*;

verus! {

/// The atoms that calls are answered with.
#[derive(Clone, Copy, Debug, PartialEq, Eq, Structural)]
pub enum Atom {
    /// The atom `ok`.
    Done,
    MissingKeyframe,
    MoqMissingKeyframe,
    ProducerPoisoned,
    ConsumerClosed,
    TrackAlreadyExists,
    UnknownTrack,
    KindMismatch,
}

impl Atom {
    /// The name of the atom.
    pub open spec fn text(self) -> Seq<char> {
        match self {
            Atom::Done => "ok"@,
            Atom::MissingKeyframe => "missing_keyframe"@,
            Atom::MoqMissingKeyframe => "moq_missing_keyframe"@,
            Atom::ProducerPoisoned => "producer_poisoned"@,
            Atom::ConsumerClosed => "consumer_closed"@,
            Atom::TrackAlreadyExists => "track_already_exists"@,
            Atom::UnknownTrack => "unknown_track"@,
            Atom::KindMismatch => "kind_mismatch"@,
        }
    }

    /// The name of the atom.
    pub fn name(self) -> (r: &'static str)
        ensures
            r@ == self.text(),
    {
        match self {
            Atom::Done => "ok",
            Atom::MissingKeyframe => "missing_keyframe",
            Atom::MoqMissingKeyframe => "moq_missing_keyframe",
            Atom::ProducerPoisoned => "producer_poisoned",
            Atom::ConsumerClosed => "consumer_closed",
            Atom::TrackAlreadyExists => "track_already_exists",
            Atom::UnknownTrack => "unknown_track",
            Atom::KindMismatch => "kind_mismatch",
        }
    }
}

/// What a failed call is answered with.
#[derive(Debug)]
pub enum NifError {
    /// An atom that the caller can match on.
    Atom(Atom),
    /// The reason in words.
    Text(String),
}

/// A failure in words, as it reads.
pub enum FaultView {
    Atom(Atom),
    Text(Seq<char>),
}

impl View for NifError {
    type V = FaultView;

    open spec fn view(&self) -> FaultView {
        match self {
            NifError::Atom(atom) => FaultView::Atom(*atom),
            NifError::Text(text) => FaultView::Text(text@),
        }
    }
}

} // verus!
