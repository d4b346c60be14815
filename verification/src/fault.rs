//! The record of a fault and the diagnostic text that is shown for it.

use vstd::prelude::*;
use crate::cell::LINE_FEED;
use crate::decimal::decimal;

verus! {

/// The place in the source at which a fault was raised.
#[derive(Clone, Copy, Debug)]
pub struct Location<'a> {
    pub file: &'a [u8],
    pub line: u32,
    pub column: u32,
}

/// What is known of a fault at the moment it is raised: a message and, where
/// it is known, the place it came from.
#[derive(Clone, Copy, Debug)]
pub struct FaultRecord<'a> {
    pub message: &'a [u8],
    pub location: Option<Location<'a>>,
}

/// The words that open a diagnostic with a known location: `panicked at `.
pub open spec fn located_prefix() -> Seq<u8> {
    seq![0x70u8, 0x61, 0x6e, 0x69, 0x63, 0x6b, 0x65, 0x64, 0x20, 0x61, 0x74, 0x20]
}

/// The word that opens a diagnostic without a location: `panicked`.
pub open spec fn bare_prefix() -> Seq<u8> {
    seq![0x70u8, 0x61, 0x6e, 0x69, 0x63, 0x6b, 0x65, 0x64]
}

/// The colon that separates the parts of the first line and ends it.
pub const COLON: u8 = 0x3a;

impl<'a> Location<'a> {
    /// The location as text: file, line and column, separated by colons.
    pub open spec fn text(&self) -> Seq<u8> {
        (self.file@.push(COLON) + decimal(self.line as nat)).push(COLON) + decimal(
            self.column as nat,
        )
    }
}

impl<'a> FaultRecord<'a> {
    /// The first line of the diagnostic, without its line feed: `panicked at `
    /// and the location, or `panicked` alone, and a colon.
    pub open spec fn heading(&self) -> Seq<u8> {
        match self.location {
            Some(loc) => (located_prefix() + loc.text()).push(COLON),
            None => bare_prefix().push(COLON),
        }
    }

    /// The diagnostic text of the fault: the heading on a line of its own,
    /// then the message, then a line feed.
    pub open spec fn text(&self) -> Seq<u8> {
        (self.heading().push(LINE_FEED) + self.message@).push(LINE_FEED)
    }

    /// A record with a message and no location.
    pub fn new(message: &'a [u8]) -> (r: FaultRecord<'a>)
        ensures
            r.message@ == message@,
            r.location is None,
    {
        FaultRecord { message, location: None }
    }

    /// A record with a message and the place the fault came from.
    pub fn located(message: &'a [u8], file: &'a [u8], line: u32, column: u32) -> (r: FaultRecord<
        'a,
    >)
        ensures
            r.message@ == message@,
            r.location matches Some(loc) && loc.file@ == file@ && loc.line == line && loc.column
                == column,
    {
        FaultRecord { message, location: Some(Location { file, line, column }) }
    }
}

} // verus!
