//! The halt-on-fault controller: the run state of the machine and the one
//! way out of it.
//!
//! The machine starts out running. A fault, or a normal exit, halts it, and a
//! halted machine stays as it is: nothing is written any more and there is no
//! way back.

use vstd::prelude::*;
use crate::cell::{cell_for, LINE_FEED, WIDTH};
use crate::decimal::decimal;
use crate::fault::{bare_prefix, located_prefix, FaultRecord, COLON};
use crate::grid::{
    lemma_write_concat, lemma_write_line, lemma_write_push, lemma_write_wf, no_line_feed, Grid,
};
use crate::sink::TextSink;

verus! {

/// Whether the machine still runs.
#[derive(Clone, Copy, PartialEq, Eq, Structural, Debug)]
pub enum RunState {
    Running,
    Halted,
}

/// The machine as the contracts see it: the display and whether it has halted.
pub struct Machine {
    pub grid: Grid,
    pub halted: bool,
}

/// One thing that can be asked of the machine.
pub enum Request {
    /// Show a text.
    Print(Seq<u8>),
    /// Report a fault with its diagnostic text.
    Fault(Seq<u8>),
    /// End normally.
    Exit,
}

/// The text the entry point shows first: `Hello World!` and a line feed.
pub open spec fn greeting() -> Seq<u8> {
    seq![0x48u8, 0x65, 0x6c, 0x6c, 0x6f, 0x20, 0x57, 0x6f, 0x72, 0x6c, 0x64, 0x21, 0x0a]
}

impl Machine {
    /// The cursor of the display is inside the grid.
    pub open spec fn wf(self) -> bool {
        self.grid.wf()
    }

    /// The machine at start: running, with a blank display.
    pub open spec fn initial() -> Machine {
        Machine { grid: Grid::initial(), halted: false }
    }

    /// Shows `text` while the machine runs; a halted machine shows nothing.
    pub open spec fn print(self, text: Seq<u8>) -> Machine {
        if self.halted {
            self
        } else {
            Machine { grid: self.grid.write(text), halted: false }
        }
    }

    /// Shows the diagnostic `text` and halts. A machine that has halted
    /// already stays as it is.
    pub open spec fn fault(self, text: Seq<u8>) -> Machine {
        if self.halted {
            self
        } else {
            Machine { grid: self.grid.write(text), halted: true }
        }
    }

    /// Halts without showing anything.
    pub open spec fn exit(self) -> Machine {
        Machine { grid: self.grid, halted: true }
    }

    /// Serves one request.
    pub open spec fn serve(self, request: Request) -> Machine {
        match request {
            Request::Print(text) => self.print(text),
            Request::Fault(text) => self.fault(text),
            Request::Exit => self.exit(),
        }
    }

    /// Serves the requests in order.
    pub open spec fn serve_all(self, requests: Seq<Request>) -> Machine
        decreases requests.len(),
    {
        if requests.len() == 0 {
            self
        } else {
            self.serve_all(requests.drop_last()).serve(requests.last())
        }
    }
}

/// A halted machine is final: whatever is asked of it afterwards, in any
/// number and order, it stays halted and its display stays as it was.
pub proof fn lemma_halted_is_final(m: Machine, requests: Seq<Request>)
    requires
        m.halted,
    ensures
        m.serve_all(requests) == m,
    decreases requests.len(),
{
    if requests.len() > 0 {
        lemma_halted_is_final(m, requests.drop_last());
    }
}

/// A fault always halts the machine, and nothing that is asked of the machine
/// after the fault has any effect.
pub proof fn lemma_fault_halts(m: Machine, text: Seq<u8>, after: Seq<Request>)
    ensures
        m.fault(text).halted,
        m.fault(text).serve_all(after) == m.fault(text),
{
    lemma_halted_is_final(m.fault(text), after);
}

/// The diagnostic of a fault ends with the message on a row of its own. When
/// the message has no line feed and is shorter than a row, the halted machine
/// shows it from column zero on, on the row above the cursor, whatever the
/// display held before and whether or not it had to scroll.
pub proof fn lemma_fault_shows_message(m: Machine, info: FaultRecord)
    requires
        m.wf(),
        !m.halted,
        no_line_feed(info.message@),
        info.message@.len() < WIDTH,
    ensures
        m.fault(info.text()).wf(),
        m.fault(info.text()).halted,
        m.fault(info.text()).grid.col == 0,
        m.fault(info.text()).grid.row >= 1,
        forall|i: int|
            0 <= i < info.message@.len() ==> #[trigger] m.fault(info.text()).grid.at(
                m.fault(info.text()).grid.row - 1,
                i,
            ) == cell_for(info.message@[i]),
{
    let opening = info.heading().push(LINE_FEED);
    let closing = info.message@.push(LINE_FEED);
    assert(info.text() =~= opening + closing);
    lemma_write_concat(m.grid, opening, closing);
    lemma_write_push(m.grid, info.heading(), LINE_FEED);
    lemma_write_wf(m.grid, info.heading());
    lemma_write_line(m.grid.write(opening), info.message@);
}

/// Once the machine has halted, it is halted after every further request:
/// the step from running to halted is taken at most once and never undone.
pub proof fn lemma_halt_is_kept(m: Machine, requests: Seq<Request>, more: Seq<Request>)
    requires
        m.serve_all(requests).halted,
    ensures
        m.serve_all(requests + more) == m.serve_all(requests),
    decreases more.len(),
{
    if more.len() == 0 {
        assert(requests + more =~= requests);
    } else {
        lemma_halt_is_kept(m, requests, more.drop_last());
        assert((requests + more).drop_last() =~= requests + more.drop_last());
    }
}

/// The machine: the display, which it alone writes to, and the run state.
pub struct Controller {
    sink: TextSink,
    state: RunState,
}

impl View for Controller {
    type V = Machine;

    closed spec fn view(&self) -> Machine {
        Machine { grid: self.sink@, halted: self.state == RunState::Halted }
    }
}

impl Controller {
    /// The cursor of the display is inside the grid.
    pub open spec fn wf(&self) -> bool {
        self@.wf()
    }

    /// The machine at start: running, with a blank display.
    pub fn boot() -> (c: Controller)
        ensures
            c.wf(),
            c@ == Machine::initial(),
    {
        Controller { sink: TextSink::new(), state: RunState::Running }
    }

    /// The run state.
    pub fn state(&self) -> (s: RunState)
        ensures
            s == (if self@.halted {
                RunState::Halted
            } else {
                RunState::Running
            }),
    {
        self.state
    }

    /// Whether the machine has halted.
    pub fn is_halted(&self) -> (h: bool)
        ensures
            h == self@.halted,
    {
        self.state == RunState::Halted
    }

    /// The display, to read from.
    pub fn sink(&self) -> (s: &TextSink)
        ensures
            s@ == self@.grid,
    {
        &self.sink
    }

    /// Shows `text` on the display. A halted machine shows nothing.
    pub fn print(&mut self, text: &[u8])
        requires
            old(self).wf(),
        ensures
            final(self).wf(),
            final(self)@ == old(self)@.print(text@),
    {
        if self.state == RunState::Running {
            self.sink.write(text);
        }
    }

    /// Shows the greeting of the entry point, `Hello World!`, and ends the
    /// line.
    pub fn greet(&mut self)
        requires
            old(self).wf(),
        ensures
            final(self).wf(),
            final(self)@ == old(self)@.print(greeting()),
    {
        let text: [u8; 13] = [
            0x48,
            0x65,
            0x6c,
            0x6c,
            0x6f,
            0x20,
            0x57,
            0x6f,
            0x72,
            0x6c,
            0x64,
            0x21,
            0x0a,
        ];
        assert(text@ =~= greeting());
        self.print(&text);
    }

    /// Takes over on a fault: shows the diagnostic text of `info` and halts
    /// the machine. On a machine that has halted already nothing is shown: a
    /// fault is handled once.
    pub fn on_fault(&mut self, info: &FaultRecord<'_>)
        requires
            old(self).wf(),
        ensures
            final(self).wf(),
            final(self)@ == old(self)@.fault(info.text()),
            final(self)@.halted,
    {
        if self.state == RunState::Running {
            let ghost start = self.sink@;
            let ghost mut shown: Seq<u8>;
            match &info.location {
                Some(loc) => {
                    let prefix: [u8; 12] = [
                        0x70,
                        0x61,
                        0x6e,
                        0x69,
                        0x63,
                        0x6b,
                        0x65,
                        0x64,
                        0x20,
                        0x61,
                        0x74,
                        0x20,
                    ];
                    assert(prefix@ =~= located_prefix());
                    self.sink.write(&prefix);
                    proof {
                        shown = located_prefix();
                    }
                    self.sink.write(loc.file);
                    proof {
                        lemma_write_concat(start, shown, loc.file@);
                        shown = shown + loc.file@;
                    }
                    self.sink.write_byte(COLON);
                    proof {
                        lemma_write_push(start, shown, COLON);
                        shown = shown.push(COLON);
                    }
                    self.sink.write_decimal(loc.line);
                    proof {
                        lemma_write_concat(start, shown, decimal(loc.line as nat));
                        shown = shown + decimal(loc.line as nat);
                    }
                    self.sink.write_byte(COLON);
                    proof {
                        lemma_write_push(start, shown, COLON);
                        shown = shown.push(COLON);
                    }
                    self.sink.write_decimal(loc.column);
                    proof {
                        lemma_write_concat(start, shown, decimal(loc.column as nat));
                        shown = shown + decimal(loc.column as nat);
                        assert(shown =~= located_prefix() + loc.text());
                    }
                },
                None => {
                    let prefix: [u8; 8] = [0x70, 0x61, 0x6e, 0x69, 0x63, 0x6b, 0x65, 0x64];
                    assert(prefix@ =~= bare_prefix());
                    self.sink.write(&prefix);
                    proof {
                        shown = bare_prefix();
                    }
                },
            }
            self.sink.write_byte(COLON);
            proof {
                lemma_write_push(start, shown, COLON);
                shown = shown.push(COLON);
            }
            self.sink.write_byte(LINE_FEED);
            proof {
                lemma_write_push(start, shown, LINE_FEED);
                shown = shown.push(LINE_FEED);
            }
            self.sink.write(info.message);
            proof {
                lemma_write_concat(start, shown, info.message@);
                shown = shown + info.message@;
            }
            self.sink.write_byte(LINE_FEED);
            proof {
                lemma_write_push(start, shown, LINE_FEED);
                shown = shown.push(LINE_FEED);
            }
            self.state = RunState::Halted;
        }
    }

    /// Ends normally: halts the machine without showing anything.
    pub fn exit(&mut self)
        requires
            old(self).wf(),
        ensures
            final(self).wf(),
            final(self)@ == old(self)@.exit(),
    {
        self.state = RunState::Halted;
    }
}

} // verus!
