use vstd::prelude::*;

use portable_pty::{Child, MasterPty, PtySize};
use std::io::Write;

verus! {

/// A spawned shell's terminal: the master side of its pty, the writer to its
/// input, and the shell process. Built by whoever spawned the shell.
#[verifier::external_body]
pub struct PtyIo {
    pub master: Box<dyn MasterPty + Send>,
    pub writer: Box<dyn Write + Send>,
    pub child: Box<dyn Child + Send + Sync>,
}

/// Every byte written to the terminal's input through this handle so far.
pub uninterp spec fn pty_input(t: PtyIo) -> Seq<u8>;

/// The size, as (rows, cols), last given to the terminal through this handle.
pub uninterp spec fn pty_size(t: PtyIo) -> (u16, u16);

/// Relies on `Write::write_all`: `Ok` once every byte of `data` went to the
/// terminal's input; the size is untouched.
#[verifier::external_body]
fn write_all_input(t: &mut PtyIo, data: &[u8]) -> (r: Result<(), String>)
    ensures
        r is Ok ==> pty_input(*final(t)) == pty_input(*old(t)) + data@,
        pty_size(*final(t)) == pty_size(*old(t)),
{
    t.writer.write_all(data).map_err(|e| e.to_string())
}

/// Relies on `Write::flush`: it pushes out what was written and writes
/// nothing new; the size is untouched.
#[verifier::external_body]
fn flush_input(t: &mut PtyIo) -> (r: Result<(), String>)
    ensures
        pty_input(*final(t)) == pty_input(*old(t)),
        pty_size(*final(t)) == pty_size(*old(t)),
{
    t.writer.flush().map_err(|e| e.to_string())
}

/// Relies on `MasterPty::resize`: `Ok` once the terminal has the new size;
/// the input is untouched.
#[verifier::external_body]
fn resize_master(t: &mut PtyIo, rows: u16, cols: u16) -> (r: Result<(), String>)
    ensures
        r is Ok ==> pty_size(*final(t)) == (rows, cols),
        pty_input(*final(t)) == pty_input(*old(t)),
{
    t.master.resize(PtySize { rows, cols, pixel_width: 0, pixel_height: 0 }).map_err(
        |e| e.to_string(),
    )
}

impl PtyIo {
    /// Writes `data` to the terminal's input and flushes it; the flush is
    /// skipped when the write failed. `Ok` means all of `data` was written.
    pub fn write_input(&mut self, data: &[u8]) -> (r: Result<(), String>)
        ensures
            r is Ok ==> pty_input(*final(self)) == pty_input(*old(self)) + data@,
            pty_size(*final(self)) == pty_size(*old(self)),
    {
        match write_all_input(self, data) {
            Ok(()) => flush_input(self),
            Err(e) => Err(e),
        }
    }

    /// Gives the terminal a new size without restarting its process.
    pub fn resize(&mut self, rows: u16, cols: u16) -> (r: Result<(), String>)
        ensures
            r is Ok ==> pty_size(*final(self)) == (rows, cols),
            pty_input(*final(self)) == pty_input(*old(self)),
    {
        resize_master(self, rows, cols)
    }
}

} // verus!
