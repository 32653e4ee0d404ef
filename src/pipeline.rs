//! The capture loop's decisions: what to do with each event read from the
//! input interface, and the counters it moves.

use crate::demux::{demux, demux_spec, AllowSet, Demux};
use crate::stats::{sat_add, Stats};
use vstd::prelude::*;

verus! {

/// Pause after a failed read, in milliseconds.
pub const READ_BACKOFF_MS: u64 = 10;

/// What one read from the input interface gave.
pub enum CaptureEvent {
    Frame(Vec<u8>),
    ReadError,
}

/// What the loop does next.
pub enum CaptureAction {
    /// Hand these bytes to the forwarder.
    Forward(Vec<u8>),
    /// Nothing to send; read the next frame.
    Discard,
    /// Wait this many milliseconds, then read again.
    Backoff(u64),
}

/// Counts a captured frame as received, demultiplexes it, and counts a drop
/// when nothing is to be forwarded.
pub fn process_frame(frame: &[u8], allow: &AllowSet, stats: &mut Stats) -> (r: Option<Vec<u8>>)
    ensures
        match r {
            Some(v) => demux_spec(frame@, allow@) == Some(v@),
            None => demux_spec(frame@, allow@).is_none(),
        },
        final(stats).rx() == sat_add(old(stats).rx(), frame@.len() as u64),
        final(stats).tx() == old(stats).tx(),
        r.is_none() ==> final(stats).drops() == sat_add(old(stats).drops(), 1),
        r.is_some() ==> final(stats).drops() == old(stats).drops(),
        final(stats).history() == old(stats).history(),
{
    stats.add_rx_bytes(frame.len() as u64);
    match demux(frame, allow) {
        Demux::Forward(out) => Some(out),
        Demux::Drop => {
            stats.add_drop();
            None
        },
    }
}

/// One turn of the capture loop: a frame is processed, a read error backs off.
pub fn capture_step(event: CaptureEvent, allow: &AllowSet, stats: &mut Stats) -> (r: CaptureAction)
    ensures
        match event {
            CaptureEvent::ReadError => {
                &&& r == CaptureAction::Backoff(READ_BACKOFF_MS)
                &&& *final(stats) == *old(stats)
            },
            CaptureEvent::Frame(f) => {
                &&& final(stats).rx() == sat_add(old(stats).rx(), f@.len() as u64)
                &&& final(stats).tx() == old(stats).tx()
                &&& final(stats).history() == old(stats).history()
                &&& match demux_spec(f@, allow@) {
                    Some(out) => {
                        &&& r matches CaptureAction::Forward(v) && v@ == out
                        &&& final(stats).drops() == old(stats).drops()
                    },
                    None => {
                        &&& r matches CaptureAction::Discard
                        &&& final(stats).drops() == sat_add(old(stats).drops(), 1)
                    },
                }
            },
        },
{
    match event {
        CaptureEvent::ReadError => CaptureAction::Backoff(READ_BACKOFF_MS),
        CaptureEvent::Frame(f) => match process_frame(f.as_slice(), allow, stats) {
            Some(out) => CaptureAction::Forward(out),
            None => CaptureAction::Discard,
        },
    }
}

} // verus!
