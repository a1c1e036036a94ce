//! Time limits on inbound traffic: keep-alive and frame read rate.
use vstd::prelude::*;

verus! {

/// Time a client may stay silent, in milliseconds: one and a half times the
/// CONNECT keep-alive. A keep-alive of `0` switches the check off.
pub fn keep_alive_timeout(keep_alive_secs: u16) -> (r: Option<u32>)
    ensures
        keep_alive_secs == 0 <==> r is None,
        r matches Some(ms) ==> ms == keep_alive_secs * 1500,
{
    if keep_alive_secs == 0 {
        None
    } else {
        Some((keep_alive_secs as u32) * 1500)
    }
}

/// Whether a client silent for `idle_ms` has missed its keep-alive.
pub fn keep_alive_expired(keep_alive_secs: u16, idle_ms: u64) -> (r: bool)
    ensures
        r <==> keep_alive_secs > 0 && idle_ms >= keep_alive_secs * 1500,
{
    match keep_alive_timeout(keep_alive_secs) {
        None => false,
        Some(ms) => idle_ms >= ms as u64,
    }
}

/// Policing of slow senders while a frame is partly read: every
/// `window_ms` at least `min_chunk` bytes must arrive, and a stall of
/// `max_stall_ms` ends the connection.
#[derive(Clone, Copy, Debug, PartialEq, Eq, Structural)]
pub struct ReadRate {
    pub window_ms: u32,
    pub max_stall_ms: u32,
    pub min_chunk: u16,
}

impl ReadRate {
    /// A policy from the window and stall limit in seconds.
    pub fn new(window_secs: u16, max_stall_secs: u16, min_chunk: u16) -> (r: ReadRate)
        ensures
            r.window_ms == window_secs * 1000,
            r.max_stall_ms == max_stall_secs * 1000,
            r.min_chunk == min_chunk,
    {
        ReadRate {
            window_ms: (window_secs as u32) * 1000,
            max_stall_ms: (max_stall_secs as u32) * 1000,
            min_chunk,
        }
    }
}

/// Progress of the frame being read.
#[derive(Clone, Copy, Debug, PartialEq, Eq, Structural)]
pub struct FrameProgress {
    /// When the sender last kept up the rate (or the frame started).
    pub stall_since_ms: u64,
    /// Bytes received in the current window.
    pub window_bytes: u64,
}

impl FrameProgress {
    /// A frame began at `now_ms`.
    pub fn start(now_ms: u64) -> (r: FrameProgress)
        ensures
            r.stall_since_ms == now_ms,
            r.window_bytes == 0,
    {
        FrameProgress { stall_since_ms: now_ms, window_bytes: 0 }
    }

    /// `n` more bytes of the frame arrived.
    pub fn on_bytes(&mut self, n: u64)
        ensures
            final(self).stall_since_ms == old(self).stall_since_ms,
            final(self).window_bytes == if old(self).window_bytes + n > u64::MAX {
                u64::MAX as int
            } else {
                old(self).window_bytes + n
            },
    {
        self.window_bytes = self.window_bytes.saturating_add(n);
    }

    /// A window ended at `now_ms`. Returns `true` when the read timed out:
    /// too few bytes came in the window and the stall has lasted the limit.
    /// Otherwise a window that kept up the rate ends the stall, and a new
    /// window begins.
    pub fn on_window_end(&mut self, rate: &ReadRate, now_ms: u64) -> (timed_out: bool)
        requires
            old(self).stall_since_ms <= now_ms,
        ensures
            timed_out <==> old(self).window_bytes < rate.min_chunk && now_ms - old(self).stall_since_ms
                >= rate.max_stall_ms,
            final(self).window_bytes == 0,
            final(self).stall_since_ms == if old(self).window_bytes >= rate.min_chunk {
                now_ms
            } else {
                old(self).stall_since_ms
            },
    {
        let kept_up = self.window_bytes >= rate.min_chunk as u64;
        self.window_bytes = 0;
        if kept_up {
            self.stall_since_ms = now_ms;
            false
        } else {
            now_ms - self.stall_since_ms >= rate.max_stall_ms as u64
        }
    }
}

} // verus!
