//! One connection of the status server: when it is recycled, when it is
//! given up, and when its answer has gone out.

use crate::http::{spec_feed, HttpRequest, ParseState};
use crate::http_api::{
    handle_request, spec_animation_after_request, spec_device_after_request,
    spec_layout_after_request, spec_response,
};
use crate::http_response::HttpResponse;
use crate::menu::{same_identity, Context};
use vstd::prelude::*;

verus! {

/// The port of the status server.
pub const HTTP_PORT: u16 = 80;

/// The port of the operator's terminal.
pub const TELNET_PORT: u16 = 23;

/// The port of the lighting-control packets.
pub const ARTNET_PORT: u16 = 6454;

/// A connection without a whole request is given up after this long.
pub const REQUEST_LIMIT_MS: i64 = 5000;

/// A connection is recycled this long after its answer has gone out.
pub const CLOSE_GRACE_MS: i64 = 50;

/// Bytes taken from the socket at a time.
pub const RECV_CHUNK: usize = 128;

/// What follows when bytes of the answer have gone out.
#[derive(Clone, Copy, Debug, PartialEq, Eq, Structural)]
pub enum SendOutcome {
    /// More of the answer waits.
    Pending,
    /// The answer is out: close the connection.
    Close,
    /// The answer is out and a reboot was asked for: close the
    /// connection, then reboot.
    CloseAndReboot,
}

/// One connection of the status server.
pub struct HttpConn {
    pub request: HttpRequest,
    pub response: HttpResponse,
    /// Bytes of the answer that have gone out.
    pub sent: usize,
    /// When the connection is recycled; 0 while no answer has gone out.
    pub close_at: i64,
    /// When the peer connected; 0 while nobody is connected.
    pub connected_at: i64,
}

/// `time_ms` plus the grace period, or the largest time where that lies
/// behind it.
pub open spec fn spec_close_time(time_ms: i64) -> i64 {
    if time_ms + CLOSE_GRACE_MS > i64::MAX {
        i64::MAX
    } else {
        (time_ms + CLOSE_GRACE_MS) as i64
    }
}

impl HttpConn {
    pub open spec fn wf(&self) -> bool {
        self.request.wf() && self.connected_at >= 0
    }

    /// A connection that waits for a peer.
    pub fn new() -> (conn: Self)
        ensures
            conn.wf(),
            conn.request@.bytes == Seq::<u8>::empty(),
            conn.request@.state == ParseState::ReadingHeaders,
            conn.response@ == Seq::<u8>::empty(),
            conn.sent == 0,
            conn.close_at == 0,
            conn.connected_at == 0,
    {
        HttpConn {
            request: HttpRequest::new(),
            response: HttpResponse::new(),
            sent: 0,
            close_at: 0,
            connected_at: 0,
        }
    }

    /// Whether the socket is to be recycled at `time_ms`: its answer has
    /// gone out, and the peer is gone or the grace period is over. The
    /// result says whether the socket is to be aborted, which is so if it
    /// is still open.
    pub fn recycle(&mut self, open: bool, active: bool, time_ms: i64) -> (abort: bool)
        ensures
            abort == (open && old(self).close_at > 0 && (!active || time_ms >= old(self).close_at)),
            final(self).close_at == (if old(self).close_at > 0 && (!active || time_ms >= old(
                self,
            ).close_at) {
                0
            } else {
                old(self).close_at
            }),
            final(self).request == old(self).request,
            final(self).response == old(self).response,
            final(self).sent == old(self).sent,
            final(self).connected_at == old(self).connected_at,
    {
        if self.close_at > 0 && (!active || time_ms >= self.close_at) {
            self.close_at = 0;
            open
        } else {
            false
        }
    }

    /// Makes the connection wait for a new peer: request and answer are
    /// emptied. The caller has the socket listen again.
    pub fn rearm(&mut self)
        ensures
            final(self).wf(),
            final(self).request@.bytes == Seq::<u8>::empty(),
            final(self).request@.state == ParseState::ReadingHeaders,
            final(self).response@ == Seq::<u8>::empty(),
            final(self).sent == 0,
            final(self).connected_at == 0,
            final(self).close_at == old(self).close_at,
    {
        self.request.reset();
        self.response.clear();
        self.sent = 0;
        self.connected_at = 0;
    }

    /// Watches over a connection at `time_ms`. The time of connecting is
    /// noted when a peer is there. A peer whose request is not whole is
    /// given up if it can send no more or has been connected for more
    /// than five seconds; the result says so, and the caller aborts the
    /// socket and does nothing more with it in this pass.
    pub fn watch(&mut self, active: bool, may_recv: bool, time_ms: i64) -> (abort: bool)
        requires
            old(self).wf(),
            time_ms >= 0,
        ensures
            final(self).wf(),
            ({
                let since = if old(self).connected_at == 0 {
                    time_ms
                } else {
                    old(self).connected_at
                };
                let stuck = active && old(self).request@.state != ParseState::Complete && (!may_recv
                    || time_ms - since > REQUEST_LIMIT_MS);
                &&& abort == stuck
                &&& final(self).connected_at == (if active && !stuck {
                    since
                } else {
                    0
                })
            }),
            final(self).request == old(self).request,
            final(self).response == old(self).response,
            final(self).sent == old(self).sent,
            final(self).close_at == old(self).close_at,
    {
        if active {
            if self.connected_at == 0 {
                self.connected_at = time_ms;
            }
            if !self.request.is_complete() {
                if !may_recv || time_ms - self.connected_at > REQUEST_LIMIT_MS {
                    self.connected_at = 0;
                    return true;
                }
            }
        } else {
            self.connected_at = 0;
        }
        false
    }

    /// Whether bytes are to be taken from the socket: it has some, and
    /// the request is not whole.
    pub fn wants_input(&self, can_recv: bool) -> (wanted: bool)
        ensures
            wanted == (can_recv && self.request@.state != ParseState::Complete),
    {
        can_recv && !self.request.is_complete()
    }

    /// Takes in bytes from the socket. When they make the request whole,
    /// it is served: the answer stands in the response, and nothing of it
    /// has gone out.
    pub fn on_input(&mut self, data: &[u8], ctx: &mut Context, ip: [u8; 4]) -> (served: bool)
        requires
            old(self).wf(),
            old(ctx).hub75.wf(),
        ensures
            final(self).wf(),
            final(ctx).hub75.wf(),
            final(self).request@ == spec_feed(old(self).request@, data@),
            served == (final(self).request@.state == ParseState::Complete),
            final(self).close_at == old(self).close_at,
            final(self).connected_at == old(self).connected_at,
            served ==> {
                &&& final(self).sent == 0
                &&& final(self).response@ == spec_response(
                    final(self).request@.bytes,
                    *old(ctx),
                    ip,
                )
                &&& final(ctx).hub75@ == spec_device_after_request(
                    final(self).request@.bytes,
                    *old(ctx),
                )
                &&& final(ctx).animation == spec_animation_after_request(
                    final(self).request@.bytes,
                    *old(ctx),
                )
                &&& final(ctx).layout@ == spec_layout_after_request(
                    final(self).request@.bytes,
                    *old(ctx),
                )
                &&& same_identity(*final(ctx), *old(ctx))
            },
            !served ==> {
                &&& final(self).sent == old(self).sent
                &&& final(self).response == old(self).response
                &&& *final(ctx) == *old(ctx)
            },
    {
        if self.request.feed(data) {
            handle_request(&self.request, &mut self.response, ctx, ip);
            self.sent = 0;
            true
        } else {
            false
        }
    }

    /// The bytes of the answer that have not gone out.
    pub fn unsent(&self) -> (bytes: &[u8])
        ensures
            bytes@ == (if self.sent <= self.response@.len() {
                self.response@.skip(self.sent as int)
            } else {
                Seq::empty()
            }),
    {
        let all = self.response.as_bytes();
        if self.sent <= all.len() {
            let rest = &all[self.sent..all.len()];
            assert(rest@ =~= self.response@.skip(self.sent as int));
            rest
        } else {
            let rest = &all[0..0];
            assert(rest@ =~= Seq::<u8>::empty());
            rest
        }
    }

    /// Notes that `n` more bytes of the answer went out at `time_ms`.
    /// When the whole of an answer is out, the connection is to be closed
    /// and is recycled after the grace period.
    pub fn on_sent(&mut self, n: usize, time_ms: i64, reboot_pending: bool) -> (outcome:
        SendOutcome)
        requires
            old(self).sent + n <= usize::MAX,
        ensures
            final(self).sent == old(self).sent + n,
            ({
                let done = final(self).sent >= old(self).response@.len() && old(
                    self,
                ).response@.len() > 0;
                &&& outcome == (if !done {
                    SendOutcome::Pending
                } else if reboot_pending {
                    SendOutcome::CloseAndReboot
                } else {
                    SendOutcome::Close
                })
                &&& final(self).close_at == (if done {
                    spec_close_time(time_ms)
                } else {
                    old(self).close_at
                })
            }),
            final(self).request == old(self).request,
            final(self).response == old(self).response,
            final(self).connected_at == old(self).connected_at,
    {
        self.sent = self.sent + n;
        let len: usize = self.response.as_bytes().len();
        if self.sent >= len && len > 0 {
            self.close_at = if time_ms > i64::MAX - CLOSE_GRACE_MS {
                i64::MAX
            } else {
                time_ms + CLOSE_GRACE_MS
            };
            if reboot_pending {
                SendOutcome::CloseAndReboot
            } else {
                SendOutcome::Close
            }
        } else {
            SendOutcome::Pending
        }
    }
}

} // verus!
