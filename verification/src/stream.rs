//! The connection controller: a poll-driven state machine that a driver
//! feeds with events (response arrival, body chunks, clock ticks, end of
//! body) and that decides everything else — status validation, gzip
//! routing, idle-timeout supervision, framing and filtering. Every error
//! is terminal: once the stream is `Terminated` it yields nothing more.

use vstd::prelude::*;
use crate::error::Error;
use crate::filter::{filter_messages, msg_run};
use crate::gzip::GzipDecoder;
use crate::lines::{framer_run, LineFramer};
use crate::timeout::Timeout;

verus! {

/// The lifecycle of one stream connection.
#[derive(Clone, Copy, Debug, PartialEq, Eq, Structural)]
pub enum StreamState {
    /// The request is in flight; the timeout supervises connection latency.
    Connecting,
    /// Status 200 was validated; body bytes flow through the pipeline.
    Streaming,
    /// Finished, by error or by end of body; no event changes it again.
    Terminated,
}

/// One streaming connection: its state, its idle timeout, the optional
/// gzip adapter chosen from the response headers, and the line framer.
pub struct TwitterStream {
    state: StreamState,
    timeout: Timeout,
    timeout_ms: Option<u64>,
    gzip: Option<GzipDecoder>,
    framer: LineFramer,
}

impl TwitterStream {
    /// The connection's lifecycle state.
    pub closed spec fn state(&self) -> StreamState {
        self.state
    }

    /// The idle timer supervising the connection.
    pub closed spec fn timer(&self) -> Timeout {
        self.timeout
    }

    /// The configured idle duration; `None` disables the timeout.
    pub closed spec fn duration_ms(&self) -> Option<u64> {
        self.timeout_ms
    }

    /// Whether the body is being routed through the gzip adapter.
    pub closed spec fn gzip_enabled(&self) -> bool {
        self.gzip is Some
    }

    /// The line framer's carry buffer.
    pub closed spec fn carry(&self) -> Seq<u8> {
        self.framer@
    }

    /// Well-formed: the timer is configured with the stream's own idle
    /// duration.
    pub open spec fn wf(&self) -> bool {
        self.timer().duration() == self.duration_ms()
    }

    /// Reads the lifecycle state.
    pub fn current_state(&self) -> (s: StreamState)
        ensures
            s == self.state(),
    {
        self.state
    }

    /// A stream whose request was just sent: connecting, with the timeout
    /// armed to supervise connection latency (or disabled).
    pub fn new(timeout_ms: Option<u64>, now: u64) -> (r: TwitterStream)
        requires
            timeout_ms matches Some(d) ==> now + d <= u64::MAX,
        ensures
            r.wf(),
            r.state() is Connecting,
            r.duration_ms() == timeout_ms,
            !r.gzip_enabled(),
            r.carry() == Seq::<u8>::empty(),
            r.timer().is_active() && !r.timer().has_fired(),
            timeout_ms matches Some(d) ==> r.timer().duration() == Some(d) && r.timer().deadline()
                == now + d,
            timeout_ms is None ==> r.timer().duration() is None,
    {
        let timeout = match timeout_ms {
            Some(d) => Timeout::after(now, d),
            None => Timeout::never(),
        };
        TwitterStream {
            state: StreamState::Connecting,
            timeout,
            timeout_ms,
            gzip: None,
            framer: LineFramer::new(),
        }
    }

    /// Handles the response head. Any status but 200 terminates the
    /// stream with that status and reads no body. On 200 the stream
    /// starts streaming, routes the body through the gzip adapter exactly
    /// when the response declared `Content-Encoding: gzip`, and rearms
    /// the timeout to supervise body inactivity.
    pub fn on_response(&mut self, now: u64, status: u16, gzip: bool) -> (r: Result<(), Error>)
        requires
            old(self).wf(),
            old(self).state() is Connecting,
            old(self).duration_ms() matches Some(d) ==> now + d <= u64::MAX,
        ensures
            final(self).wf(),
            final(self).duration_ms() == old(self).duration_ms(),
            status != 200 ==> ({
                &&& r == Err::<(), Error>(Error::Http(status))
                &&& final(self).state() is Terminated
                &&& !final(self).timer().is_active()
            }),
            status == 200 ==> ({
                &&& r is Ok
                &&& final(self).state() is Streaming
                &&& final(self).gzip_enabled() == gzip
                &&& final(self).carry() == Seq::<u8>::empty()
                &&& final(self).timer().is_active() && !final(self).timer().has_fired()
                &&& (old(self).duration_ms() matches Some(d) ==> final(self).timer().duration()
                    == Some(d) && final(self).timer().deadline() == now + d)
                &&& (old(self).duration_ms() is None ==> final(self).timer().duration() is None)
            }),
    {
        if status != 200 {
            self.state = StreamState::Terminated;
            self.timeout.cancel();
            return Err(Error::Http(status));
        }
        self.state = StreamState::Streaming;
        self.timeout = match self.timeout_ms {
            Some(d) => Timeout::after(now, d),
            None => Timeout::never(),
        };
        self.gzip = if gzip {
            Some(GzipDecoder::new())
        } else {
            None
        };
        self.framer = LineFramer::new();
        Ok(())
    }

    /// Handles one chunk of body bytes: rearms the timeout, routes the
    /// bytes through the gzip adapter if enabled, frames them into lines
    /// and filters the lines into messages.
    ///
    /// Without gzip, the messages are exactly the filter's output over the
    /// framer's lines for this chunk; with gzip, the same holds of the
    /// bytes the inflater produced. An invalid UTF-8 line or a corrupt
    /// gzip stream terminates the stream, after yielding the messages
    /// completed before the failure.
    pub fn on_chunk(&mut self, now: u64, chunk: &[u8]) -> (r: (Vec<String>, Option<Error>))
        requires
            old(self).wf(),
            old(self).state() is Streaming,
            old(self).duration_ms() matches Some(d) ==> now + d <= u64::MAX,
        ensures
            final(self).wf(),
            final(self).duration_ms() == old(self).duration_ms(),
            final(self).gzip_enabled() == old(self).gzip_enabled(),
            r.1 is None ==> final(self).state() is Streaming,
            r.1 is Some ==> final(self).state() is Terminated,
            old(self).duration_ms() matches Some(d) ==> final(self).timer().deadline() == now + d,
            !old(self).gzip_enabled() ==> ({
                let st = framer_run((Seq::empty(), old(self).carry()), chunk@);
                let mr = msg_run(st.0);
                &&& r.0.deep_view() == mr.0
                &&& r.1 == (if mr.1 {
                    Some(Error::Utf8)
                } else {
                    None::<Error>
                })
                &&& !mr.1 ==> final(self).carry() == st.1
            }),
            old(self).gzip_enabled() && r.1 is None ==> exists|b: Seq<u8>|
                #![trigger framer_run((Seq::empty(), old(self).carry()), b)]
                {
                    let st = framer_run((Seq::empty(), old(self).carry()), b);
                    &&& msg_run(st.0) == (r.0.deep_view(), false)
                    &&& final(self).carry() == st.1
                },
            (old(self).gzip_enabled() && r.1 is Some) ==> (r.1->0 is Utf8 || r.1->0 is Custom),
    {
        self.timeout.reset(now);
        // The decompression stage: past it, both routes expose the same
        // capability — a batch of decoded bytes for the framer.
        let decoded: Result<Option<Vec<u8>>, Error> = match &mut self.gzip {
            None => Ok(None),
            Some(decoder) => match decoder.feed(chunk) {
                Ok(bytes) => Ok(Some(bytes)),
                Err(e) => Err(e),
            },
        };
        match decoded {
            Err(e) => {
                self.state = StreamState::Terminated;
                self.timeout.cancel();
                (Vec::new(), Some(e))
            },
            Ok(opt) => {
                let data: &[u8] = match &opt {
                    None => chunk,
                    Some(bytes) => bytes.as_slice(),
                };
                let (msgs, bad) = self.ingest_decoded(data);
                proof {
                    let st = framer_run((Seq::empty(), old(self).carry()), data@);
                    assert(msg_run(st.0) == (msgs.deep_view(), bad));
                }
                if bad {
                    self.state = StreamState::Terminated;
                    self.timeout.cancel();
                    (msgs, Some(Error::Utf8))
                } else {
                    (msgs, None)
                }
            },
        }
    }

    /// Feeds already-decoded body bytes through the line framer and the
    /// message filter: the branch-agnostic tail of the pipeline, verified
    /// for every byte sequence the decompression stage may hand it. The
    /// result is the completed messages and whether a non-heartbeat line
    /// failed UTF-8 validation.
    pub fn ingest_decoded(&mut self, data: &[u8]) -> (r: (Vec<String>, bool))
        ensures
            final(self).state() == old(self).state(),
            final(self).timer() == old(self).timer(),
            final(self).duration_ms() == old(self).duration_ms(),
            final(self).gzip_enabled() == old(self).gzip_enabled(),
            ({
                let st = framer_run((Seq::empty(), old(self).carry()), data@);
                &&& (r.0.deep_view(), r.1) == msg_run(st.0)
                &&& final(self).carry() == st.1
            }),
    {
        let lines = self.framer.feed(data);
        filter_messages(&lines)
    }

    /// Handles a clock tick: polls the idle timeout. Expiry terminates
    /// the stream with `TimedOut`, exactly once; a terminated stream
    /// ignores the clock.
    pub fn on_timer(&mut self, now: u64) -> (r: Option<Error>)
        requires
            old(self).wf(),
        ensures
            final(self).wf(),
            final(self).duration_ms() == old(self).duration_ms(),
            r is Some <==> (!(old(self).state() is Terminated) && old(self).timer().is_armed()
                && old(self).timer().is_active() && !old(self).timer().has_fired() && now >= old(
                self,
            ).timer().deadline()),
            r is Some ==> r == Some(Error::TimedOut) && final(self).state() is Terminated,
            r is None ==> final(self).state() == old(self).state(),
    {
        match self.state {
            StreamState::Terminated => None,
            _ => {
                if self.timeout.poll(now) {
                    self.state = StreamState::Terminated;
                    self.timeout.cancel();
                    Some(Error::TimedOut)
                } else {
                    None
                }
            },
        }
    }

    /// Handles the end of the body: the stream terminates cleanly and the
    /// timer is released. An unterminated partial line left in the carry
    /// buffer is discarded — this crate's documented end-of-stream choice.
    pub fn on_end(&mut self)
        requires
            old(self).wf(),
        ensures
            final(self).wf(),
            final(self).state() is Terminated,
            !final(self).timer().is_active(),
            final(self).duration_ms() == old(self).duration_ms(),
    {
        self.state = StreamState::Terminated;
        self.timeout.cancel();
    }
}

} // verus!
