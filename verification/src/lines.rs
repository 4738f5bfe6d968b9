//! The line framer: splits an arbitrarily-chunked byte stream into complete
//! newline-terminated lines, carrying at most one partial line between
//! chunks. A trailing carriage return is stripped from every emitted line.
//! An unterminated remainder at end of stream is handed back by
//! [`LineFramer::into_carry`]; the stream controller discards it, which is
//! this crate's documented end-of-stream choice.

use vstd::prelude::*;

verus! {

/// The newline byte that terminates a line.
pub const LINE_FEED: u8 = 10;

/// The carriage-return byte stripped from the tail of a line.
pub const CARRIAGE_RETURN: u8 = 13;

/// Removes a single trailing carriage return, if present.
pub open spec fn strip_cr(line: Seq<u8>) -> Seq<u8> {
    if line.len() > 0 && line.last() == CARRIAGE_RETURN {
        line.drop_last()
    } else {
        line
    }
}

/// One step of the framer: a newline completes the carried line (with its
/// trailing carriage return stripped); any other byte extends the carry.
/// The state is the pair (lines emitted so far, carry buffer).
pub open spec fn framer_step(st: (Seq<Seq<u8>>, Seq<u8>), b: u8) -> (Seq<Seq<u8>>, Seq<u8>) {
    if b == LINE_FEED {
        (st.0.push(strip_cr(st.1)), Seq::empty())
    } else {
        (st.0, st.1.push(b))
    }
}

/// Runs the framer over a byte sequence, left to right.
pub open spec fn framer_run(st: (Seq<Seq<u8>>, Seq<u8>), s: Seq<u8>) -> (Seq<Seq<u8>>, Seq<u8>)
    decreases s.len(),
{
    if s.len() == 0 {
        st
    } else {
        framer_run(framer_step(st, s[0]), s.drop_first())
    }
}

/// The framer's starting state: nothing emitted, nothing carried.
pub open spec fn framer_init() -> (Seq<Seq<u8>>, Seq<u8>) {
    (Seq::empty(), Seq::empty())
}

/// The complete lines contained in a whole byte sequence fed at once.
pub open spec fn lines_of(s: Seq<u8>) -> Seq<Seq<u8>> {
    framer_run(framer_init(), s).0
}

/// The unterminated remainder after the last newline of a byte sequence.
pub open spec fn carry_of(s: Seq<u8>) -> Seq<u8> {
    framer_run(framer_init(), s).1
}

/// Running the framer over `a + b` equals running it over `a`, then over `b`.
pub proof fn lemma_run_app(st: (Seq<Seq<u8>>, Seq<u8>), a: Seq<u8>, b: Seq<u8>)
    ensures
        framer_run(st, a + b) == framer_run(framer_run(st, a), b),
    decreases a.len(),
{
    if a.len() == 0 {
        assert(a + b =~= b);
    } else {
        assert((a + b)[0] == a[0]);
        assert((a + b).drop_first() =~= a.drop_first() + b);
        lemma_run_app(framer_step(st, a[0]), a.drop_first(), b);
    }
}

/// Extending the input by one byte applies one more step.
pub proof fn lemma_run_snoc(st: (Seq<Seq<u8>>, Seq<u8>), s: Seq<u8>, b: u8)
    ensures
        framer_run(st, s.push(b)) == framer_step(framer_run(st, s), b),
{
    assert(s.push(b) =~= s + seq![b]);
    lemma_run_app(st, s, seq![b]);
    let st1 = framer_run(st, s);
    assert(seq![b][0] == b);
    assert(framer_run(st1, seq![b]) == framer_run(framer_step(st1, b), seq![b].drop_first()));
    assert(seq![b].drop_first() =~= Seq::<u8>::empty());
    assert(framer_run(framer_step(st1, b), Seq::<u8>::empty()) == framer_step(st1, b));
}

/// The carry buffer never holds a newline: at any inspection point it is
/// at most one partial, undelimited line.
pub proof fn lemma_carry_is_partial(st: (Seq<Seq<u8>>, Seq<u8>), s: Seq<u8>)
    requires
        forall|i: int| 0 <= i < st.1.len() ==> #[trigger] st.1[i] != LINE_FEED,
    ensures
        forall|i: int|
            0 <= i < framer_run(st, s).1.len() ==> #[trigger] framer_run(st, s).1[i] != LINE_FEED,
    decreases s.len(),
{
    if s.len() == 0 {
        assert forall|i: int| 0 <= i < framer_run(st, s).1.len() implies #[trigger] framer_run(
            st,
            s,
        ).1[i] != LINE_FEED by {
            assert(framer_run(st, s).1[i] == st.1[i]);
        }
    } else {
        let st1 = framer_step(st, s[0]);
        assert forall|i: int| 0 <= i < st1.1.len() implies #[trigger] st1.1[i] != LINE_FEED by {
            if s[0] != LINE_FEED && i == st.1.len() {
                assert(st1.1[i] == s[0]);
            }
        }
        lemma_carry_is_partial(st1, s.drop_first());
        assert forall|i: int| 0 <= i < framer_run(st, s).1.len() implies #[trigger] framer_run(
            st,
            s,
        ).1[i] != LINE_FEED by {
            assert(framer_run(st, s) == framer_run(st1, s.drop_first()));
            assert(framer_run(st1, s.drop_first()).1[i] != LINE_FEED);
        }
    }
}

/// Splits a byte stream into complete lines, one chunk at a time.
///
/// The carry buffer holds the bytes seen since the last newline; it is the
/// only state, so lines are reconstructed correctly however the stream is
/// cut into chunks.
pub struct LineFramer {
    carry: Vec<u8>,
}

impl View for LineFramer {
    type V = Seq<u8>;

    /// A framer is abstractly its carry buffer.
    closed spec fn view(&self) -> Seq<u8> {
        self.carry@
    }
}

impl LineFramer {
    /// A framer with an empty carry buffer.
    pub fn new() -> (r: LineFramer)
        ensures
            r@ == Seq::<u8>::empty(),
    {
        LineFramer { carry: Vec::new() }
    }

    /// Feeds one chunk; returns every line completed by it, in order.
    ///
    /// The result and the new carry are exactly what the framer specification
    /// yields when run over the chunk from the old carry.
    pub fn feed(&mut self, chunk: &[u8]) -> (lines: Vec<Vec<u8>>)
        ensures
            lines.deep_view() == framer_run((Seq::empty(), old(self)@), chunk@).0,
            final(self)@ == framer_run((Seq::empty(), old(self)@), chunk@).1,
    {
        let ghost st0: (Seq<Seq<u8>>, Seq<u8>) = (Seq::empty(), self.carry@);
        let mut lines: Vec<Vec<u8>> = Vec::new();
        let mut i: usize = 0;
        proof {
            assert(chunk@.take(0) =~= Seq::<u8>::empty());
            assert(lines.deep_view() =~~= Seq::<Seq<u8>>::empty());
        }
        while i < chunk.len()
            invariant
                i <= chunk.len(),
                framer_run(st0, chunk@.take(i as int)) == (lines.deep_view(), self.carry@),
            decreases chunk.len() - i,
        {
            let b = chunk[i];
            proof {
                assert(chunk@.take(i + 1) =~= chunk@.take(i as int).push(b));
                lemma_run_snoc(st0, chunk@.take(i as int), b);
            }
            if b == LINE_FEED {
                if self.carry.len() > 0 && self.carry[self.carry.len() - 1] == CARRIAGE_RETURN {
                    self.carry.pop();
                }
                let line = self.carry.split_off(0);
                lines.push(line);
                proof {
                    assert(lines.deep_view() =~~= framer_run(st0, chunk@.take(i + 1)).0);
                    assert(self.carry@ =~= framer_run(st0, chunk@.take(i + 1)).1);
                }
            } else {
                self.carry.push(b);
                proof {
                    assert(lines.deep_view() =~~= framer_run(st0, chunk@.take(i + 1)).0);
                }
            }
            i = i + 1;
        }
        proof {
            assert(chunk@.take(chunk@.len() as int) =~= chunk@);
        }
        lines
    }

    /// Ends the stream, handing back the unterminated remainder, if any.
    pub fn into_carry(self) -> (rest: Vec<u8>)
        ensures
            rest@ == self@,
    {
        self.carry
    }
}

/// Concatenation of a sequence of chunks into one byte sequence.
pub open spec fn concat_chunks(chunks: Seq<Seq<u8>>) -> Seq<u8>
    decreases chunks.len(),
{
    if chunks.len() == 0 {
        Seq::empty()
    } else {
        concat_chunks(chunks.drop_last()) + chunks.last()
    }
}

/// Runs the framer over a sequence of chunks, one after the other.
pub open spec fn framer_run_chunks(st: (Seq<Seq<u8>>, Seq<u8>), chunks: Seq<Seq<u8>>) -> (
    Seq<Seq<u8>>,
    Seq<u8>,
)
    decreases chunks.len(),
{
    if chunks.len() == 0 {
        st
    } else {
        framer_run(framer_run_chunks(st, chunks.drop_last()), chunks.last())
    }
}

/// Round trip of the framer: however a byte sequence is cut into chunks,
/// feeding the chunks one at a time yields exactly the lines, and the carry,
/// of feeding the whole sequence at once.
pub proof fn lemma_framer_chunking(chunks: Seq<Seq<u8>>)
    ensures
        framer_run_chunks(framer_init(), chunks) == framer_run(
            framer_init(),
            concat_chunks(chunks),
        ),
        framer_run_chunks(framer_init(), chunks).0 == lines_of(concat_chunks(chunks)),
        framer_run_chunks(framer_init(), chunks).1 == carry_of(concat_chunks(chunks)),
    decreases chunks.len(),
{
    if chunks.len() == 0 {
    } else {
        lemma_framer_chunking(chunks.drop_last());
        lemma_run_app(framer_init(), concat_chunks(chunks.drop_last()), chunks.last());
    }
}

} // verus!
