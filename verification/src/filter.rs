//! The message filter: classifies each framed line. Blank or
//! whitespace-only lines are server heartbeats and are silently skipped;
//! every other line must be well-formed UTF-8 and is yielded to the caller
//! as one JSON text message. The filter does not parse the JSON itself.

use vstd::prelude::*;
use vstd::utf8::{decode_utf8, valid_utf8};

verus! {

/// True of the bytes a heartbeat line may consist of: space, horizontal
/// tab, line feed and carriage return (the whitespace of RFC 7159).
pub open spec fn is_heartbeat_byte(b: u8) -> bool {
    b == 0x20 || b == 0x09 || b == 0x0a || b == 0x0d
}

/// A heartbeat (keep-alive) line: every byte is whitespace. The empty line
/// is a heartbeat.
pub open spec fn is_heartbeat(line: Seq<u8>) -> bool {
    forall|i: int| 0 <= i < line.len() ==> is_heartbeat_byte(#[trigger] line[i])
}

/// Decides whether a framed line is a heartbeat.
pub fn line_is_heartbeat(line: &[u8]) -> (r: bool)
    ensures
        r == is_heartbeat(line@),
{
    let mut i: usize = 0;
    while i < line.len()
        invariant
            i <= line.len(),
            forall|j: int| 0 <= j < i ==> is_heartbeat_byte(#[trigger] line@[j]),
        decreases line.len() - i,
    {
        let b = line[i];
        if !(b == 0x20 || b == 0x09 || b == 0x0a || b == 0x0d) {
            return false;
        }
        i = i + 1;
    }
    true
}

/// Relies on `core::str::from_utf8`: it returns `Ok` exactly on well-formed
/// UTF-8 input, and the returned string is the decoding of the bytes.
#[verifier::external_body]
pub(crate) fn utf8_check(bytes: &[u8]) -> (r: Option<&str>)
    ensures
        r is Some <==> valid_utf8(bytes@),
        r is Some ==> r->0@ == decode_utf8(bytes@),
{
    core::str::from_utf8(bytes).ok()
}

/// Runs the filter over a sequence of framed lines, in order: heartbeats
/// are dropped, valid lines are decoded, and the first invalid line stops
/// the stream. The result is the messages emitted before any stop, and
/// whether an invalid line was hit.
pub open spec fn msg_run(lines: Seq<Seq<u8>>) -> (Seq<Seq<char>>, bool)
    decreases lines.len(),
{
    if lines.len() == 0 {
        (Seq::empty(), false)
    } else if is_heartbeat(lines[0]) {
        msg_run(lines.drop_first())
    } else if valid_utf8(lines[0]) {
        let rest = msg_run(lines.drop_first());
        (seq![decode_utf8(lines[0])] + rest.0, rest.1)
    } else {
        (Seq::empty(), true)
    }
}

/// Filtering line lists composes: if the first list hits no invalid line,
/// its messages are followed by those of the second list; otherwise the
/// second list is never reached.
pub proof fn lemma_msg_run_app(a: Seq<Seq<u8>>, b: Seq<Seq<u8>>)
    ensures
        !msg_run(a).1 ==> msg_run(a + b) == (msg_run(a).0 + msg_run(b).0, msg_run(b).1),
        msg_run(a).1 ==> msg_run(a + b) == msg_run(a),
    decreases a.len(),
{
    if a.len() == 0 {
        assert(a + b =~= b);
        assert(msg_run(a).0 + msg_run(b).0 =~= msg_run(b).0);
    } else {
        assert((a + b)[0] == a[0]);
        assert((a + b).len() > 0);
        assert((a + b).drop_first() =~= a.drop_first() + b);
        lemma_msg_run_app(a.drop_first(), b);
        if !is_heartbeat(a[0]) && valid_utf8(a[0]) && !msg_run(a).1 {
            assert(seq![decode_utf8(a[0])] + (msg_run(a.drop_first()).0 + msg_run(b).0) =~= (
            seq![decode_utf8(a[0])] + msg_run(a.drop_first()).0) + msg_run(b).0);
        }
    }
}

/// A heartbeat line can be inserted anywhere, or dropped from anywhere,
/// without changing the filter's output: heartbeats never reach the caller
/// and never end the stream.
pub proof fn lemma_heartbeat_line_ignored(pre: Seq<Seq<u8>>, hb: Seq<u8>, post: Seq<Seq<u8>>)
    requires
        is_heartbeat(hb),
    ensures
        msg_run(pre + seq![hb] + post) == msg_run(pre + post),
    decreases pre.len(),
{
    if pre.len() == 0 {
        assert(pre + seq![hb] + post =~= seq![hb] + post);
        assert((seq![hb] + post)[0] == hb);
        assert((seq![hb] + post).drop_first() =~= post);
        assert(pre + post =~= post);
    } else {
        let whole = pre + seq![hb] + post;
        let short = pre + post;
        assert(whole[0] == pre[0]);
        assert(short[0] == pre[0]);
        assert(whole.len() > 0 && short.len() > 0);
        assert(whole.drop_first() =~= pre.drop_first() + seq![hb] + post);
        assert(short.drop_first() =~= pre.drop_first() + post);
        lemma_heartbeat_line_ignored(pre.drop_first(), hb, post);
    }
}

/// Applies the filter to a batch of framed lines.
///
/// Returns the decoded messages in order and a flag that is set exactly
/// when a non-heartbeat line failed UTF-8 validation; messages completed
/// before the failing line are still returned, and lines after it are not
/// examined.
pub fn filter_messages(lines: &Vec<Vec<u8>>) -> (r: (Vec<String>, bool))
    ensures
        (r.0.deep_view(), r.1) == msg_run(lines.deep_view()),
{
    let ghost ldv: Seq<Seq<u8>> = lines.deep_view();
    let mut out: Vec<String> = Vec::new();
    let mut i: usize = 0;
    proof {
        assert(ldv.take(0) =~= Seq::<Seq<u8>>::empty());
        assert(out.deep_view() =~~= msg_run(ldv.take(0)).0);
    }
    while i < lines.len()
        invariant
            i <= lines.len(),
            ldv == lines.deep_view(),
            ldv.len() == lines.len(),
            forall|j: int| 0 <= j < ldv.len() ==> ldv[j] == #[trigger] lines@[j]@,
            msg_run(ldv.take(i as int)) == (out.deep_view(), false),
        decreases lines.len() - i,
    {
        let line: &Vec<u8> = &lines[i];
        let ghost cur: Seq<u8> = ldv[i as int];
        let ghost pre: (Seq<Seq<char>>, bool) = msg_run(ldv.take(i as int));
        proof {
            assert(line@ == cur);
            assert(ldv.take(i + 1) =~= ldv.take(i as int) + seq![cur]);
            lemma_msg_run_app(ldv.take(i as int), seq![cur]);
            assert(seq![cur][0] == cur);
            assert(seq![cur].drop_first() =~= Seq::<Seq<u8>>::empty());
        }
        if !line_is_heartbeat(line.as_slice()) {
            match utf8_check(line.as_slice()) {
                Some(text) => {
                    proof {
                        assert(msg_run(seq![cur]) == (
                            seq![decode_utf8(cur)] + msg_run(Seq::<Seq<u8>>::empty()).0,
                            false,
                        ));
                        assert(msg_run(ldv.take(i + 1)).0 =~= pre.0.push(decode_utf8(cur)));
                        assert(msg_run(ldv.take(i + 1)).1 == false);
                    }
                    out.push(text.to_owned());
                    proof {
                        assert(out.deep_view() =~~= pre.0.push(decode_utf8(cur)));
                    }
                },
                None => {
                    proof {
                        assert(msg_run(seq![cur]) == (Seq::<Seq<char>>::empty(), true));
                        assert(msg_run(ldv.take(i + 1)) =~~= (pre.0, true));
                        lemma_msg_run_app(ldv.take(i + 1), ldv.skip(i + 1));
                        assert(ldv.take(i + 1) + ldv.skip(i + 1) =~= ldv);
                        assert(msg_run(ldv) =~~= (pre.0, true));
                        assert(out.deep_view() =~~= pre.0);
                    }
                    return (out, true);
                },
            }
        } else {
            proof {
                assert(msg_run(seq![cur]) == msg_run(Seq::<Seq<u8>>::empty()));
                assert(msg_run(ldv.take(i + 1)).0 =~= pre.0);
                assert(msg_run(ldv.take(i + 1)).1 == false);
            }
        }
        i = i + 1;
    }
    proof {
        assert(ldv.take(ldv.len() as int) =~= ldv);
    }
    (out, false)
}

} // verus!
