//! What Server-Sent Events are framed to.
use vstd::prelude::*;
use vstd::utf8::{decode_utf8, valid_utf8};

use crate::transport::framing::StreamFrameView;
use crate::transport::sse::{colon_at, field_name, field_value, SseView, MAX_LINE_BYTES};

verus! {

/// Whether bytes are within one line.
pub open spec fn within_a_line(bytes: Seq<u8>) -> bool {
    forall|i: int| 0 <= i < bytes.len() ==> (#[trigger] bytes[i]) != 10 && bytes[i] != 13
}

/// Whether a line carries some text as data: after the name, the colon and at
/// most one space.
pub open spec fn carries_data(line: Seq<char>, text: Seq<char>) -> bool {
    line == "data: "@ + text || line == "data:"@ + text && (text.len() == 0 || text[0] != ' ')
}

proof fn lemma_within(p: SseView, line: Seq<u8>)
    requires
        p.fault is None,
        p.line.len() == 0,
        line.len() > 0,
        line.len() <= MAX_LINE_BYTES,
        within_a_line(line),
    ensures
        p.bytes(line).state == (SseView { line, after_return: false, ..p }),
        p.bytes(line).frames == Seq::<StreamFrameView>::empty(),
    decreases line.len(),
{
    let less = line.drop_last();
    let last = line[line.len() - 1];
    assert(last != 10 && last != 13);
    if less.len() > 0 {
        assert forall|i: int| 0 <= i < less.len() implies (#[trigger] less[i]) != 10 && less[i]
            != 13 by {
            assert(less[i] == line[i]);
        }
        lemma_within(p, less);
        assert(less.push(last) =~= line);
    } else {
        assert(less =~= Seq::empty());
        assert(p.bytes(less).state == p);
        assert(p.line =~= Seq::empty());
        assert(p.line.push(last) =~= line);
    }
}

proof fn lemma_data_line(line: Seq<char>, text: Seq<char>)
    requires
        carries_data(line, text),
    ensures
        field_name(line) == "data"@,
        field_value(line) == text,
{
    reveal_strlit("data: ");
    reveal_strlit("data:");
    reveal_strlit("data");
    assert("data: "@.len() == 6 && "data:"@.len() == 5 && "data"@.len() == 4);
    assert(line[0] == 'd' && line[1] == 'a' && line[2] == 't' && line[3] == 'a' && line[4] == ':');
    let a = line.skip(1);
    let b = a.skip(1);
    let c = b.skip(1);
    let d = c.skip(1);
    assert(a[0] == 'a' && b[0] == 't' && c[0] == 'a' && d[0] == ':');
    assert(colon_at(d) == 0);
    assert(colon_at(c) == 1);
    assert(colon_at(b) == 2);
    assert(colon_at(a) == 3);
    assert(colon_at(line) == 4);
    assert(line.take(4) =~= "data"@);
    if line == "data: "@ + text {
        assert(line[5] == ' ');
        assert(line.skip(6) =~= text);
    } else {
        assert(line.skip(5) =~= text);
    }
}

/// The data lines of an event make one frame: each line adds its text, after a
/// line break where it is not the first, and the blank line ends the event.
/// Nothing is trimmed but the one space after the colon.
pub proof fn data_lines_make_one_frame(p: SseView, line: Seq<u8>, text: Seq<char>)
    requires
        p.fault is None,
        p.line.len() == 0,
        line.len() > 0,
        line.len() <= MAX_LINE_BYTES,
        within_a_line(line),
        valid_utf8(line),
        carries_data(decode_utf8(line), text),
    ensures
        ({
            let all = match p.data {
                Some(before) => before + "\n"@ + text,
                None => text,
            };
            let after = p.bytes(line.push(10u8));
            let ended = after.state.byte(10u8);
            &&& after.frames.len() == 0
            &&& after.state == (SseView {
                line: Seq::empty(),
                data: Some(all),
                after_return: false,
                fault: None,
            })
            &&& ended.state.data is None && ended.state.fault is None && ended.state.line.len() == 0
            &&& ended.frames == if all.len() > 0 {
                seq![StreamFrameView::Data(all)]
            } else {
                Seq::empty()
            }
        }),
{
    lemma_within(p, line);
    lemma_data_line(decode_utf8(line), text);
    assert(line.push(10u8).drop_last() =~= line);
    let before = p.bytes(line);
    assert(before.frames + Seq::<StreamFrameView>::empty() =~= Seq::empty());
    let after = p.bytes(line.push(10u8)).state;
    assert(after.line =~= Seq::empty());
    assert(valid_utf8(Seq::<u8>::empty())) by {
        reveal_with_fuel(vstd::utf8::valid_utf8, 2);
    }
}

} // verus!
