//! What the parser of server-sent events gives for frames as providers write them.

use crate::agent::turn_laws;
use crate::flat;
use crate::sse;
use crate::sse::{FrameFields, SseFrameView};
use crate::text_laws;
use vstd::prelude::*;
use vstd::utf8::*;

verus! {

/// What a line of a frame is about.
pub enum FieldView {
    /// The event's name.
    Event,
    /// Data.
    Data,
    /// Anything else, by its name. A comment is a field without a name.
    Other(Seq<char>),
}

/// A line of a frame.
pub struct LineView {
    /// The field.
    pub field: FieldView,
    /// Its value.
    pub value: Seq<char>,
    /// Whether a colon follows the field's name.
    pub colon: bool,
    /// Whether a space follows the colon.
    pub space: bool,
    /// Whether the line ends in a carriage return.
    pub cr: bool,
}

/// The name of a field.
pub open spec fn name_of(field: FieldView) -> Seq<char> {
    match field {
        FieldView::Event => "event"@,
        FieldView::Data => "data"@,
        FieldView::Other(name) => name,
    }
}

/// A line without its carriage return.
pub open spec fn body(l: LineView) -> Seq<char> {
    name_of(l.field) + (if l.colon {
        seq![':'] + ((if l.space {
            seq![' ']
        } else {
            Seq::empty()
        }) + l.value)
    } else {
        Seq::empty()
    })
}

/// A line as it is written.
pub open spec fn written(l: LineView) -> Seq<char> {
    body(l) + (if l.cr {
        seq!['\r']
    } else {
        Seq::empty()
    })
}

/// Whether a line can be told from what is written: its parts hold no line feed, a name holds no
/// colon, a value that begins with a space has one more in front of it, and what ends in a carriage
/// return has one more behind it.
pub open spec fn legible(l: LineView) -> bool {
    &&& !l.value.contains('\n')
    &&& !l.space && l.value.len() > 0 ==> l.value[0] != ' '
    &&& !l.colon ==> l.value.len() == 0 && !l.space
    &&& !l.cr && body(l).len() > 0 ==> body(l).last() != '\r'
    &&& l.field matches FieldView::Other(name) ==> !name.contains(':') && !name.contains('\n')
        && name != "event"@ && name != "data"@
}

/// Lines as they are written, with a line feed between each two.
pub open spec fn whole(lines: Seq<LineView>) -> Seq<char>
    decreases lines.len(),
{
    if lines.len() == 0 {
        Seq::empty()
    } else if lines.len() == 1 {
        written(lines[0])
    } else {
        written(lines[0]) + seq!['\n'] + whole(lines.drop_first())
    }
}

/// The name of an event that a line gives.
pub open spec fn event_in(l: LineView) -> Seq<Seq<char>> {
    if l.field is Event {
        seq![l.value]
    } else {
        Seq::empty()
    }
}

/// The data that a line gives.
pub open spec fn data_in(l: LineView) -> Seq<Seq<char>> {
    if l.field is Data {
        seq![l.value]
    } else {
        Seq::empty()
    }
}

proof fn lemma_position(a: Seq<char>, c: char, b: Seq<char>)
    requires
        !a.contains(c),
    ensures
        sse::position_of(a + seq![c] + b, c) == a.len(),
        sse::position_of(a, c) == a.len(),
    decreases a.len(),
{
    let all = a + seq![c] + b;
    if a.len() > 0 {
        assert(a.contains(a[0]));
        assert(all[0] == a[0]);
        assert(all.drop_first() =~= a.drop_first() + seq![c] + b);
        assert forall|i: int| 0 <= i < a.drop_first().len() implies a.drop_first()[i] != c by {
            assert(a.drop_first()[i] == a[i + 1]);
        }
        lemma_position(a.drop_first(), c, b);
    }
}

proof fn lemma_names()
    ensures
        "event"@ != "data"@,
        "event"@.len() == 5,
        "data"@.len() == 4,
        !"event"@.contains(':'),
        !"data"@.contains(':'),
        !"event"@.contains('\n'),
        !"data"@.contains('\n'),
        "event"@[0] != ':',
        "data"@[0] != ':',
{
    reveal_strlit("event");
    reveal_strlit("data");
    assert("event"@.len() != "data"@.len());
}

proof fn lemma_line(acc: FrameFields, l: LineView)
    requires
        legible(l),
    ensures
        sse::read_line(acc, written(l)) == (FrameFields {
            event: if l.field is Event {
                l.value
            } else {
                acc.event
            },
            data: acc.data + data_in(l),
        }),
        !written(l).contains('\n'),
{
    lemma_names();
    let name = name_of(l.field);
    let raw = written(l);
    let line = sse::without_cr(raw);
    assert(line =~= body(l)) by {
        if l.cr {
            assert(raw.last() == '\r');
            assert(raw.drop_last() =~= body(l));
        } else {
            assert(raw =~= body(l));
        }
    }
    let rest = (if l.space {
        seq![' ']
    } else {
        Seq::empty()
    }) + l.value;
    assert(!name.contains(':') && !name.contains('\n'));
    assert(!raw.contains('\n')) by {
        assert forall|i: int| 0 <= i < raw.len() implies raw[i] != '\n' by {
            if i < name.len() {
                assert(raw[i] == name[i]);
                assert(name.contains(name[i]));
            } else if i < body(l).len() && i > name.len() {
                let k = i - name.len() - 1;
                assert(raw[i] == rest[k]);
                if l.space && k > 0 {
                    assert(rest[k] == l.value[k - 1]);
                    assert(l.value.contains(l.value[k - 1]));
                } else if !l.space {
                    assert(rest[k] == l.value[k]);
                    assert(l.value.contains(l.value[k]));
                }
            }
        }
    }
    lemma_position(name, ':', rest);
    assert(acc.data + Seq::<Seq<char>>::empty() =~= acc.data);
    if l.colon {
        assert(line =~= name + seq![':'] + rest);
        assert(line.take(name.len() as int) =~= name);
        if l.space {
            assert(line.skip((name.len() + 2) as int) =~= l.value);
        } else {
            assert(line.skip((name.len() + 1) as int) =~= l.value);
        }
        assert(sse::field_name(line) == name);
        assert(sse::field_value(line) == l.value);
    } else {
        assert(line =~= name);
        assert(line.take(name.len() as int) =~= name);
        assert(l.value =~= Seq::<char>::empty());
        assert(sse::field_value(line) == l.value);
    }
    if name.len() > 0 {
        assert(line[0] == name[0]);
        assert(name.contains(name[0]));
    }
    if l.field is Data {
        assert(acc.data.push(l.value) =~= acc.data + seq![l.value]);
    }
}

proof fn lemma_lines(acc: FrameFields, lines: Seq<LineView>)
    requires
        lines.len() > 0,
        forall|i: int| 0 <= i < lines.len() ==> legible(#[trigger] lines[i]),
    ensures
        sse::read_lines(acc, whole(lines)).data == acc.data + lines.flat_map(
            |l: LineView| data_in(l),
        ),
        sse::read_lines(acc, whole(lines)).event == match turn_laws::last_of(
            lines.flat_map(|l: LineView| event_in(l)),
        ) {
            Some(name) => name,
            None => acc.event,
        },
    decreases lines.len(),
{
    let d = |l: LineView| data_in(l);
    let e = |l: LineView| event_in(l);
    let first = lines[0];
    let line = written(first);
    let text = whole(lines);
    assert(legible(lines[0]));
    lemma_line(acc, first);
    flat::lemma_flat_one(first, d);
    flat::lemma_flat_one(first, e);
    let next = sse::read_line(acc, line);
    if lines.len() == 1 {
        assert(lines =~= seq![first]);
        lemma_position(line, '\n', Seq::empty());
    } else {
        let rest = lines.drop_first();
        lemma_position(line, '\n', whole(rest));
        assert(text.take(line.len() as int) =~= line);
        assert(text.skip((line.len() + 1) as int) =~= whole(rest));
        assert forall|i: int| 0 <= i < rest.len() implies legible(#[trigger] rest[i]) by {
            assert(rest[i] == lines[i + 1]);
        }
        lemma_lines(next, rest);
        assert(lines =~= seq![first] + rest);
        flat::lemma_flat_join(seq![first], rest, d);
        flat::lemma_flat_join(seq![first], rest, e);
        assert(acc.data + data_in(first) + rest.flat_map(d) =~= acc.data + (data_in(first)
            + rest.flat_map(d)));
        let later = rest.flat_map(e);
        if later.len() > 0 {
            assert((event_in(first) + later).last() == later.last());
        } else {
            assert(event_in(first) + later =~= event_in(first));
        }
    }
}

/// A frame as providers write it gives the name of its last `event` line and all its `data` lines, in
/// order, with a line feed between each two and not a character more or less. Comments and other
/// fields make no difference. A frame without a name and without data is none.
pub proof fn law_frame_is_read(lines: Seq<LineView>)
    requires
        lines.len() > 0,
        forall|i: int| 0 <= i < lines.len() ==> legible(#[trigger] lines[i]),
    ensures
        ({
            let name = turn_laws::last_of(lines.flat_map(|l: LineView| event_in(l)));
            let data = lines.flat_map(|l: LineView| data_in(l));
            match sse::text_frame(whole(lines)) {
                None => data.len() == 0 && (name is None || name->0.len() == 0),
                Some(frame) => {
                    &&& data.len() > 0 || (name is Some && name->0.len() > 0)
                    &&& match name {
                        Some(n) => frame.event == n,
                        None => frame.event.len() == 0,
                    }
                    &&& if data.len() == 0 {
                        frame.data.len() == 0
                    } else {
                        seq!['\n'] + frame.data == data.flat_map(
                            |l: Seq<char>| text_laws::broken(l),
                        )
                    }
                },
            }
        }),
{
    let acc = FrameFields { event: Seq::empty(), data: Seq::empty() };
    lemma_lines(acc, lines);
    let data = lines.flat_map(|l: LineView| data_in(l));
    assert(Seq::<Seq<char>>::empty() + data =~= data);
    text_laws::law_joined(data);
}

/// Whether a blank line ends a frame at a position.
pub open spec fn ends_at(b: Seq<u8>, i: int) -> bool {
    ||| 0 <= i && i + 1 < b.len() && b[i] == 10 && b[i + 1] == 10
    ||| 0 <= i && i + 3 < b.len() && b[i] == 13 && b[i + 1] == 10 && b[i + 2] == 13 && b[i + 3]
        == 10
}

/// What ends a frame: two line feeds, with or without carriage returns.
pub open spec fn blank_line(cr: bool) -> Seq<u8> {
    if cr {
        seq![13u8, 10u8, 13u8, 10u8]
    } else {
        seq![10u8, 10u8]
    }
}

/// A frame is what stands before the first blank line, and what follows the blank line is read as if
/// nothing had been before it. Nothing comes of what is not UTF-8.
pub proof fn law_frames_are_cut(payload: Seq<u8>, cr: bool, more: Seq<u8>)
    requires
        forall|i: int|
            0 <= i < payload.len() ==> !#[trigger] ends_at(payload + blank_line(cr), i),
    ensures
        ({
            let all = payload + blank_line(cr) + more;
            let frame = if valid_utf8(payload) {
                sse::text_frame(decode_utf8(payload))
            } else {
                None
            };
            &&& sse::rest_of(all) == sse::rest_of(more)
            &&& match frame {
                Some(f) => sse::frames_of(all) == seq![f] + sse::frames_of(more),
                None => sse::frames_of(all) == sse::frames_of(more),
            }
        }),
{
    let end = payload + blank_line(cr);
    let all = end + more;
    let n = payload.len() as int;
    sse::lemma_first_boundary_from(all, 0);
    assert(sse::boundary_at(all, n));
    assert forall|i: int| 0 <= i < n implies !#[trigger] sse::boundary_at(all, i) by {
        assert(!ends_at(end, i));
        assert(all[i] == end[i]);
        assert(all[i + 1] == end[i + 1]);
        if !cr {
            assert(all[n] == 10 && all[n + 1] == 10);
        }
    }
    assert(sse::first_boundary(all) == Some(n));
    let e = sse::boundary_end(all, n);
    assert(all.take(n) =~= payload);
    assert(e == end.len());
    assert(all.skip(e) =~= more);
    assert(Seq::<SseFrameView>::empty() + sse::frames_of(more) =~= sse::frames_of(more));
}

/// A frame that is written in UTF-8 comes out as it was written, wherever it stands in the bytes.
pub proof fn law_frame_comes_through(lines: Seq<LineView>, cr: bool, more: Seq<u8>)
    requires
        forall|i: int|
            0 <= i < encode_utf8(whole(lines)).len() ==> !#[trigger] ends_at(
                encode_utf8(whole(lines)) + blank_line(cr),
                i,
            ),
    ensures
        ({
            let all = encode_utf8(whole(lines)) + blank_line(cr) + more;
            match sse::text_frame(whole(lines)) {
                Some(f) => sse::frames_of(all) == seq![f] + sse::frames_of(more),
                None => sse::frames_of(all) == sse::frames_of(more),
            }
        }),
{
    encode_utf8_valid_utf8(whole(lines));
    encode_utf8_decode_utf8(whole(lines));
    law_frames_are_cut(encode_utf8(whole(lines)), cr, more);
}

/// Bytes without a blank line give no frame, and stay.
pub proof fn law_incomplete_frames_stay(b: Seq<u8>)
    requires
        forall|i: int| 0 <= i < b.len() ==> !#[trigger] ends_at(b, i),
    ensures
        sse::frames_of(b).len() == 0,
        sse::rest_of(b) == b,
{
    sse::lemma_first_boundary_from(b, 0);
    match sse::first_boundary(b) {
        Some(i) => {
            assert(ends_at(b, i));
        },
        None => {},
    }
}

} // verus!
