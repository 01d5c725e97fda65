//! Incremental parser for server-sent events.
//!
//! Reads the part of the EventSource format that model providers use:
//! - `event:` (one line; the last one wins),
//! - `data:` (any number of lines, joined with `\n`),
//! - frames end in `\n\n` or `\r\n\r\n`,
//! - comment lines (`:`) and blank lines are skipped, and so is every other field.
//!
//! Bytes may arrive in chunks of any size; what follows the last complete frame is kept until
//! more bytes arrive.

use crate::text;
use crate::text::{chars_of, join, same_text, text_of};
use vstd::prelude::*;
use vstd::string::*;
use vstd::utf8::*;

verus! {

/// One decoded frame.
#[derive(Debug, PartialEq, Eq)]
pub struct SseFrame {
    /// Value of the `event:` line, empty where there is none.
    pub event: String,
    /// The `data:` lines, joined with `\n`. Empty where there is none.
    pub data: String,
}

/// Model of a frame.
#[verifier::ext_equal]
pub struct SseFrameView {
    pub event: Seq<char>,
    pub data: Seq<char>,
}

impl View for SseFrame {
    type V = SseFrameView;

    open spec fn view(&self) -> SseFrameView {
        SseFrameView { event: self.event@, data: self.data@ }
    }
}

impl DeepView for SseFrame {
    type V = SseFrameView;

    open spec fn deep_view(&self) -> SseFrameView {
        self@
    }
}

impl Clone for SseFrame {
    fn clone(&self) -> (r: Self)
        ensures
            r@ == self@,
    {
        SseFrame { event: self.event.clone(), data: self.data.clone() }
    }
}

/// The parser: the bytes that no frame has consumed yet.
#[derive(Debug)]
pub struct SseParser {
    buf: Vec<u8>,
}

impl View for SseParser {
    type V = Seq<u8>;

    closed spec fn view(&self) -> Seq<u8> {
        self.buf@
    }
}

/// `\n\n` stands at position `i`.
pub open spec fn lf_lf_at(b: Seq<u8>, i: int) -> bool {
    0 <= i && i + 1 < b.len() && b[i] == 10 && b[i + 1] == 10
}

/// `\r\n\r\n` stands at position `i`.
pub open spec fn crlf_crlf_at(b: Seq<u8>, i: int) -> bool {
    0 <= i && i + 3 < b.len() && b[i] == 13 && b[i + 1] == 10 && b[i + 2] == 13 && b[i + 3] == 10
}

/// A frame terminator starts at position `i`.
pub open spec fn boundary_at(b: Seq<u8>, i: int) -> bool {
    lf_lf_at(b, i) || crlf_crlf_at(b, i)
}

/// The position right behind the terminator that starts at `i`.
pub open spec fn boundary_end(b: Seq<u8>, i: int) -> int {
    if lf_lf_at(b, i) {
        i + 2
    } else {
        i + 4
    }
}

/// The first terminator at or behind position `i`.
pub open spec fn first_boundary_from(b: Seq<u8>, i: int) -> Option<int>
    decreases b.len() - i,
{
    if i >= b.len() {
        None
    } else if boundary_at(b, i) {
        Some(i)
    } else {
        first_boundary_from(b, i + 1)
    }
}

/// The first terminator.
pub open spec fn first_boundary(b: Seq<u8>) -> Option<int> {
    first_boundary_from(b, 0)
}

/// The position of the first `c`, or the length where there is none.
pub open spec fn position_of(s: Seq<char>, c: char) -> int
    decreases s.len(),
{
    if s.len() == 0 {
        0
    } else if s[0] == c {
        0
    } else {
        1 + position_of(s.drop_first(), c)
    }
}

/// What the lines of a frame add up to.
#[verifier::ext_equal]
pub struct FrameFields {
    pub event: Seq<char>,
    pub data: Seq<Seq<char>>,
}

/// A line without the carriage return that it may end in.
pub open spec fn without_cr(raw: Seq<char>) -> Seq<char> {
    if raw.len() > 0 && raw.last() == '\r' {
        raw.drop_last()
    } else {
        raw
    }
}

/// The name of the field that a line sets.
pub open spec fn field_name(line: Seq<char>) -> Seq<char> {
    line.take(position_of(line, ':'))
}

/// The value that a line gives its field: what follows the first colon, less one space.
pub open spec fn field_value(line: Seq<char>) -> Seq<char> {
    let k = position_of(line, ':');
    if k >= line.len() {
        Seq::empty()
    } else if k + 1 < line.len() && line[k + 1] == ' ' {
        line.skip(k + 2)
    } else {
        line.skip(k + 1)
    }
}

/// The fields after one more line.
pub open spec fn read_line(acc: FrameFields, raw: Seq<char>) -> FrameFields {
    let line = without_cr(raw);
    if line.len() == 0 || line[0] == ':' {
        acc
    } else if field_name(line) == "event"@ {
        FrameFields { event: field_value(line), data: acc.data }
    } else if field_name(line) == "data"@ {
        FrameFields { event: acc.event, data: acc.data.push(field_value(line)) }
    } else {
        acc
    }
}

/// The fields after all the lines of a text, first to last.
pub open spec fn read_lines(acc: FrameFields, s: Seq<char>) -> FrameFields
    decreases s.len(),
{
    let k = position_of(s, '\n');
    if 0 <= k < s.len() {
        read_lines(read_line(acc, s.take(k)), s.skip(k + 1))
    } else {
        read_line(acc, s)
    }
}

/// The frame that a text holds: none where it has neither data nor an event name.
pub open spec fn text_frame(s: Seq<char>) -> Option<SseFrameView> {
    let fields = read_lines(FrameFields { event: Seq::empty(), data: Seq::empty() }, s);
    if fields.data.len() == 0 && fields.event.len() == 0 {
        None
    } else {
        Some(SseFrameView { event: fields.event, data: text::join_lines(fields.data) })
    }
}

/// The frame that the bytes before a terminator hold: none where they are not UTF-8.
pub open spec fn payload_frame(payload: Seq<u8>) -> Option<SseFrameView> {
    if valid_utf8(payload) {
        text_frame(decode_utf8(payload))
    } else {
        None
    }
}

/// The frames that a payload gives: none or one.
pub open spec fn payload_frames(payload: Seq<u8>) -> Seq<SseFrameView> {
    match payload_frame(payload) {
        Some(f) => seq![f],
        None => Seq::empty(),
    }
}

/// The complete frames of a buffer, in order.
pub open spec fn frames_of(b: Seq<u8>) -> Seq<SseFrameView>
    decreases b.len(),
{
    match first_boundary(b) {
        Some(i) => if 0 <= i && boundary_end(b, i) <= b.len() {
            payload_frames(b.take(i)) + frames_of(b.skip(boundary_end(b, i)))
        } else {
            Seq::empty()
        },
        None => Seq::empty(),
    }
}

/// What the complete frames of a buffer leave over.
pub open spec fn rest_of(b: Seq<u8>) -> Seq<u8>
    decreases b.len(),
{
    match first_boundary(b) {
        Some(i) => if 0 <= i && boundary_end(b, i) <= b.len() {
            rest_of(b.skip(boundary_end(b, i)))
        } else {
            b
        },
        None => b,
    }
}

/// `core::str::Utf8Error`, which says where bytes stop being UTF-8.
#[verifier::external_type_specification]
#[verifier::external_body]
pub struct ExUtf8Error(core::str::Utf8Error);

/// `core::str::from_utf8`: succeeds exactly on valid UTF-8, and then gives the text whose
/// encoding the bytes are.
pub assume_specification[ core::str::from_utf8 ](v: &[u8]) -> (res: Result<
    &str,
    core::str::Utf8Error,
>)
    ensures
        res is Ok <==> valid_utf8(v@),
        res matches Ok(s) ==> s.spec_bytes() == v@,
;

/// Start and end of a frame terminator.
pub struct Boundary {
    pub start: usize,
    pub end: usize,
}

pub(crate) proof fn lemma_first_boundary_from(b: Seq<u8>, i: int)
    requires
        0 <= i,
    ensures
        first_boundary_from(b, i) matches Some(k) ==> i <= k < b.len() && boundary_at(b, k)
            && boundary_end(b, k) <= b.len() && forall|j: int|
            i <= j < k ==> !#[trigger] boundary_at(b, j),
        first_boundary_from(b, i) is None ==> forall|j: int| i <= j ==> !#[trigger] boundary_at(b, j),
    decreases b.len() - i,
{
    if i < b.len() && !boundary_at(b, i) {
        lemma_first_boundary_from(b, i + 1);
    }
}

/// Finds the first frame terminator.
pub fn find_double_newline(buf: &[u8]) -> (r: Option<Boundary>)
    ensures
        match r {
            Some(x) => first_boundary(buf@) == Some(x.start as int) && x.end == boundary_end(
                buf@,
                x.start as int,
            ) && x.start < x.end <= buf@.len(),
            None => first_boundary(buf@) is None,
        },
{
    let n = buf.len();
    let mut i: usize = 0;
    while i < n
        invariant
            i <= n == buf@.len(),
            first_boundary_from(buf@, i as int) == first_boundary(buf@),
        decreases n - i,
    {
        if i + 1 < n && buf[i] == 10u8 && buf[i + 1] == 10u8 {
            return Some(Boundary { start: i, end: i + 2 });
        }
        if n - i > 3 && buf[i] == 13u8 && buf[i + 1] == 10u8 && buf[i + 2] == 13u8 && buf[i + 3]
            == 10u8 {
            return Some(Boundary { start: i, end: i + 4 });
        }
        i = i + 1;
    }
    None
}

proof fn lemma_position_of(s: Seq<char>, c: char)
    ensures
        0 <= position_of(s, c) <= s.len(),
        position_of(s, c) < s.len() ==> s[position_of(s, c)] == c,
    decreases s.len(),
{
    if s.len() > 0 && s[0] != c {
        lemma_position_of(s.drop_first(), c);
    }
}

/// The position of the first `c` among the characters `from..to`, or `to`.
fn find_char(chars: &Vec<char>, from: usize, to: usize, c: char) -> (r: usize)
    requires
        from <= to <= chars@.len(),
    ensures
        from <= r <= to,
        r - from == position_of(chars@.subrange(from as int, to as int), c),
{
    let ghost s = chars@.subrange(from as int, to as int);
    let mut i: usize = from;
    assert(s.skip(0) == s);
    while i < to
        invariant
            from <= i <= to <= chars@.len(),
            s == chars@.subrange(from as int, to as int),
            position_of(s, c) == (i - from) + position_of(s.skip(i - from), c),
        decreases to - i,
    {
        assert(s.skip(i - from)[0] == chars@[i as int]);
        if chars[i] == c {
            return i;
        }
        assert(s.skip(i - from).drop_first() == s.skip(i - from + 1));
        i = i + 1;
    }
    i
}

/// What the lines read so far add up to.
struct LineReader {
    event: String,
    data: Vec<String>,
}

impl LineReader {
    spec fn fields(&self) -> FrameFields {
        FrameFields { event: self.event@, data: self.data.deep_view() }
    }

    /// Reads the line that stands at `from..to`.
    fn read(&mut self, chars: &Vec<char>, from: usize, to: usize)
        requires
            from <= to <= chars@.len(),
        ensures
            final(self).fields() == read_line(
                old(self).fields(),
                chars@.subrange(from as int, to as int),
            ),
    {
        let ghost raw = chars@.subrange(from as int, to as int);
        let end: usize = if from < to && chars[to - 1] == '\r' {
            to - 1
        } else {
            to
        };
        let ghost line = chars@.subrange(from as int, end as int);
        assert(line == without_cr(raw));
        if from == end || chars[from] == ':' {
            return;
        }
        let colon = find_char(chars, from, end, ':');
        let name = text_of(chars, from, colon);
        assert(name@ == field_name(line));
        let start: usize = if colon == end {
            end
        } else if colon + 1 < end && chars[colon + 1] == ' ' {
            colon + 2
        } else {
            colon + 1
        };
        let value = text_of(chars, start, end);
        assert(value@ == field_value(line));
        if same_text(name.as_str(), "event") {
            self.event = value;
        } else if same_text(name.as_str(), "data") {
            let ghost before = self.data.deep_view();
            self.data.push(value);
            assert(self.data.deep_view() == before.push(value@));
        }
    }
}

/// Reads the frame that the bytes before a terminator hold.
pub fn parse_frame(payload: &[u8]) -> (r: Option<SseFrame>)
    ensures
        r.deep_view() == payload_frame(payload@),
{
    let text = match core::str::from_utf8(payload) {
        Ok(t) => t,
        Err(_) => {
            return None;
        },
    };
    proof {
        encode_utf8_decode_utf8(text@);
    }
    let chars = chars_of(text);
    let n = chars.len();
    let mut reader = LineReader { event: String::new(), data: Vec::new() };
    let mut from: usize = 0;
    let ghost init = FrameFields { event: Seq::<char>::empty(), data: Seq::<Seq<char>>::empty() };
    assert(reader.fields() == init);
    assert(chars@.skip(0) == chars@);
    loop
        invariant_except_break
            n == chars@.len(),
            from <= n,
            read_lines(reader.fields(), chars@.skip(from as int)) == read_lines(init, chars@),
        ensures
            reader.fields() == read_lines(init, chars@),
        decreases n - from,
    {
        let to = find_char(&chars, from, n, '\n');
        let ghost rest = chars@.skip(from as int);
        assert(rest == chars@.subrange(from as int, n as int));
        assert(to < n ==> rest.take(to - from) == chars@.subrange(from as int, to as int));
        reader.read(&chars, from, to);
        if to == n {
            break;
        }
        assert(rest.skip(to - from + 1) == chars@.skip(to + 1));
        from = to + 1;
    }
    if reader.data.is_empty() && reader.event.as_str().is_empty() {
        None
    } else {
        let data = join(&reader.data);
        Some(SseFrame { event: reader.event, data })
    }
}

impl SseParser {
    /// A parser that has seen nothing.
    pub fn new() -> (r: Self)
        ensures
            r@ == Seq::<u8>::empty(),
    {
        SseParser { buf: Vec::new() }
    }

    /// Takes in more bytes.
    pub fn push(&mut self, chunk: &[u8])
        ensures
            final(self)@ == old(self)@ + chunk@,
    {
        self.buf.extend_from_slice(chunk);
        assert(self.buf@ =~= old(self).buf@ + chunk@);
    }

    /// Takes out every complete frame; a partial one stays.
    pub fn drain(&mut self) -> (frames: Vec<SseFrame>)
        ensures
            frames.deep_view() == frames_of(old(self)@),
            final(self)@ == rest_of(old(self)@),
    {
        let ghost all = self.buf@;
        let mut out: Vec<SseFrame> = Vec::new();
        loop
            invariant_except_break
                out.deep_view() + frames_of(self.buf@) == frames_of(all),
                rest_of(self.buf@) == rest_of(all),
            ensures
                out.deep_view() == frames_of(all),
                self.buf@ == rest_of(all),
            decreases self.buf@.len(),
        {
            let x = match find_double_newline(self.buf.as_slice()) {
                Some(x) => x,
                None => {
                    assert(out.deep_view() + frames_of(self.buf@) =~= out.deep_view());
                    break;
                },
            };
            let ghost before = self.buf@;
            let ghost sofar = out.deep_view();
            let rest = self.buf.split_off(x.end);
            assert(rest@ == before.skip(x.end as int));
            self.buf.truncate(x.start);
            assert(self.buf@ == before.take(x.start as int));
            match parse_frame(self.buf.as_slice()) {
                Some(frame) => {
                    out.push(frame);
                    assert(out.deep_view() =~= sofar.push(frame@));
                    assert(payload_frames(before.take(x.start as int)) == seq![frame@]);
                },
                None => {
                    assert(payload_frames(before.take(x.start as int)) == Seq::<SseFrameView>::empty());
                },
            }
            assert(out.deep_view() =~= sofar + payload_frames(before.take(x.start as int)));
            self.buf = rest;
            assert(out.deep_view() + frames_of(self.buf@) =~= sofar + frames_of(before));
        }
        out
    }
}

proof fn lemma_first_boundary_stable(a: Seq<u8>, b: Seq<u8>)
    requires
        first_boundary(a) is Some,
    ensures
        first_boundary(a + b) == first_boundary(a),
        boundary_end(a + b, first_boundary(a)->0) == boundary_end(a, first_boundary(a)->0),
{
    let c = a + b;
    lemma_first_boundary_from(a, 0);
    lemma_first_boundary_from(c, 0);
    let i = first_boundary(a)->0;
    assert(boundary_at(c, i));
    let k = first_boundary(c)->0;
    if k < i {
        assert(!boundary_at(a, k));
        assert(boundary_at(c, k));
    }
}

/// How the bytes are cut into chunks makes no difference: what comes out of `a` followed by what
/// comes out of the left-over and `b` is what comes out of `a` and `b` taken together, and the
/// same bytes are left over.
pub proof fn law_chunks(a: Seq<u8>, b: Seq<u8>)
    ensures
        frames_of(a + b) == frames_of(a) + frames_of(rest_of(a) + b),
        rest_of(a + b) == rest_of(rest_of(a) + b),
    decreases a.len(),
{
    lemma_first_boundary_from(a, 0);
    match first_boundary(a) {
        Some(i) => {
            let e = boundary_end(a, i);
            lemma_first_boundary_stable(a, b);
            law_chunks(a.skip(e), b);
            assert((a + b).take(i) == a.take(i));
            assert((a + b).skip(e) == a.skip(e) + b);
            assert(frames_of(a + b) == payload_frames(a.take(i)) + frames_of(a.skip(e) + b));
        },
        None => {},
    }
}

/// What is left over is a tail of what came in, and holds no frame terminator.
pub proof fn law_rest(b: Seq<u8>)
    ensures
        rest_of(b).len() <= b.len(),
        rest_of(b) == b.skip(b.len() - rest_of(b).len()),
        first_boundary(rest_of(b)) is None,
    decreases b.len(),
{
    lemma_first_boundary_from(b, 0);
    match first_boundary(b) {
        Some(i) => {
            let e = boundary_end(b, i);
            law_rest(b.skip(e));
            let r = rest_of(b);
            assert(b.skip(e).skip(b.skip(e).len() - r.len()) == b.skip(b.len() - r.len()));
        },
        None => {
            assert(b.skip(0) == b);
        },
    }
}

/// Draining twice in a row gives nothing the second time and changes nothing.
pub proof fn law_drain_twice(b: Seq<u8>)
    ensures
        frames_of(rest_of(b)) == Seq::<SseFrameView>::empty(),
        rest_of(rest_of(b)) == rest_of(b),
{
    law_rest(b);
}

} // verus!
