//! Finds the JSON objects in the stream that Kiro answers with.
//!
//! Each frame of the stream has a binary header that ends with the word `event`; the JSON object
//! follows at once. An object begins after the first `event{` and ends with its matching brace.
//! What a frame still lacks arrives with a later chunk, so what is left over stays in a buffer.
use vstd::prelude::*;

use vstd::utf8::{encode_utf8, is_char_boundary, valid_utf8};

use crate::json::braces::{
    first_close, is_object, lemma_first_close, lemma_first_close_extend, lemma_first_close_shift,
    lemma_object_is_found, matching_brace, scanned, Scan,
};
use crate::json::objects::{
    lemma_object_is_one, lemma_part_of_object_is_not_found, piece_bytes, piece_ok, Piece,
};

verus! {

/// Whether `event{` stands at `p`.
pub open spec fn marker_at(bytes: Seq<u8>, p: int) -> bool {
    &&& p + 6 <= bytes.len()
    &&& bytes[p] == 0x65
    &&& bytes[p + 1] == 0x76
    &&& bytes[p + 2] == 0x65
    &&& bytes[p + 3] == 0x6e
    &&& bytes[p + 4] == 0x74
    &&& bytes[p + 5] == 0x7b
}

/// The first position from `p` on at which `event{` stands.
pub open spec fn first_marker(bytes: Seq<u8>, p: int) -> Option<int>
    decreases bytes.len() - p,
{
    if p + 6 > bytes.len() {
        None
    } else if marker_at(bytes, p) {
        Some(p)
    } else {
        first_marker(bytes, p + 1)
    }
}

/// The first and the last position of the first whole object in the buffer.
pub open spec fn object_bounds(bytes: Seq<u8>) -> Option<(int, int)> {
    match first_marker(bytes, 0) {
        Some(p) => match matching_brace(bytes, p + 5) {
            Some(end) => Some((p + 5, end)),
            None => None,
        },
        None => None,
    }
}

/// All whole objects in the buffer, in their order.
pub open spec fn frames(bytes: Seq<u8>) -> Seq<Seq<u8>>
    decreases bytes.len(),
{
    match object_bounds(bytes) {
        Some((start, end)) => if 0 <= start <= end < bytes.len() {
            seq![bytes.subrange(start, end + 1)] + frames(bytes.skip(end + 1))
        } else {
            Seq::empty()
        },
        None => Seq::empty(),
    }
}

/// What is left in the buffer after its whole objects.
pub open spec fn remainder(bytes: Seq<u8>) -> Seq<u8>
    decreases bytes.len(),
{
    match object_bounds(bytes) {
        Some((start, end)) => if 0 <= start <= end < bytes.len() {
            remainder(bytes.skip(end + 1))
        } else {
            bytes
        },
        None => bytes,
    }
}

/// The first marker is the least position at which the marker stands.
pub proof fn lemma_first_marker(bytes: Seq<u8>, p: int)
    requires
        0 <= p,
    ensures
        match first_marker(bytes, p) {
            Some(q) => p <= q && marker_at(bytes, q) && forall|j: int|
                p <= j < q ==> !marker_at(bytes, j),
            None => forall|j: int| p <= j < bytes.len() ==> !marker_at(bytes, j),
        },
    decreases bytes.len() - p,
{
    if p + 6 <= bytes.len() && !marker_at(bytes, p) {
        lemma_first_marker(bytes, p + 1);
    }
}

/// An object begins with an opening brace and ends with a closing one.
pub proof fn lemma_object_bounds(bytes: Seq<u8>)
    ensures
        object_bounds(bytes) matches Some((start, end)) ==> {
            &&& 5 <= start <= end < bytes.len()
            &&& bytes[start] == 0x7b
            &&& bytes[end] == 0x7d
        },
{
    if let Some(p) = first_marker(bytes, 0) {
        lemma_first_marker(bytes, 0);
        lemma_first_close(bytes, p + 5, p + 5);
    }
}

proof fn lemma_first_marker_extend(a: Seq<u8>, b: Seq<u8>, p: int)
    requires
        0 <= p,
        first_marker(a, p) is Some,
    ensures
        first_marker(a + b, p) == first_marker(a, p),
    decreases a.len() - p,
{
    if !marker_at(a, p) {
        lemma_first_marker_extend(a, b, p + 1);
    }
}

proof fn lemma_object_bounds_extend(a: Seq<u8>, b: Seq<u8>)
    requires
        object_bounds(a) is Some,
    ensures
        object_bounds(a + b) == object_bounds(a),
{
    lemma_first_marker_extend(a, b, 0);
    lemma_first_marker(a, 0);
    let start = first_marker(a, 0)->0 + 5;
    lemma_first_close_extend(a, b, start, start);
}

/// However the stream is cut into chunks, the same objects come out: those of the first part,
/// then those of what it left together with the second part.
pub proof fn lemma_frames_of_parts(a: Seq<u8>, b: Seq<u8>)
    ensures
        frames(a + b) == frames(a) + frames(remainder(a) + b),
        remainder(a + b) == remainder(remainder(a) + b),
    decreases a.len(),
{
    lemma_object_bounds(a);
    match object_bounds(a) {
        Some((start, end)) => {
            lemma_object_bounds_extend(a, b);
            assert((a + b).subrange(start, end + 1) =~= a.subrange(start, end + 1));
            assert((a + b).skip(end + 1) =~= a.skip(end + 1) + b);
            lemma_frames_of_parts(a.skip(end + 1), b);
            assert(frames(a + b) =~= frames(a) + frames(remainder(a) + b));
        },
        None => {
            assert(frames(a) + frames(remainder(a) + b) =~= frames(a + b));
        },
    }
}

/// Taking all objects out leaves none behind.
pub proof fn lemma_remainder_has_no_frame(bytes: Seq<u8>)
    ensures
        object_bounds(remainder(bytes)) is None,
        frames(remainder(bytes)) == Seq::<Seq<u8>>::empty(),
        remainder(remainder(bytes)) == remainder(bytes),
    decreases bytes.len(),
{
    lemma_object_bounds(bytes);
    match object_bounds(bytes) {
        Some((start, end)) => {
            lemma_remainder_has_no_frame(bytes.skip(end + 1));
        },
        None => {},
    }
}

/// The bytes of `event`, with which a header ends.
pub open spec fn header_end() -> Seq<u8> {
    seq![0x65u8, 0x76u8, 0x65u8, 0x6eu8, 0x74u8]
}

/// Whether a frame is read as it was written: `event{` does not occur before the end of the
/// header, and an object follows.
pub open spec fn is_frame(header: Seq<u8>, object: Seq<u8>) -> bool {
    &&& is_object(object)
    &&& forall|p: int|
        0 <= p < header.len() ==> !#[trigger] marker_at(header + header_end() + object, p)
}

/// The stream of frames with these headers and objects.
pub open spec fn stream_of(written: Seq<(Seq<u8>, Seq<u8>)>) -> Seq<u8>
    decreases written.len(),
{
    if written.len() == 0 {
        Seq::empty()
    } else {
        written[0].0 + header_end() + written[0].1 + stream_of(written.skip(1))
    }
}

proof fn lemma_marker_of_frame(header: Seq<u8>, object: Seq<u8>)
    requires
        is_frame(header, object),
    ensures
        first_marker(header + header_end() + object, 0) == Some(header.len() as int),
{
    let frame = header + header_end() + object;
    let p = header.len() as int;
    assert(marker_at(frame, p));
    lemma_first_marker(frame, 0);
}

proof fn lemma_bounds_of_frame(header: Seq<u8>, object: Seq<u8>)
    requires
        is_frame(header, object),
    ensures
        object_bounds(header + header_end() + object) == Some(
            (header.len() as int + 5, header.len() as int + 5 + object.len() - 1),
        ),
{
    lemma_marker_of_frame(header, object);
    let prefix = header + header_end();
    assert(prefix.len() == header.len() + 5);
    lemma_first_close_shift(prefix, object, 0);
}

/// The object of a frame comes out as it went in, and what follows the frame is read next.
pub proof fn lemma_frame_is_read(header: Seq<u8>, object: Seq<u8>, rest: Seq<u8>)
    requires
        is_frame(header, object),
    ensures
        frames(header + header_end() + object + rest) == seq![object] + frames(rest),
        remainder(header + header_end() + object + rest) == remainder(rest),
{
    let frame = header + header_end() + object;
    let whole = frame + rest;
    let start = header.len() as int + 5;
    let end = start + object.len() - 1;
    lemma_bounds_of_frame(header, object);
    lemma_object_bounds_extend(frame, rest);
    assert(whole.subrange(start, end + 1) =~= object);
    assert(whole.skip(end + 1) =~= rest);
}

/// All objects of a stream come out, in their order, and nothing is left.
pub proof fn lemma_stream_is_read(written: Seq<(Seq<u8>, Seq<u8>)>)
    requires
        forall|k: int|
            0 <= k < written.len() ==> is_frame((#[trigger] written[k]).0, written[k].1),
    ensures
        frames(stream_of(written)) == written.map_values(|f: (Seq<u8>, Seq<u8>)| f.1),
        remainder(stream_of(written)) == Seq::<u8>::empty(),
    decreases written.len(),
{
    let objects = written.map_values(|f: (Seq<u8>, Seq<u8>)| f.1);
    if written.len() == 0 {
        lemma_object_bounds(Seq::empty());
        assert(frames(stream_of(written)) =~= objects);
    } else {
        let rest = written.skip(1);
        assert forall|k: int| 0 <= k < rest.len() implies is_frame(
            (#[trigger] rest[k]).0,
            rest[k].1,
        ) by {
            assert(rest[k] == written[k + 1]);
        }
        lemma_stream_is_read(rest);
        assert(is_frame(written[0].0, written[0].1));
        lemma_frame_is_read(written[0].0, written[0].1, stream_of(rest));
        assert(frames(stream_of(written)) =~= objects);
    }
}

/// The UTF-8 form of two texts after each other is that of the first and that of the second.
pub proof fn lemma_encode_concat(a: Seq<char>, b: Seq<char>)
    ensures
        encode_utf8(a + b) == encode_utf8(a) + encode_utf8(b),
    decreases a.len(),
{
    if a.len() == 0 {
        assert(a + b =~= b);
        assert(encode_utf8(a) + encode_utf8(b) =~= encode_utf8(b));
    } else {
        assert((a + b).drop_first() =~= a.drop_first() + b);
        lemma_encode_concat(a.drop_first(), b);
        assert(encode_utf8(a + b) =~= encode_utf8(a) + encode_utf8(b));
    }
}

/// The written text of an object is found whole in a longer text: its first byte is matched by
/// its last one.
pub proof fn lemma_written_object_is_found(
    before: Seq<char>,
    object: Seq<char>,
    after: Seq<char>,
)
    requires
        is_object(encode_utf8(object)),
    ensures
        matching_brace(encode_utf8(before + object + after), encode_utf8(before).len() as int)
            == Some(encode_utf8(before).len() + encode_utf8(object).len() - 1),
        encode_utf8(before + object + after).subrange(
            encode_utf8(before).len() as int,
            encode_utf8(before).len() + encode_utf8(object).len() as int,
        ) == encode_utf8(object),
{
    lemma_encode_concat(before + object, after);
    lemma_encode_concat(before, object);
    lemma_object_is_found(encode_utf8(before), encode_utf8(object), encode_utf8(after));
}

proof fn lemma_event_bytes()
    ensures
        encode_utf8("event"@) == header_end(),
        encode_utf8("event{"@) == seq![0x65u8, 0x76u8, 0x65u8, 0x6eu8, 0x74u8, 0x7bu8],
{
    reveal_strlit("event");
    reveal_strlit("event{");
    vstd::utf8::is_ascii_chars_encode_utf8("event"@);
    vstd::utf8::is_ascii_chars_encode_utf8("event{"@);
    assert(encode_utf8("event"@) =~= header_end());
    assert(encode_utf8("event{"@) =~= seq![0x65u8, 0x76u8, 0x65u8, 0x6eu8, 0x74u8, 0x7bu8]);
}

/// The frames with these headers and objects, one after the other: each header is followed by
/// the word `event` and its object.
pub open spec fn framed(written: Seq<(Seq<u8>, Seq<u8>)>) -> Seq<u8>
    decreases written.len(),
{
    if written.len() == 0 {
        Seq::empty()
    } else {
        written[0].0 + encode_utf8("event"@) + written[0].1 + framed(written.skip(1))
    }
}

/// Whether `event{` does not begin within the header of a frame.
pub open spec fn header_ok(header: Seq<u8>, object: Seq<u8>) -> bool {
    forall|p: int|
        0 <= p < header.len() ==> #[trigger] (header + encode_utf8("event"@) + object).subrange(
            p,
            p + 6,
        ) != encode_utf8("event{"@)
}

/// Whether a frame has a header and an object made of `pieces`.
pub open spec fn frame_ok(frame: (Seq<u8>, Seq<u8>), pieces: Seq<Piece>) -> bool {
    &&& piece_ok(Piece::Object(pieces))
    &&& frame.1 == piece_bytes(Piece::Object(pieces))
    &&& header_ok(frame.0, frame.1)
}

proof fn lemma_framed_is_stream(written: Seq<(Seq<u8>, Seq<u8>)>)
    ensures
        framed(written) == stream_of(written),
    decreases written.len(),
{
    lemma_event_bytes();
    if written.len() > 0 {
        lemma_framed_is_stream(written.skip(1));
    }
}

/// Every object that Kiro frames comes out, whatever its strings hold, in its order and as it was
/// written; nothing else comes out and nothing is left.
pub proof fn lemma_framed_objects_are_read(
    written: Seq<(Seq<u8>, Seq<u8>)>,
    pieces: Seq<Seq<Piece>>,
)
    requires
        pieces.len() == written.len(),
        forall|k: int| 0 <= k < written.len() ==> frame_ok(#[trigger] written[k], pieces[k]),
    ensures
        frames(framed(written)).len() == written.len(),
        forall|k: int|
            0 <= k < written.len() ==> #[trigger] frames(framed(written))[k] == written[k].1,
        remainder(framed(written)) == Seq::<u8>::empty(),
{
    lemma_event_bytes();
    lemma_framed_is_stream(written);
    assert forall|k: int| 0 <= k < written.len() implies is_frame(
        (#[trigger] written[k]).0,
        written[k].1,
    ) by {
        let (header, object) = written[k];
        lemma_object_is_one(pieces[k]);
        let whole = header + header_end() + object;
        assert forall|p: int| 0 <= p < header.len() implies !#[trigger] marker_at(whole, p) by {
            let here = whole.subrange(p, p + 6);
            assert(here != encode_utf8("event{"@));
            if marker_at(whole, p) {
                assert(here =~= encode_utf8("event{"@));
            }
        }
    }
    lemma_stream_is_read(written);
}

/// A frame of which the end is missing stays in the buffer, whole, and nothing comes out.
pub proof fn lemma_part_of_frame_waits(frame: (Seq<u8>, Seq<u8>), pieces: Seq<Piece>, n: int)
    requires
        frame_ok(frame, pieces),
        0 <= n < frame.0.len() + 5 + frame.1.len(),
    ensures
        frames((frame.0 + encode_utf8("event"@) + frame.1).take(n)) == Seq::<Seq<u8>>::empty(),
        remainder((frame.0 + encode_utf8("event"@) + frame.1).take(n)) == (frame.0 + encode_utf8(
            "event"@,
        ) + frame.1).take(n),
{
    lemma_event_bytes();
    let (header, object) = frame;
    let start = header.len() + 5;
    let whole = header + encode_utf8("event"@) + object;
    let part = whole.take(n);
    lemma_first_marker(part, 0);
    if let Some(p) = first_marker(part, 0) {
        assert(p + 6 <= part.len());
        if p < header.len() {
            let here = whole.subrange(p, p + 6);
            assert(here != encode_utf8("event{"@));
            assert(here =~= encode_utf8("event{"@));
        }
        let before = header + encode_utf8("event"@);
        assert(n > start);
        assert(part =~= before + object.take(n - start));
        lemma_object_is_one(pieces);
        assert(object[0] == 0x7b);
        assert(marker_at(part, header.len() as int));
        assert(p == header.len());
        lemma_part_of_object_is_not_found(before, pieces, n - start);
    }
}

/// A character boundary follows an ASCII character.
proof fn lemma_boundary_after_ascii(bytes: Seq<u8>, k: int)
    requires
        valid_utf8(bytes),
        0 <= k < bytes.len(),
        bytes[k] < 0x80,
    ensures
        is_char_boundary(bytes, k),
        is_char_boundary(bytes, k + 1),
    decreases bytes.len(),
{
    reveal_with_fuel(is_char_boundary, 2);
    vstd::utf8::is_char_boundary_iff_not_is_continuation_byte(bytes, k);
    if k > 0 {
        let n = vstd::utf8::length_of_first_scalar(bytes);
        assert(k >= n);
        lemma_boundary_after_ascii(vstd::utf8::pop_first_scalar(bytes), k - n);
    }
}

/// Finds the brace that matches the one at `start`, a byte offset.
///
/// Nested braces count, braces inside strings do not, and a backslash inside a string takes
/// away the meaning of the byte behind it. Without a match the object is not complete yet.
pub fn find_matching_brace(text: &str, start: usize) -> (r: Option<usize>)
    ensures
        match r {
            Some(i) => matching_brace(encode_utf8(text@), start as int) == Some(i as int),
            None => matching_brace(encode_utf8(text@), start as int) is None,
        },
{
    let bytes = text.as_bytes();
    let mut depth: i128 = 0;
    let mut in_string = false;
    let mut escaped = false;
    let mut i: usize = start;
    proof {
        if start <= bytes@.len() {
            assert(bytes@.subrange(start as int, start as int) =~= Seq::<u8>::empty());
        }
    }
    while i < bytes.len()
        invariant
            start <= i,
            start <= bytes@.len() ==> i <= bytes@.len(),
            bytes@ == encode_utf8(text@),
            matching_brace(bytes@, start as int) == first_close(bytes@, start as int, i as int),
            start <= bytes@.len() ==> scanned(bytes@.subrange(start as int, i as int)) == (Scan {
                depth: depth as int,
                in_string,
                escaped,
            }),
            start - i <= depth <= i - start,
        decreases bytes@.len() - i,
    {
        let b = bytes[i];
        proof {
            let longer = bytes@.subrange(start as int, i + 1);
            assert(longer.drop_last() =~= bytes@.subrange(start as int, i as int));
            assert(longer.last() == b);
        }
        if escaped {
            escaped = false;
        } else if b == 0x5c && in_string {
            escaped = true;
        } else if b == 0x22 {
            in_string = !in_string;
        } else if !in_string {
            if b == 0x7b {
                depth += 1;
            } else if b == 0x7d {
                depth -= 1;
                if depth == 0 {
                    return Some(i);
                }
            }
        }
        i += 1;
    }
    None
}

/// Finds the first `event{`, as a byte offset.
fn find_marker(text: &str) -> (r: Option<usize>)
    ensures
        match r {
            Some(p) => first_marker(encode_utf8(text@), 0) == Some(p as int),
            None => first_marker(encode_utf8(text@), 0) is None,
        },
{
    let bytes = text.as_bytes();
    let mut p: usize = 0;
    while p < bytes.len() && bytes.len() - p >= 6
        invariant
            p <= bytes@.len(),
            bytes@ == encode_utf8(text@),
            first_marker(bytes@, 0) == first_marker(bytes@, p as int),
        decreases bytes@.len() - p,
    {
        let found = bytes[p] == 0x65 && bytes[p + 1] == 0x76 && bytes[p + 2] == 0x65 && bytes[p + 3]
            == 0x6e && bytes[p + 4] == 0x74 && bytes[p + 5] == 0x7b;
        if found {
            return Some(p);
        }
        p += 1;
    }
    None
}

/// The part of the stream that has not been read yet.
pub struct FrameBuffer {
    pub text: String,
}

impl FrameBuffer {
    /// The bytes in the buffer.
    pub open spec fn bytes(&self) -> Seq<u8> {
        encode_utf8(self.text@)
    }

    /// An empty buffer.
    pub fn new() -> (r: FrameBuffer)
        ensures
            r.bytes() == Seq::<u8>::empty(),
    {
        FrameBuffer { text: String::new() }
    }

    /// Adds text that arrived.
    pub fn push(&mut self, text: &str)
        ensures
            final(self).bytes() == old(self).bytes() + encode_utf8(text@),
    {
        proof {
            lemma_encode_concat(self.text@, text@);
        }
        self.text.append(text);
    }

    /// Takes the first whole object out of the buffer, with all that stands before it. Where
    /// there is none, the buffer stays as it is.
    pub fn take_frame(&mut self) -> (r: Option<String>)
        ensures
            match object_bounds(old(self).bytes()) {
                Some((start, end)) => {
                    &&& r matches Some(frame)
                    &&& encode_utf8(frame@) == old(self).bytes().subrange(start, end + 1)
                    &&& final(self).bytes() == old(self).bytes().skip(end + 1)
                },
                None => r is None && final(self).bytes() == old(self).bytes(),
            },
    {
        let ghost bytes = self.bytes();
        let text = self.text.as_str();
        let length = text.as_bytes().len();
        assert(length == bytes.len());
        let start = match find_marker(text) {
            Some(p) => {
                proof {
                    lemma_first_marker(bytes, 0);
                }
                p + 5
            },
            None => {
                return None;
            },
        };
        let end = match find_matching_brace(text, start) {
            Some(e) => e,
            None => {
                return None;
            },
        };
        proof {
            lemma_object_bounds(bytes);
            vstd::utf8::encode_utf8_valid_utf8(text@);
            lemma_boundary_after_ascii(bytes, end as int);
        }
        let (head, rest) = text.split_at(end + 1);
        proof {
            let head_bytes = encode_utf8(head@);
            vstd::utf8::encode_utf8_valid_utf8(head@);
            assert(head_bytes[start as int] == bytes[start as int]);
            lemma_boundary_after_ascii(head_bytes, start as int);
        }
        let (_, frame) = head.split_at(start);
        let frame = frame.to_string();
        let rest = rest.to_string();
        proof {
            assert(encode_utf8(frame@) =~= bytes.subrange(start as int, end + 1));
            assert(encode_utf8(rest@) =~= bytes.skip(end + 1));
        }
        self.text = rest;
        Some(frame)
    }
}

} // verus!
