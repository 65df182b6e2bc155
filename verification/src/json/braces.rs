//! Where an object ends in JSON text: its braces, its strings and the escapes in them.
use vstd::prelude::*;

verus! {

/// Where a scan of JSON text stands: how many braces are open, whether it is inside a string,
/// and whether a backslash took away the meaning of the byte to come.
pub struct Scan {
    pub depth: int,
    pub in_string: bool,
    pub escaped: bool,
}

/// The scan before the first byte.
pub open spec fn scan_start() -> Scan {
    Scan { depth: 0, in_string: false, escaped: false }
}

/// The scan after one more byte.
pub open spec fn scan_step(s: Scan, b: u8) -> Scan {
    if s.escaped {
        Scan { escaped: false, ..s }
    } else if b == 0x5c && s.in_string {
        Scan { escaped: true, ..s }
    } else if b == 0x22 {
        Scan { in_string: !s.in_string, ..s }
    } else if b == 0x7b && !s.in_string {
        Scan { depth: s.depth + 1, ..s }
    } else if b == 0x7d && !s.in_string {
        Scan { depth: s.depth - 1, ..s }
    } else {
        s
    }
}

/// The scan after `bytes`.
pub open spec fn scanned(bytes: Seq<u8>) -> Scan
    decreases bytes.len(),
{
    if bytes.len() == 0 {
        scan_start()
    } else {
        scan_step(scanned(bytes.drop_last()), bytes.last())
    }
}

/// Whether the byte at `i` closes the outermost brace that is open in a scan from `start`.
pub open spec fn closes_at(bytes: Seq<u8>, start: int, i: int) -> bool {
    let s = scanned(bytes.subrange(start, i));
    &&& bytes[i] == 0x7d
    &&& !s.escaped
    &&& !s.in_string
    &&& s.depth == 1
}

/// The first position from `i` on that closes the outermost brace of a scan from `start`.
pub open spec fn first_close(bytes: Seq<u8>, start: int, i: int) -> Option<int>
    decreases bytes.len() - i,
{
    if i >= bytes.len() {
        None
    } else if closes_at(bytes, start, i) {
        Some(i)
    } else {
        first_close(bytes, start, i + 1)
    }
}

/// The position of the brace that matches the one at `start`.
pub open spec fn matching_brace(bytes: Seq<u8>, start: int) -> Option<int> {
    first_close(bytes, start, start)
}

/// Whether `bytes` is one object: its first brace is matched by its last byte.
pub open spec fn is_object(bytes: Seq<u8>) -> bool {
    bytes.len() > 0 && bytes[0] == 0x7b && matching_brace(bytes, 0) == Some(bytes.len() - 1)
}

/// The matching brace is the least position that closes the outermost brace, and none closes it
/// where there is no matching brace.
pub proof fn lemma_first_close(bytes: Seq<u8>, start: int, i: int)
    requires
        0 <= start <= i,
    ensures
        match first_close(bytes, start, i) {
            Some(end) => i <= end < bytes.len() && closes_at(bytes, start, end) && forall|j: int|
                i <= j < end ==> !closes_at(bytes, start, j),
            None => forall|j: int| i <= j < bytes.len() ==> !closes_at(bytes, start, j),
        },
    decreases bytes.len() - i,
{
    if i < bytes.len() && !closes_at(bytes, start, i) {
        lemma_first_close(bytes, start, i + 1);
    }
}

/// What stands from the first brace to its matching one is balanced: no brace is open after it
/// and no string.
pub proof fn lemma_matching_brace_balances(bytes: Seq<u8>, start: int)
    requires
        0 <= start,
    ensures
        matching_brace(bytes, start) matches Some(end) ==> scanned(bytes.subrange(start, end + 1))
            == scan_start(),
{
    lemma_first_close(bytes, start, start);
    if let Some(end) = matching_brace(bytes, start) {
        let object = bytes.subrange(start, end + 1);
        assert(object.drop_last() =~= bytes.subrange(start, end));
        assert(object.last() == bytes[end]);
    }
}

/// A position that closes the outermost brace does so whatever follows.
proof fn lemma_closes_at_extend(a: Seq<u8>, b: Seq<u8>, start: int, i: int)
    requires
        0 <= start <= i < a.len(),
    ensures
        closes_at(a + b, start, i) == closes_at(a, start, i),
{
    assert((a + b).subrange(start, i) =~= a.subrange(start, i));
}

/// The first closing position stays the first whatever follows.
pub proof fn lemma_first_close_extend(a: Seq<u8>, b: Seq<u8>, start: int, i: int)
    requires
        0 <= start <= i,
        first_close(a, start, i) is Some,
    ensures
        first_close(a + b, start, i) == first_close(a, start, i),
    decreases a.len() - i,
{
    lemma_closes_at_extend(a, b, start, i);
    if !closes_at(a, start, i) {
        lemma_first_close_extend(a, b, start, i + 1);
    }
}

/// The first closing position moves with the object.
pub proof fn lemma_first_close_shift(prefix: Seq<u8>, object: Seq<u8>, i: int)
    requires
        0 <= i,
        first_close(object, 0, i) is Some,
    ensures
        first_close(prefix + object, prefix.len() as int, prefix.len() + i) == Some(
            prefix.len() + first_close(object, 0, i)->0,
        ),
    decreases object.len() - i,
{
    let whole = prefix + object;
    let n = prefix.len() as int;
    assert(whole.subrange(n, n + i) =~= object.subrange(0, i));
    assert(closes_at(whole, n, n + i) == closes_at(object, 0, i));
    if !closes_at(object, 0, i) {
        lemma_first_close_shift(prefix, object, i + 1);
    }
}

/// An object is found whole wherever it stands: the brace that matches its first byte is its last
/// one, whatever comes before it and after it.
pub proof fn lemma_object_is_found(before: Seq<u8>, object: Seq<u8>, after: Seq<u8>)
    requires
        is_object(object),
    ensures
        matching_brace(before + object + after, before.len() as int) == Some(
            before.len() + object.len() - 1,
        ),
        (before + object + after).subrange(
            before.len() as int,
            before.len() + object.len() as int,
        ) == object,
{
    lemma_first_close_shift(before, object, 0);
    lemma_first_close_extend(
        before + object,
        after,
        before.len() as int,
        before.len() as int,
    );
    assert((before + object + after).subrange(
        before.len() as int,
        before.len() + object.len() as int,
    ) =~= object);
}

} // verus!
