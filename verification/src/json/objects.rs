//! Objects by how they are written: what stands between the braces, strings and all.
use vstd::prelude::*;

use crate::json::braces::{
    closes_at, first_close, is_object, lemma_first_close, lemma_first_close_extend,
    lemma_object_is_found, matching_brace, scan_start, scan_step, scanned, Scan,
};

verus! {

/// A part of a string: a byte that is neither a quote nor a backslash, or a backslash with the
/// byte behind it.
pub enum Unit {
    Plain(u8),
    Escaped(u8),
}

/// A part of an object: a byte outside strings that is neither quote nor brace, a string, or an
/// object.
pub enum Piece {
    Byte(u8),
    Text(Seq<Unit>),
    Object(Seq<Piece>),
}

/// Whether a part of a string is one.
pub open spec fn unit_ok(u: Unit) -> bool {
    match u {
        Unit::Plain(b) => b != 0x22 && b != 0x5c,
        Unit::Escaped(_) => true,
    }
}

/// The bytes of the parts of a string.
pub open spec fn units_bytes(us: Seq<Unit>) -> Seq<u8>
    decreases us.len(),
{
    if us.len() == 0 {
        Seq::empty()
    } else {
        units_bytes(us.drop_last()) + match us.last() {
            Unit::Plain(b) => seq![b],
            Unit::Escaped(b) => seq![0x5cu8, b],
        }
    }
}

/// Whether a part of an object is one, on every level.
pub open spec fn piece_ok(p: Piece) -> bool
    decreases p,
{
    match p {
        Piece::Byte(b) => b != 0x22 && b != 0x7b && b != 0x7d,
        Piece::Text(us) => forall|i: int| 0 <= i < us.len() ==> unit_ok(#[trigger] us[i]),
        Piece::Object(ps) => forall|i: int| 0 <= i < ps.len() ==> piece_ok(#[trigger] ps[i]),
    }
}

/// The bytes of a part of an object.
pub open spec fn piece_bytes(p: Piece) -> Seq<u8>
    decreases p,
{
    match p {
        Piece::Byte(b) => seq![b],
        Piece::Text(us) => seq![0x22u8] + units_bytes(us) + seq![0x22u8],
        Piece::Object(ps) => seq![0x7bu8] + pieces_bytes(ps) + seq![0x7du8],
    }
}

/// The bytes of the parts of an object, one after the other.
pub open spec fn pieces_bytes(ps: Seq<Piece>) -> Seq<u8>
    decreases ps,
{
    if ps.len() == 0 {
        Seq::empty()
    } else {
        pieces_bytes(ps.drop_last()) + piece_bytes(ps.last())
    }
}

/// The scan after `bytes`, from `s` on.
spec fn scan_on(s: Scan, bytes: Seq<u8>) -> Scan
    decreases bytes.len(),
{
    if bytes.len() == 0 {
        s
    } else {
        scan_step(scan_on(s, bytes.drop_last()), bytes.last())
    }
}

proof fn lemma_scan_on(s: Scan, a: Seq<u8>, b: Seq<u8>)
    ensures
        scan_on(s, a + b) == scan_on(scan_on(s, a), b),
    decreases b.len(),
{
    if b.len() == 0 {
        assert(a + b =~= a);
    } else {
        assert((a + b).drop_last() =~= a + b.drop_last());
        lemma_scan_on(s, a, b.drop_last());
    }
}

proof fn lemma_scanned_is_scan_on(bytes: Seq<u8>)
    ensures
        scanned(bytes) == scan_on(scan_start(), bytes),
    decreases bytes.len(),
{
    if bytes.len() > 0 {
        lemma_scanned_is_scan_on(bytes.drop_last());
    }
}

/// Whether no brace in `bytes`, scanned from `s` on, closes what is open at `s`.
spec fn stays(s: Scan, bytes: Seq<u8>) -> bool {
    forall|i: int| 0 <= i < bytes.len() ==> stays_at(s, bytes, i)
}

spec fn stays_at(s: Scan, bytes: Seq<u8>, i: int) -> bool {
    let t = scan_on(s, bytes.take(i));
    !t.in_string && !t.escaped && bytes[i] == 0x7d ==> t.depth > s.depth
}

spec fn outside(s: Scan) -> bool {
    !s.in_string && !s.escaped
}

proof fn lemma_stays_joined(s: Scan, a: Seq<u8>, b: Seq<u8>)
    requires
        stays(s, a),
        stays(s, b),
        scan_on(s, a) == s,
    ensures
        stays(s, a + b),
{
    let whole = a + b;
    assert forall|i: int| 0 <= i < whole.len() implies stays_at(s, whole, i) by {
        if i < a.len() {
            assert(whole.take(i) =~= a.take(i));
            assert(stays_at(s, a, i));
        } else {
            let j = i - a.len();
            assert(whole.take(i) =~= a + b.take(j));
            lemma_scan_on(s, a, b.take(j));
            assert(stays_at(s, b, j));
        }
    }
}

proof fn lemma_units(s: Scan, us: Seq<Unit>)
    requires
        s.in_string,
        !s.escaped,
        forall|i: int| 0 <= i < us.len() ==> unit_ok(#[trigger] us[i]),
    ensures
        scan_on(s, units_bytes(us)) == s,
        forall|i: int|
            0 <= i <= units_bytes(us).len() ==> (#[trigger] scan_on(
                s,
                units_bytes(us).take(i),
            )).in_string,
    decreases us.len(),
{
    let all = units_bytes(us);
    if us.len() == 0 {
        assert forall|i: int| 0 <= i <= all.len() implies (#[trigger] scan_on(
            s,
            all.take(i),
        )).in_string by {
            assert(all.take(i) =~= Seq::<u8>::empty());
        }
    } else {
        let rest = us.drop_last();
        assert forall|i: int| 0 <= i < rest.len() implies unit_ok(#[trigger] rest[i]) by {
            assert(rest[i] == us[i]);
        }
        lemma_units(s, rest);
        let before = units_bytes(rest);
        assert(unit_ok(us[us.len() - 1]));
        match us.last() {
            Unit::Plain(b) => {
                assert(all.drop_last() =~= before);
            },
            Unit::Escaped(b) => {
                assert(all.drop_last().drop_last() =~= before);
                assert(all.drop_last().last() == 0x5c);
                assert(scan_on(s, all.drop_last()) == scan_step(s, 0x5c));
            },
        }
        assert forall|i: int| 0 <= i <= all.len() implies (#[trigger] scan_on(
            s,
            all.take(i),
        )).in_string by {
            if i <= before.len() {
                assert(all.take(i) =~= before.take(i));
            } else if i == all.len() {
                assert(all.take(i) =~= all);
            } else {
                assert(all.take(i) =~= all.drop_last());
            }
        }
    }
}

proof fn lemma_text_piece(s: Scan, us: Seq<Unit>)
    requires
        outside(s),
        forall|i: int| 0 <= i < us.len() ==> unit_ok(#[trigger] us[i]),
    ensures
        scan_on(s, piece_bytes(Piece::Text(us))) == s,
        stays(s, piece_bytes(Piece::Text(us))),
{
    let bytes = piece_bytes(Piece::Text(us));
    let inner = units_bytes(us);
    let inside = Scan { in_string: true, ..s };
    let quote = seq![0x22u8];
    assert(quote.drop_last() =~= Seq::<u8>::empty());
    assert(scan_on(s, quote) == inside) by {
        assert(scan_on(s, quote.drop_last()) == s);
    }
    lemma_units(inside, us);
    lemma_scan_on(s, quote, inner);
    assert(bytes.drop_last() =~= quote + inner);
    assert(scan_on(s, bytes) == s);
    assert forall|i: int| 0 <= i < bytes.len() implies stays_at(s, bytes, i) by {
        if i > 0 {
            assert(bytes.take(i) =~= quote + inner.take(i - 1));
            lemma_scan_on(s, quote, inner.take(i - 1));
        }
    }
}

proof fn lemma_pieces(s: Scan, ps: Seq<Piece>)
    requires
        outside(s),
        forall|i: int| 0 <= i < ps.len() ==> piece_ok(#[trigger] ps[i]),
    ensures
        scan_on(s, pieces_bytes(ps)) == s,
        stays(s, pieces_bytes(ps)),
    decreases ps,
{
    if ps.len() > 0 {
        let rest = ps.drop_last();
        assert forall|i: int| 0 <= i < rest.len() implies piece_ok(#[trigger] rest[i]) by {
            assert(rest[i] == ps[i]);
        }
        assert(piece_ok(ps[ps.len() - 1]));
        assert(decreases_to!(ps => ps[ps.len() - 1]));
        lemma_pieces(s, rest);
        lemma_piece(s, ps[ps.len() - 1]);
        lemma_stays_joined(s, pieces_bytes(rest), piece_bytes(ps.last()));
        lemma_scan_on(s, pieces_bytes(rest), piece_bytes(ps.last()));
    }
}

proof fn lemma_piece(s: Scan, p: Piece)
    requires
        outside(s),
        piece_ok(p),
    ensures
        scan_on(s, piece_bytes(p)) == s,
        stays(s, piece_bytes(p)),
    decreases p,
{
    match p {
        Piece::Byte(b) => {
            let bytes = seq![b];
            assert(bytes.drop_last() =~= Seq::<u8>::empty());
            assert(scan_on(s, bytes.drop_last()) == s);
        },
        Piece::Text(us) => {
            lemma_text_piece(s, us);
        },
        Piece::Object(ps) => {
            lemma_pieces(Scan { depth: s.depth + 1, ..s }, ps);
            lemma_object_piece(s, ps);
        },
    }
}

proof fn lemma_object_piece(s: Scan, ps: Seq<Piece>)
    requires
        outside(s),
        scan_on(Scan { depth: s.depth + 1, ..s }, pieces_bytes(ps)) == (Scan {
            depth: s.depth + 1,
            ..s
        }),
        stays(Scan { depth: s.depth + 1, ..s }, pieces_bytes(ps)),
    ensures
        scan_on(s, piece_bytes(Piece::Object(ps))) == s,
        stays(s, piece_bytes(Piece::Object(ps))),
        forall|i: int|
            1 <= i < piece_bytes(Piece::Object(ps)).len() ==> #[trigger] scan_on(
                s,
                piece_bytes(Piece::Object(ps)).take(i),
            ) == scan_on(Scan { depth: s.depth + 1, ..s }, pieces_bytes(ps).take(i - 1)),
{
    let bytes = piece_bytes(Piece::Object(ps));
    let inner = pieces_bytes(ps);
    let deeper = Scan { depth: s.depth + 1, ..s };
    let open = seq![0x7bu8];
    assert(open.drop_last() =~= Seq::<u8>::empty());
    assert(scan_on(s, open) == deeper) by {
        assert(scan_on(s, open.drop_last()) == s);
    }
    lemma_scan_on(s, open, inner);
    assert(bytes.drop_last() =~= open + inner);
    assert forall|i: int| 1 <= i < bytes.len() implies #[trigger] scan_on(s, bytes.take(i))
        == scan_on(deeper, inner.take(i - 1)) by {
        assert(bytes.take(i) =~= open + inner.take(i - 1));
        lemma_scan_on(s, open, inner.take(i - 1));
    }
    assert forall|i: int| 0 <= i < bytes.len() implies stays_at(s, bytes, i) by {
        if 0 < i < bytes.len() - 1 {
            assert(bytes[i] == inner[i - 1]);
            assert(stays_at(deeper, inner, i - 1));
        } else if i == bytes.len() - 1 {
            assert(inner.take(i - 1) =~= inner);
        }
    }
}

/// What is written as an object is one object: its first brace is matched by its last.
pub proof fn lemma_object_is_one(ps: Seq<Piece>)
    requires
        piece_ok(Piece::Object(ps)),
    ensures
        is_object(piece_bytes(Piece::Object(ps))),
{
    let s = scan_start();
    let deeper = Scan { depth: 1, ..s };
    let bytes = piece_bytes(Piece::Object(ps));
    let inner = pieces_bytes(ps);
    let last = bytes.len() - 1;
    assert forall|i: int| 0 <= i < ps.len() implies piece_ok(#[trigger] ps[i]) by {}
    lemma_pieces(deeper, ps);
    lemma_object_piece(s, ps);
    assert forall|i: int| 0 <= i < bytes.len() implies (closes_at(bytes, 0, i) <==> i == last) by {
        assert(bytes.subrange(0, i) =~= bytes.take(i));
        lemma_scanned_is_scan_on(bytes.take(i));
        if 0 < i < last {
            assert(bytes[i] == inner[i - 1]);
            assert(stays_at(deeper, inner, i - 1));
        } else if i == last {
            assert(inner.take(i - 1) =~= inner);
        }
    }
    lemma_first_close(bytes, 0, 0);
    assert(closes_at(bytes, 0, last));
    assert(first_close(bytes, 0, 0) == Some(last));
    assert(bytes[0] == 0x7b);
}

/// An object is found whole wherever it stands, whatever its strings hold: the brace that matches
/// its first one is its last.
pub proof fn lemma_any_object_is_found(before: Seq<u8>, ps: Seq<Piece>, after: Seq<u8>)
    requires
        piece_ok(Piece::Object(ps)),
    ensures
        matching_brace(before + piece_bytes(Piece::Object(ps)) + after, before.len() as int)
            == Some(before.len() + piece_bytes(Piece::Object(ps)).len() - 1),
{
    lemma_object_is_one(ps);
    lemma_object_is_found(before, piece_bytes(Piece::Object(ps)), after);
}

/// An object of which the end is missing has no matching brace yet.
pub proof fn lemma_part_of_object_is_not_found(before: Seq<u8>, ps: Seq<Piece>, n: int)
    requires
        piece_ok(Piece::Object(ps)),
        0 <= n < piece_bytes(Piece::Object(ps)).len(),
    ensures
        matching_brace(
            before + piece_bytes(Piece::Object(ps)).take(n),
            before.len() as int,
        ) is None,
{
    let bytes = piece_bytes(Piece::Object(ps));
    let part = before + bytes.take(n);
    let start = before.len() as int;
    lemma_any_object_is_found(before, ps, Seq::empty());
    assert(before + bytes + Seq::<u8>::empty() =~= part + bytes.skip(n));
    lemma_first_close(part, start, start);
    if matching_brace(part, start) is Some {
        lemma_first_close_extend(part, bytes.skip(n), start, start);
    }
}

} // verus!
