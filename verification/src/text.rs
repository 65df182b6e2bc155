//! Verified helpers on text: comparing, splitting and trimming.
use vstd::prelude::*;

verus! {

/// What `String::from_utf8_lossy` reads out of bytes.
pub uninterp spec fn lossy_text(bytes: Seq<u8>) -> Seq<char>;

/// `String::from_utf8_lossy`: the text is a function of the bytes, and bytes that are UTF-8 are
/// read as such. Which replacement characters stand for other bytes is left to the function.
#[verifier::external_body]
pub(crate) fn from_utf8_lossy(bytes: &[u8]) -> (r: String)
    ensures
        r@ == lossy_text(bytes@),
        vstd::utf8::valid_utf8(bytes@) ==> r@ == vstd::utf8::decode_utf8(bytes@),
{
    String::from_utf8_lossy(bytes).into_owned()
}

/// Whether `a` and `b` hold the same characters.
pub fn text_eq(a: &str, b: &str) -> (r: bool)
    ensures
        r == (a@ == b@),
{
    let x = a.as_bytes();
    let y = b.as_bytes();
    proof {
        vstd::utf8::encode_utf8_decode_utf8(a@);
        vstd::utf8::encode_utf8_decode_utf8(b@);
    }
    if x.len() != y.len() {
        return false;
    }
    let mut i: usize = 0;
    while i < x.len()
        invariant
            i <= x@.len(),
            x@.len() == y@.len(),
            x@ == vstd::utf8::encode_utf8(a@),
            y@ == vstd::utf8::encode_utf8(b@),
            forall|j: int| 0 <= j < i ==> x@[j] == y@[j],
        decreases x@.len() - i,
    {
        if x[i] != y[i] {
            assert(a@ != b@);
            return false;
        }
        i += 1;
    }
    assert(x@ =~= y@);
    true
}

/// The characters of `s`, one by one.
pub fn to_chars(s: &str) -> (r: Vec<char>)
    ensures
        r@ == s@,
{
    let mut out: Vec<char> = Vec::new();
    for c in it: s.chars()
        invariant
            it.seq() == s@,
            out@ == it.seq().take(it.index()),
    {
        out.push(c);
        assert(out@ =~= it.seq().take(it.index() + 1));
    }
    assert(s@.take(s@.len() as int) =~= s@);
    out
}

/// `a` followed by `b`.
pub fn join2(a: &str, b: &str) -> (r: String)
    ensures
        r@ == a@ + b@,
{
    let mut out = String::new();
    out.append(a);
    out.append(b);
    assert(out@ =~= a@ + b@);
    out
}

/// `a`, then `b`, then `c`.
pub fn join3(a: &str, b: &str, c: &str) -> (r: String)
    ensures
        r@ == a@ + b@ + c@,
{
    let mut out = join2(a, b);
    out.append(c);
    out
}

/// The position of the first `c` in `s`.
pub open spec fn first_position(s: Seq<char>, c: char) -> Option<int>
    decreases s.len(),
{
    if s.len() == 0 {
        None
    } else if s[0] == c {
        Some(0)
    } else {
        match first_position(s.skip(1), c) {
            Some(i) => Some(i + 1),
            None => None,
        }
    }
}

/// Two texts: what stands before the first `c` and what stands after it.
pub open spec fn split_at_first(s: Seq<char>, c: char) -> Option<(Seq<char>, Seq<char>)> {
    match first_position(s, c) {
        Some(i) => Some((s.take(i), s.skip(i + 1))),
        None => None,
    }
}

/// The first position is the least one that holds the character.
pub proof fn lemma_first_position(s: Seq<char>, c: char)
    ensures
        match first_position(s, c) {
            Some(i) => 0 <= i < s.len() && s[i] == c && forall|j: int|
                0 <= j < i ==> s[j] != c,
            None => forall|j: int| 0 <= j < s.len() ==> s[j] != c,
        },
    decreases s.len(),
{
    if s.len() > 0 && s[0] != c {
        lemma_first_position(s.skip(1), c);
        match first_position(s.skip(1), c) {
            Some(i) => {
                assert(s.skip(1)[i] == s[i + 1]);
                assert forall|j: int| 0 <= j < i + 1 implies s[j] != c by {
                    if j > 0 {
                        assert(s.skip(1)[j - 1] == s[j]);
                    }
                }
            },
            None => {
                assert forall|j: int| 0 <= j < s.len() implies s[j] != c by {
                    if j > 0 {
                        assert(s.skip(1)[j - 1] == s[j]);
                    }
                }
            },
        }
    }
}

/// Splits `s` at the first `c`; `None` where `c` does not occur.
pub fn split_once(s: &str, c: char) -> (r: Option<(String, String)>)
    ensures
        match r {
            Some(p) => split_at_first(s@, c) == Some((p.0@, p.1@)),
            None => split_at_first(s@, c) is None,
        },
{
    let chars = to_chars(s);
    proof {
        lemma_first_position(s@, c);
    }
    let mut i: usize = 0;
    while i < chars.len()
        invariant
            i <= chars@.len(),
            chars@ == s@,
            forall|j: int| 0 <= j < i ==> chars@[j] != c,
        decreases chars@.len() - i,
    {
        if chars[i] == c {
            let head = s.substring_char(0, i);
            let tail = s.substring_char(i + 1, chars.len());
            proof {
                lemma_first_position(s@, c);
                assert(first_position(s@, c) == Some(i as int));
                assert(head@ =~= s@.take(i as int));
                assert(tail@ =~= s@.skip(i + 1));
            }
            return Some((head.to_string(), tail.to_string()));
        }
        i += 1;
    }
    proof {
        lemma_first_position(s@, c);
    }
    None
}

/// Whether `s` starts with `prefix`.
pub fn starts_with(s: &str, prefix: &str) -> (r: bool)
    ensures
        r == prefix@.is_prefix_of(s@),
{
    let a = to_chars(s);
    let p = to_chars(prefix);
    if p.len() > a.len() {
        return false;
    }
    let head = s.substring_char(0, p.len());
    text_eq(head, prefix)
}

/// `s` without any number of leading copies of `pat`.
pub open spec fn trim_start(s: Seq<char>, pat: Seq<char>) -> Seq<char>
    decreases s.len(),
{
    if pat.len() > 0 && pat.is_prefix_of(s) {
        trim_start(s.skip(pat.len() as int), pat)
    } else {
        s
    }
}

/// `s` without any number of trailing copies of `pat`.
pub open spec fn trim_end(s: Seq<char>, pat: Seq<char>) -> Seq<char>
    decreases s.len(),
{
    if pat.len() > 0 && pat.is_suffix_of(s) {
        trim_end(s.take(s.len() - pat.len()), pat)
    } else {
        s
    }
}

/// Removes every leading copy of `pat` from `s`.
pub fn trim_start_matches(s: &str, pat: &str) -> (r: String)
    requires
        pat@.len() > 0,
    ensures
        r@ == trim_start(s@, pat@),
{
    let n = to_chars(s).len();
    let m = to_chars(pat).len();
    let mut from: usize = 0;
    assert(s@.skip(0) =~= s@);
    while m <= n - from && text_eq(s.substring_char(from, from + m), pat)
        invariant
            from <= n,
            n == s@.len(),
            m == pat@.len(),
            m > 0,
            trim_start(s@, pat@) == trim_start(s@.skip(from as int), pat@),
        decreases n - from,
    {
        proof {
            let rest = s@.skip(from as int);
            assert(rest.subrange(0, m as int) =~= s@.subrange(from as int, from + m));
            assert(rest.skip(m as int) =~= s@.skip(from + m));
        }
        from += m;
    }
    proof {
        let rest = s@.skip(from as int);
        if pat@.is_prefix_of(rest) {
            assert(rest.subrange(0, m as int) =~= s@.subrange(from as int, from + m));
        }
        assert(rest =~= s@.subrange(from as int, n as int));
    }
    s.substring_char(from, n).to_string()
}

/// Removes every trailing copy of `pat` from `s`.
pub fn trim_end_matches(s: &str, pat: &str) -> (r: String)
    requires
        pat@.len() > 0,
    ensures
        r@ == trim_end(s@, pat@),
{
    let n = to_chars(s).len();
    let m = to_chars(pat).len();
    let mut to: usize = n;
    assert(s@.take(n as int) =~= s@);
    while m <= to && text_eq(s.substring_char(to - m, to), pat)
        invariant
            to <= n,
            n == s@.len(),
            m == pat@.len(),
            m > 0,
            trim_end(s@, pat@) == trim_end(s@.take(to as int), pat@),
        decreases to,
    {
        proof {
            let rest = s@.take(to as int);
            assert(rest.subrange(to - m, to as int) =~= s@.subrange(to - m, to as int));
            assert(rest.take(to - m) =~= s@.take(to - m));
        }
        to -= m;
    }
    proof {
        let rest = s@.take(to as int);
        if pat@.is_suffix_of(rest) {
            assert(rest.subrange(to - m, to as int) =~= s@.subrange(to - m, to as int));
        }
        assert(rest =~= s@.subrange(0, to as int));
    }
    s.substring_char(0, to).to_string()
}

/// Trimming takes copies of `pat` away, one by one, and nothing else.
pub proof fn lemma_trimming(s: Seq<char>, pat: Seq<char>)
    requires
        pat.len() > 0,
    ensures
        trim_start(pat + s, pat) == trim_start(s, pat),
        !pat.is_prefix_of(s) ==> trim_start(s, pat) == s,
        trim_end(s + pat, pat) == trim_end(s, pat),
        !pat.is_suffix_of(s) ==> trim_end(s, pat) == s,
{
    assert((pat + s).take(pat.len() as int) =~= pat);
    assert((pat + s).skip(pat.len() as int) =~= s);
    assert((s + pat).skip(s.len() as int) =~= pat);
    assert((s + pat).take(s.len() as int) =~= s);
}

/// A text is split at the first `c`: before it stands no `c`, and all of the text is kept.
pub proof fn lemma_split(before: Seq<char>, c: char, after: Seq<char>)
    requires
        forall|i: int| 0 <= i < before.len() ==> before[i] != c,
    ensures
        split_at_first(before.push(c) + after, c) == Some((before, after)),
        split_at_first(before, c) is None,
{
    let s = before.push(c) + after;
    lemma_first_position(s, c);
    lemma_first_position(before, c);
    assert(s[before.len() as int] == c);
    assert forall|i: int| 0 <= i < before.len() implies s[i] != c by {
        assert(s[i] == before[i]);
    }
    assert(s.take(before.len() as int) =~= before);
    assert(s.skip(before.len() as int + 1) =~= after);
}

} // verus!
