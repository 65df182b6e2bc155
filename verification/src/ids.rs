//! Random identifiers.
use vstd::prelude::*;

use crate::text::join2;

verus! {

/// Whether `c` is a hexadecimal digit in lower case.
pub open spec fn hex_digit(c: char) -> bool {
    '0' <= c <= '9' || 'a' <= c <= 'f'
}

/// Whether the digits at these places mark a random identifier.
pub open spec fn random_marks(version: char, variant: char) -> bool {
    version == '4' && (variant == '8' || variant == '9' || variant == 'a' || variant == 'b')
}

/// Whether `s` is a random identifier written as hexadecimal digits alone.
pub open spec fn simple_id(s: Seq<char>) -> bool {
    &&& s.len() == 32
    &&& forall|i: int| 0 <= i < 32 ==> hex_digit(#[trigger] s[i])
    &&& random_marks(s[12], s[16])
}

/// Whether a hyphen stands at place `i` of an identifier written in groups.
pub open spec fn hyphen_place(i: int) -> bool {
    i == 8 || i == 13 || i == 18 || i == 23
}

/// Whether `s` is a random identifier written in groups of hexadecimal digits.
pub open spec fn grouped_id(s: Seq<char>) -> bool {
    &&& s.len() == 36
    &&& forall|i: int|
        0 <= i < 36 ==> if hyphen_place(i) {
            #[trigger] s[i] == '-'
        } else {
            hex_digit(s[i])
        }
    &&& random_marks(s[14], s[19])
}

/// `uuid::Uuid::new_v4` written by `simple`: some random identifier in hexadecimal digits.
/// Which one it is rests on chance.
#[verifier::external_body]
pub(crate) fn random_simple_id() -> (r: String)
    ensures
        simple_id(r@),
{
    uuid::Uuid::new_v4().simple().to_string()
}

/// `uuid::Uuid::new_v4` written by its `Display` impl: some random identifier in groups of
/// hexadecimal digits. Which one it is rests on chance.
#[verifier::external_body]
pub(crate) fn random_grouped_id() -> (r: String)
    ensures
        grouped_id(r@),
{
    uuid::Uuid::new_v4().to_string()
}

/// Whether `s` is an identifier of a chat completion.
pub open spec fn completion_id(s: Seq<char>) -> bool {
    exists|id: Seq<char>| #[trigger] grouped_id(id) && s == "chatcmpl-"@ + id
}

/// Whether `s` is an identifier of a machine: two random identifiers in hexadecimal digits.
pub open spec fn machine_id(s: Seq<char>) -> bool {
    s.len() == 64 && simple_id(s.take(32)) && simple_id(s.skip(32))
}

/// A new identifier for a chat completion.
pub fn new_completion_id() -> (r: String)
    ensures
        completion_id(r@),
{
    let id = random_grouped_id();
    assert(grouped_id(id@));
    join2("chatcmpl-", id.as_str())
}

/// A new identifier for this machine.
pub fn new_machine_id() -> (r: String)
    ensures
        machine_id(r@),
{
    let a = random_simple_id();
    let b = random_simple_id();
    let r = join2(a.as_str(), b.as_str());
    assert(r@.take(32) =~= a@);
    assert(r@.skip(32) =~= b@);
    r
}

/// An identifier of a machine is made of hexadecimal digits alone.
pub proof fn lemma_machine_id_is_hexadecimal(s: Seq<char>, i: int)
    requires
        machine_id(s),
        0 <= i < s.len(),
    ensures
        s.len() == 64,
        '0' <= s[i] <= '9' || 'a' <= s[i] <= 'f',
{
    if i < 32 {
        assert(hex_digit(s.take(32)[i]));
    } else {
        assert(hex_digit(s.skip(32)[i - 32]));
    }
}

/// An identifier of a chat completion says so, and has hexadecimal digits and hyphens behind it.
pub proof fn lemma_completion_id_is_marked(s: Seq<char>, i: int)
    requires
        completion_id(s),
        9 <= i < s.len(),
    ensures
        s.len() == 45,
        "chatcmpl-"@.is_prefix_of(s),
        s[i] == '-' || '0' <= s[i] <= '9' || 'a' <= s[i] <= 'f',
{
    reveal_strlit("chatcmpl-");
    let id = choose|id: Seq<char>| #[trigger] grouped_id(id) && s == "chatcmpl-"@ + id;
    assert(s.take(9) =~= "chatcmpl-"@);
    assert(s[i] == id[i - 9]);
}

} // verus!
