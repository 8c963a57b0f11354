//! Unique identifiers for projects and tasks.
//!
//! An identifier is held in its canonical text form: 36 characters,
//! hyphens at positions 8, 13, 18 and 23, lowercase hexadecimal digits
//! everywhere else (the usual rendering of a 128-bit random identifier).
//! Parsing accepts uppercase hexadecimal digits and normalizes them, and
//! rejects everything else with `Error::InvalidIdentifier`.

use vstd::prelude::*;
use crate::Error;

verus! {

/// Is `c` a hexadecimal digit (either case)?
pub open spec fn is_hex(c: char) -> bool {
    (48 <= c as u32 && c as u32 <= 57)  // '0'..='9'
    || (97 <= c as u32 && c as u32 <= 102)  // 'a'..='f'
    || (65 <= c as u32 && c as u32 <= 70)  // 'A'..='F'
}

/// Is `c` an uppercase hexadecimal letter?
pub open spec fn is_upper_hex(c: char) -> bool {
    65 <= c as u32 && c as u32 <= 70
}

/// Positions of the four hyphens in the canonical identifier form.
pub open spec fn is_hyphen_pos(i: int) -> bool {
    i == 8 || i == 13 || i == 18 || i == 23
}

/// Does position `i` of `s` hold an acceptable identifier character?
pub open spec fn id_char_ok(s: Seq<char>, i: int) -> bool {
    if is_hyphen_pos(i) {
        s[i] == '-'
    } else {
        is_hex(s[i])
    }
}

/// Is `s` a syntactically valid identifier string (case-insensitive)?
pub open spec fn valid_id_input(s: Seq<char>) -> bool {
    s.len() == 36 && (forall|i: int| 0 <= i < 36 ==> id_char_ok(s, i))
}

/// The lowercase form of one identifier character.
pub open spec fn norm_char(c: char) -> char {
    if c == 'A' { 'a' }
    else if c == 'B' { 'b' }
    else if c == 'C' { 'c' }
    else if c == 'D' { 'd' }
    else if c == 'E' { 'e' }
    else if c == 'F' { 'f' }
    else { c }
}

/// `s` with every uppercase hexadecimal letter lowered.
pub open spec fn norm_id(s: Seq<char>) -> Seq<char> {
    Seq::new(s.len(), |i: int| norm_char(s[i]))
}

/// Is `s` an identifier in canonical (lowercase) form?
pub open spec fn canonical_id(s: Seq<char>) -> bool {
    valid_id_input(s) && (forall|i: int| 0 <= i < 36 ==> !is_upper_hex(s[i]))
}

/// A unique, immutable identifier, held in canonical text form.
pub struct Identifier {
    text: String,
}

impl View for Identifier {
    type V = Seq<char>;

    closed spec fn view(&self) -> Seq<char> {
        self.text@
    }
}

impl Clone for Identifier {
    fn clone(&self) -> (r: Self)
        ensures
            r@ == self@,
    {
        Identifier { text: self.text.clone() }
    }
}

impl Identifier {
    /// The identifier's text form.
    pub fn as_text(&self) -> (r: &str)
        ensures
            r@ == self@,
    {
        self.text.as_str()
    }

    /// The identifier's text form as an owned string.
    pub fn to_text(&self) -> (r: String)
        ensures
            r@ == self@,
    {
        self.text.clone()
    }

    /// Do two identifiers denote the same entity?
    pub fn same_as(&self, other: &Identifier) -> (r: bool)
        ensures
            r == (self@ == other@),
    {
        self.text == other.text
    }
}

/// Relies on `uuid::Uuid::new_v4` and `uuid::Uuid::to_string`: a fresh
/// version-4 UUID rendered in its hyphenated form, which is 36 characters,
/// hyphens at positions 8, 13, 18 and 23, lowercase hexadecimal digits
/// elsewhere. Nothing is assumed about which identifier comes back.
#[verifier::external_body]
fn fresh_id_text() -> (r: String)
    ensures
        canonical_id(r@),
{
    uuid::Uuid::new_v4().to_string()
}

/// Draw a fresh random identifier.
///
/// The identifier space is large enough that collisions are negligible,
/// but nothing here promises freshness: callers that insert under a fresh
/// identifier replace any entry that already carries it.
pub fn new_id() -> (r: Identifier)
    ensures
        canonical_id(r@),
{
    Identifier { text: fresh_id_text() }
}

/// Relies on `String::push`: appends the given character to the end of
/// the string.
#[verifier::external_body]
pub(crate) fn push_char(s: &mut String, c: char)
    ensures
        final(s)@ == old(s)@.push(c),
{
    s.push(c)
}

impl Identifier {
    /// Wrap text already known to be in canonical form.
    pub(crate) fn from_canonical(text: String) -> (r: Identifier)
        requires
            canonical_id(text@),
        ensures
            r@ == text@,
    {
        Identifier { text }
    }
}

/// Character-for-character equality of two string slices.
pub fn str_eq(a: &str, b: &str) -> (r: bool)
    ensures
        r == (a@ == b@),
{
    let na = a.unicode_len();
    let nb = b.unicode_len();
    if na != nb {
        return false;
    }
    let mut i: usize = 0;
    while i < na
        invariant
            0 <= i <= na,
            na == a@.len(),
            na == b@.len(),
            forall|j: int| 0 <= j < i ==> a@[j] == b@[j],
        decreases na - i,
    {
        if a.get_char(i) != b.get_char(i) {
            return false;
        }
        i = i + 1;
    }
    proof {
        assert(a@ =~= b@);
    }
    true
}

/// Parse an identifier out of its text form.
///
/// Succeeds exactly on syntactically valid identifier strings and returns
/// the canonical (lowercase) form; anything else is `InvalidIdentifier`.
pub fn parse_id(s: &str) -> (r: Result<Identifier, Error>)
    ensures
        r is Ok <==> valid_id_input(s@),
        r is Ok ==> r->Ok_0@ == norm_id(s@) && canonical_id(r->Ok_0@),
        r is Err ==> r->Err_0 == Error::InvalidIdentifier,
{
    let n = s.unicode_len();
    if n != 36 {
        return Err(Error::InvalidIdentifier);
    }
    let mut out = String::new();
    let mut i: usize = 0;
    while i < 36
        invariant
            0 <= i <= 36,
            s@.len() == 36,
            out@.len() == i,
            forall|j: int| 0 <= j < i ==> id_char_ok(s@, j),
            forall|j: int| 0 <= j < i ==> out@[j] == norm_char(s@[j]),
            forall|j: int| 0 <= j < i ==> !is_upper_hex(out@[j]),
        decreases 36 - i,
    {
        let c = s.get_char(i);
        let u = c as u32;
        if i == 8 || i == 13 || i == 18 || i == 23 {
            if c != '-' {
                proof {
                    assert(!id_char_ok(s@, i as int));
                }
                return Err(Error::InvalidIdentifier);
            }
            push_char(&mut out, c);
        } else if (48 <= u && u <= 57) || (97 <= u && u <= 102) {
            push_char(&mut out, c);
        } else if 65 <= u && u <= 70 {
            let lowered = if c == 'A' { 'a' }
                else if c == 'B' { 'b' }
                else if c == 'C' { 'c' }
                else if c == 'D' { 'd' }
                else if c == 'E' { 'e' }
                else { 'f' };
            proof {
                assert(lowered == norm_char(c));
                assert(!is_upper_hex(lowered));
            }
            push_char(&mut out, lowered);
        } else {
            proof {
                assert(!is_hex(c));
                assert(!id_char_ok(s@, i as int));
            }
            return Err(Error::InvalidIdentifier);
        }
        i = i + 1;
    }
    proof {
        assert(out@ =~= norm_id(s@));
        assert forall|j: int| 0 <= j < 36 implies id_char_ok(out@, j) by {
            assert(id_char_ok(s@, j));
            assert(out@[j] == norm_char(s@[j]));
        }
        assert(canonical_id(out@));
    }
    Ok(Identifier { text: out })
}

} // verus!
