//! The closed set of solids and the lookup from a name to one of them.

use vstd::prelude::*;

verus! {

/// One of the solids the viewer can build.
#[derive(Clone, Copy, Debug, PartialEq, Eq, Structural)]
pub enum Primitive {
    Triangle,
    Cube,
    Cylinder,
    Sphere,
    Torus,
}

/// The ASCII lower-case form of one character: `A`..`Z` map to `a`..`z`,
/// every other character is left alone.
pub open spec fn ascii_lower(c: char) -> char {
    if 'A' <= c && c <= 'Z' {
        ((c as u8) + 32) as char
    } else {
        c
    }
}

/// The ASCII lower-case form of a text, character by character.
pub open spec fn ascii_lowered(s: Seq<char>) -> Seq<char> {
    Seq::new(s.len(), |i: int| ascii_lower(s[i]))
}

/// Lower-cases one character.
pub fn lower_char(c: char) -> (r: char)
    ensures
        r == ascii_lower(c),
{
    if 'A' <= c && c <= 'Z' {
        ((c as u8) + 32u8) as char
    } else {
        c
    }
}

/// Whether `s`, lower-cased, reads exactly as `name`.
pub fn eq_lowered(s: &str, name: &str) -> (r: bool)
    ensures
        r == (ascii_lowered(s@) == name@),
{
    let n: usize = name.unicode_len();
    if s.unicode_len() != n {
        assert(ascii_lowered(s@).len() != name@.len());
        return false;
    }
    let mut i: usize = 0;
    while i < n
        invariant
            i <= n,
            n == name@.len(),
            n == s@.len(),
            forall|j: int| 0 <= j < i ==> ascii_lower(s@[j]) == name@[j],
        decreases n - i,
    {
        if lower_char(s.get_char(i)) != name.get_char(i) {
            assert(ascii_lowered(s@)[i as int] != name@[i as int]);
            return false;
        }
        i += 1;
    }
    assert(ascii_lowered(s@) =~= name@);
    true
}

impl Primitive {
    /// The solid that a name selects, if any. Letter case is ignored for
    /// ASCII letters; nothing else is (no trimming, no prefixes).
    pub open spec fn named(name: Seq<char>) -> Option<Primitive> {
        let l = ascii_lowered(name);
        if l == "triangle"@ {
            Some(Primitive::Triangle)
        } else if l == "cube"@ {
            Some(Primitive::Cube)
        } else if l == "cylinder"@ {
            Some(Primitive::Cylinder)
        } else if l == "sphere"@ {
            Some(Primitive::Sphere)
        } else if l == "torus"@ {
            Some(Primitive::Torus)
        } else {
            None
        }
    }

    /// Looks a solid up by name. An unknown name gives `None`, which callers
    /// treat as "keep what is shown".
    pub fn from_str(s: &str) -> (r: Option<Primitive>)
        ensures
            r == Primitive::named(s@),
    {
        if eq_lowered(s, "triangle") {
            Some(Primitive::Triangle)
        } else if eq_lowered(s, "cube") {
            Some(Primitive::Cube)
        } else if eq_lowered(s, "cylinder") {
            Some(Primitive::Cylinder)
        } else if eq_lowered(s, "sphere") {
            Some(Primitive::Sphere)
        } else if eq_lowered(s, "torus") {
            Some(Primitive::Torus)
        } else {
            None
        }
    }
}

} // verus!
