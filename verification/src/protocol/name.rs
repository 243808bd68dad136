//! Topic and channel names.
use crate::text;
use vstd::prelude::*;
use vstd::string::*;
use vstd::utf8::*;

verus! {

/// Why a name is refused.
#[derive(Clone, Copy, Debug, PartialEq, Eq, Structural)]
pub enum NameError {
    /// The name has no base, or more than 64 bytes.
    Length,
    /// The base holds a character outside letters, digits, `.`, `_` and `-`.
    Character,
}

impl NameError {
    /// What the error says.
    pub fn message(&self) -> (r: &'static str)
        ensures
            *self is Length ==> r@ == "name must contain between 1 and 64 characters"@,
            *self is Character ==> r@ == "name contains an unsupported character"@,
    {
        match self {
            NameError::Length => "name must contain between 1 and 64 characters",
            NameError::Character => "name contains an unsupported character",
        }
    }
}

/// A letter or digit of ASCII, a dot, an underscore or a hyphen.
pub open spec fn is_name_char(c: char) -> bool {
    ||| 'a' <= c && c <= 'z'
    ||| 'A' <= c && c <= 'Z'
    ||| '0' <= c && c <= '9'
    ||| c == '.'
    ||| c == '_'
    ||| c == '-'
}

/// A name without the `#ephemeral` suffix that it may carry.
pub open spec fn base_name(name: Seq<char>) -> Seq<char> {
    match text::before_suffix(name, "#ephemeral"@) {
        Some(base) => base,
        None => name,
    }
}

/// Whether the length of a name is acceptable.
pub open spec fn name_length_ok(name: Seq<char>) -> bool {
    base_name(name).len() > 0 && encode_utf8(name).len() <= 64
}

/// A valid name: a non-empty base of name characters, at most 64 bytes in all.
pub open spec fn valid_name(name: Seq<char>) -> bool {
    &&& name_length_ok(name)
    &&& forall|i: int| 0 <= i < base_name(name).len() ==> is_name_char(#[trigger] base_name(name)[i])
}

/// Checks a topic or channel name.
pub fn validate_name(name: &str) -> (r: Result<(), NameError>)
    ensures
        r is Ok <==> valid_name(name@),
        r == Err::<(), NameError>(NameError::Length) <==> !name_length_ok(name@),
        r == Err::<(), NameError>(NameError::Character) <==> name_length_ok(name@) && !valid_name(
            name@,
        ),
{
    let base = match text::strip_suffix(name, "#ephemeral") {
        Some(base) => base,
        None => name.to_owned(),
    };
    if base.as_str().is_empty() || name.as_bytes().len() > 64 {
        return Err(NameError::Length);
    }
    let v = text::chars_of(base.as_str());
    let mut i: usize = 0;
    while i < v.len()
        invariant
            i <= v@.len(),
            v@ == base_name(name@),
            name_length_ok(name@),
            forall|j: int| 0 <= j < i ==> is_name_char(#[trigger] v@[j]),
        decreases v@.len() - i,
    {
        let c: char = v[i];
        if !(('a' <= c && c <= 'z') || ('A' <= c && c <= 'Z') || ('0' <= c && c <= '9') || c == '.'
            || c == '_' || c == '-') {
            assert(!is_name_char(base_name(name@)[i as int]));
            return Err(NameError::Character);
        }
        i += 1;
    }
    Ok(())
}

/// A name is valid exactly where it has at most 64 bytes and, but for an ephemeral ending, is made
/// of letters, digits, dots, underscores and hyphens, at least one of them.
pub proof fn law_names_are_made_of_plain_characters(name: Seq<char>)
    ensures
        forall|c: char| #[trigger]
            is_name_char(c) <==> ('a' <= c && c <= 'z') || ('A' <= c && c <= 'Z') || ('0' <= c && c
                <= '9') || c == '.' || c == '_' || c == '-',
        !text::ends(name, "#ephemeral"@) ==> (valid_name(name) <==> 0 < name.len() && encode_utf8(
            name,
        ).len() <= 64 && forall|i: int| 0 <= i < name.len() ==> is_name_char(#[trigger] name[i])),
        text::ends(name, "#ephemeral"@) ==> (valid_name(name) <==> name != "#ephemeral"@
            && encode_utf8(name).len() <= 64 && forall|i: int|
            0 <= i < name.len() - "#ephemeral"@.len() ==> is_name_char(#[trigger] name[i])),
{
    let e = "#ephemeral"@;
    let base = base_name(name);
    if text::ends(name, e) {
        assert(base == name.take(name.len() - e.len()));
        assert(name =~= base + e);
        assert(base.len() == 0 <==> name == e) by {
            if base.len() == 0 {
                assert(base + e =~= e);
            }
        }
        assert forall|i: int| 0 <= i < base.len() implies #[trigger] name[i] == base[i] by {}
        if valid_name(name) {
            assert forall|i: int| 0 <= i < name.len() - e.len() implies is_name_char(
                #[trigger] name[i],
            ) by {
                assert(is_name_char(base_name(name)[i]));
            }
        } else if name != e && encode_utf8(name).len() <= 64 {
            let i = choose|i: int|
                0 <= i < base_name(name).len() && !is_name_char(#[trigger] base_name(name)[i]);
            assert(!is_name_char(name[i]));
        }
    } else {
        assert(base == name);
        if valid_name(name) {
            assert forall|i: int| 0 <= i < name.len() implies is_name_char(#[trigger] name[i]) by {
                assert(is_name_char(base_name(name)[i]));
            }
        } else if name.len() > 0 && encode_utf8(name).len() <= 64 {
            let i = choose|i: int|
                0 <= i < base_name(name).len() && !is_name_char(#[trigger] base_name(name)[i]);
            assert(!is_name_char(name[i]));
        }
    }
}

} // verus!
