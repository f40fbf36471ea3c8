use vstd::prelude::*;

use crate::text::{
    chars_of, is_unicode_whitespace, lemma_trimmed_bounds, lemma_trimmed_of_trimmed_form, trim_chars,
    trimmed,
};

verus! {

/// Characters that Windows does not allow in a file name.
pub open spec fn is_reserved_file_char(c: char) -> bool {
    ||| c == '<'
    ||| c == '>'
    ||| c == ':'
    ||| c == '"'
    ||| c == '/'
    ||| c == '\\'
    ||| c == '|'
    ||| c == '?'
    ||| c == '*'
}

/// `c`, or `_` where `c` is reserved.
pub open spec fn sanitized_char(c: char) -> char {
    if is_reserved_file_char(c) {
        '_'
    } else {
        c
    }
}

/// `s` with every reserved character replaced by `_`.
pub open spec fn sanitized(s: Seq<char>) -> Seq<char> {
    s.map_values(|c: char| sanitized_char(c))
}

/// The name given to a profile whose name leaves nothing usable.
pub open spec fn fallback_file_name() -> Seq<char> {
    "Colorify profile"@
}

/// A file name for a profile called `name`: reserved characters become `_`,
/// surrounding whitespace goes, and an empty result becomes the fallback name.
pub open spec fn spec_safe_file_name(name: Seq<char>) -> Seq<char> {
    let t = trimmed(sanitized(name));
    if t.len() == 0 {
        fallback_file_name()
    } else {
        t
    }
}

/// The file name offered when a profile called `name` is exported.
pub open spec fn spec_export_file_name(name: Seq<char>) -> Seq<char> {
    spec_safe_file_name(name) + ".json"@
}

/// Whether `c` is reserved in file names.
pub fn is_reserved_file_character(c: char) -> (b: bool)
    ensures
        b == is_reserved_file_char(c),
{
    c == '<' || c == '>' || c == ':' || c == '"' || c == '/' || c == '\\' || c == '|' || c == '?'
        || c == '*'
}

/// A file name for a profile called `name`.
pub fn safe_file_name(name: &str) -> (r: String)
    ensures
        r@ == spec_safe_file_name(name@),
{
    let chars = chars_of(name);
    let mut cleaned: Vec<char> = Vec::new();
    let mut i: usize = 0;
    while i < chars.len()
        invariant
            i <= chars@.len(),
            chars@ == name@,
            cleaned@ == sanitized(name@.take(i as int)),
        decreases chars@.len() - i,
    {
        let c = chars[i];
        if is_reserved_file_character(c) {
            cleaned.push('_');
        } else {
            cleaned.push(c);
        }
        assert(name@.take(i + 1) =~= name@.take(i as int).push(c));
        assert(cleaned@ =~= sanitized(name@.take(i + 1)));
        i += 1;
    }
    assert(name@.take(i as int) =~= name@);
    let trimmed_name = trim_chars(&cleaned);
    if trimmed_name.as_str().is_empty() {
        "Colorify profile".to_owned()
    } else {
        trimmed_name
    }
}

/// The file name offered when a profile called `name` is exported:
/// its safe file name with a `.json` extension.
pub fn export_file_name(name: &str) -> (r: String)
    ensures
        r@ == spec_export_file_name(name@),
{
    let mut r = safe_file_name(name);
    r.append(".json");
    r
}

/// A safe file name is never empty, holds no reserved character, and neither
/// starts nor ends with whitespace.
pub proof fn lemma_safe_file_name_well_formed(name: Seq<char>)
    ensures
        spec_safe_file_name(name).len() > 0,
        forall|k: int|
            0 <= k < spec_safe_file_name(name).len() ==> !is_reserved_file_char(
                #[trigger] spec_safe_file_name(name)[k],
            ),
        !is_unicode_whitespace(spec_safe_file_name(name)[0]),
        !is_unicode_whitespace(spec_safe_file_name(name).last()),
{
    reveal_strlit("Colorify profile");
    let s = sanitized(name);
    lemma_trimmed_bounds(s);
    let t = trimmed(s);
    if t.len() > 0 {
        let (i, j) = choose|i: int, j: int| 0 <= i <= j <= s.len() && t == s.subrange(i, j);
        assert forall|k: int| 0 <= k < t.len() implies !is_reserved_file_char(#[trigger] t[k]) by {
            assert(t[k] == s[i + k]);
        }
    }
}

/// Making a safe file name of a safe file name changes nothing.
pub proof fn lemma_safe_file_name_idempotent(name: Seq<char>)
    ensures
        spec_safe_file_name(spec_safe_file_name(name)) == spec_safe_file_name(name),
{
    let f = spec_safe_file_name(name);
    lemma_safe_file_name_well_formed(name);
    assert(sanitized(f) =~= f);
    lemma_trimmed_of_trimmed_form(f);
}

/// Only `<`, `>`, `:`, `"`, `/`, `\`, `|`, `?` and `*` are replaced: a name
/// that holds none of them and is not blank is offered as it is, only
/// trimmed, and every other character is kept.
pub proof fn lemma_safe_file_name_keeps_ordinary_names(name: Seq<char>)
    requires
        forall|k: int|
            0 <= k < name.len() ==> {
                let c = #[trigger] name[k];
                c != '<' && c != '>' && c != ':' && c != '"' && c != '/' && c != '\\' && c
                    != '|' && c != '?' && c != '*'
            },
        trimmed(name).len() > 0,
    ensures
        spec_safe_file_name(name) == trimmed(name),
        spec_export_file_name(name) == trimmed(name) + ".json"@,
{
    assert(sanitized(name) =~= name);
}

/// Each character of a name is kept or, when it is one of the nine reserved
/// ones, becomes `_`, in its place: the cleaned name has the same length.
pub proof fn lemma_sanitized_characters(name: Seq<char>)
    ensures
        sanitized(name).len() == name.len(),
        forall|k: int|
            0 <= k < name.len() ==> {
                let c = #[trigger] name[k];
                sanitized(name)[k] == if c == '<' || c == '>' || c == ':' || c == '"' || c
                    == '/' || c == '\\' || c == '|' || c == '?' || c == '*' {
                    '_'
                } else {
                    c
                }
            },
{
}

} // verus!
