use vstd::prelude::*;

use base64::Engine;

use crate::text::{chars_of, contains_seq, occurs_at, text_result};

verus! {

/// The standard base64 encoding (RFC 4648 alphabet, `=` padding) of `bytes`,
/// as the `base64` crate's `general_purpose::STANDARD` engine writes it.
pub uninterp spec fn base64_standard_encoding(bytes: Seq<u8>) -> Seq<char>;

/// `path` is a bare file name, read alike on every platform: it holds no
/// `/`, `\` or `:`, and is not `..`.
pub open spec fn plain_file_name(path: Seq<char>) -> bool {
    &&& !path.contains('/')
    &&& !path.contains('\\')
    &&& !path.contains(':')
    &&& path != seq!['.', '.']
}

/// `path` has a `.` after its first character.
pub open spec fn has_inner_dot(path: Seq<char>) -> bool {
    exists|i: int| 1 <= i < path.len() && path[i] == '.'
}

/// A character that ends a file name on some platform: `/`, `\`, or the `:`
/// of a Windows drive prefix.
pub open spec fn is_name_boundary(c: char) -> bool {
    c == '/' || c == '\\' || c == ':'
}

/// `path` starts with two slashes or backslashes, as Windows UNC, device and
/// verbatim prefixes do.
pub open spec fn starts_with_double_separator(path: Seq<char>) -> bool {
    &&& path.len() >= 2
    &&& (path[0] == '/' || path[0] == '\\')
    &&& (path[1] == '/' || path[1] == '\\')
}

/// The last `.` of `path` stands at index `i`, inside the path's last file
/// name and not at that name's start: nothing after it is a `.` or a name
/// boundary, the character before it is no name boundary, and that name is
/// not `..`.
pub open spec fn extension_dot_in_last_name(path: Seq<char>, i: int) -> bool {
    &&& 1 <= i < path.len()
    &&& path[i] == '.'
    &&& forall|j: int| i < j < path.len() ==> path[j] != '.' && !is_name_boundary(#[trigger] path[j])
    &&& !is_name_boundary(path[i - 1])
    &&& !(i == path.len() - 1 && path[i - 1] == '.' && (i == 1 || is_name_boundary(path[i - 2])))
}

/// As `extension_dot_in_last_name`, in a path with no UNC, device or
/// verbatim prefix: every platform reads the text after the `.` as the
/// extension.
pub open spec fn portable_extension_dot(path: Seq<char>, i: int) -> bool {
    &&& extension_dot_in_last_name(path, i)
    &&& !starts_with_double_separator(path)
}

/// `path` ends in a file name whose extension every platform reads alike.
pub open spec fn has_portable_extension(path: Seq<char>) -> bool {
    exists|i: int| portable_extension_dot(path, i)
}

/// `path` starts like a Windows verbatim UNC path, `\\?\UNC\` (the letters
/// `UNC` in any case).
pub open spec fn starts_like_verbatim_unc(path: Seq<char>) -> bool {
    &&& path.len() >= 8
    &&& path[2] == '?'
    &&& (path[4] == 'U' || path[4] == 'u')
    &&& (path[5] == 'N' || path[5] == 'n')
    &&& (path[6] == 'C' || path[6] == 'c')
}

/// How many backslashes after the two leading separators a Windows prefix
/// (UNC `\\server\share`, device `\\.\name`, verbatim `\\?\name`,
/// `\\?\C:`, or `\\?\UNC\server\share`) can reach across at most,
/// counting the one that ends it: four for a verbatim UNC prefix, two for the
/// others.
pub open spec fn prefix_backslash_bound(path: Seq<char>) -> nat {
    if starts_like_verbatim_unc(path) {
        4
    } else {
        2
    }
}

/// The number of backslashes in `path[from..to]`.
pub open spec fn backslash_count(path: Seq<char>, from: int, to: int) -> nat {
    path.subrange(from, to).filter(|c: char| c == '\\').len()
}

/// As `extension_dot_in_last_name`, in a path that starts with two
/// separators, where enough backslashes stand before the `.` that any
/// Windows prefix ends before it.
pub open spec fn prefixed_extension_dot(path: Seq<char>, i: int) -> bool {
    &&& extension_dot_in_last_name(path, i)
    &&& starts_with_double_separator(path)
    &&& i >= 2
    &&& backslash_count(path, 2, i) >= prefix_backslash_bound(path)
}

/// `path` starts with a network-share, device or verbatim prefix and ends in
/// a file name, past that prefix, whose extension every platform reads alike.
pub open spec fn has_prefixed_extension(path: Seq<char>) -> bool {
    exists|i: int| prefixed_extension_dot(path, i)
}

/// After the last `.` of `path` come a `/` or `\` and then some other
/// character: that `.` belongs to a directory name (or a name the platform
/// does not split there), never to a plain extension.
pub open spec fn separator_after_last_dot(path: Seq<char>) -> bool {
    exists|i: int, j: int, k: int|
        0 <= i < j < k < path.len() && path[i] == '.' && (forall|m: int|
            i < m < path.len() ==> #[trigger] path[m] != '.') && (path[j] == '/' || path[j]
            == '\\') && path[k] != '/' && path[k] != '\\'
}

/// The characters of `path` after its last `.` (all of it when there is none).
pub open spec fn after_last_dot(path: Seq<char>) -> Seq<char>
    decreases path.len(),
{
    if path.len() == 0 || path.last() == '.' {
        Seq::empty()
    } else {
        after_last_dot(path.drop_last()).push(path.last())
    }
}

/// What the file-name extension of `path` is, as `std::path::Path::extension`
/// finds it.
///
/// Calls `Path::new(path).extension()`. Claimed, as its documentation says:
/// an extension, when there is one, holds no `.` and stands in `path` right
/// after a `.`; and for a bare file name (no separator or prefix, not `..`)
/// there is one exactly when a `.` follows the first character, and it is
/// the text after the last `.`; and the same holds for any path whose last `.`
/// stands inside its final file name, after that name's first character, with
/// no UNC, device or verbatim prefix in front (`has_portable_extension`), and
/// for a path with such a prefix when enough backslashes stand before the
/// last `.` that the prefix, as std's `Prefix` documents its forms, ends
/// before it (`has_prefixed_extension`). When a `/` or `\` and another
/// character follow the last `.`, any extension found holds a `/` or `\`:
/// the platform either splits the name there, leaving the `.` in a directory
/// name, or keeps the separator inside the name.
/// For the remaining paths (a name made of dots, a dot inside a prefix, too
/// few backslashes after a prefix to place the `.`), whether and where the
/// platform finds an extension is left unsaid.
#[verifier::external_body]
fn path_extension(path: &str) -> (r: Option<String>)
    ensures
        r matches Some(e) ==> !e@.contains('.') && contains_seq(path@, seq!['.'] + e@),
        plain_file_name(path@) ==> match r {
            Some(e) => has_inner_dot(path@) && e@ == after_last_dot(path@),
            None => !has_inner_dot(path@),
        },
        has_portable_extension(path@) ==> match r {
            Some(e) => e@ == after_last_dot(path@),
            None => false,
        },
        has_prefixed_extension(path@) ==> match r {
            Some(e) => e@ == after_last_dot(path@),
            None => false,
        },
        separator_after_last_dot(path@) ==> match r {
            Some(e) => e@.contains('/') || e@.contains('\\'),
            None => true,
        },
{
    std::path::Path::new(path).extension().map(|e| e.to_string_lossy().into_owned())
}

/// The length of the padded base64 encoding of `n` bytes.
pub open spec fn base64_encoded_len(n: nat) -> nat {
    4 * ((n + 2) / 3)
}

/// Encodes `bytes` with `base64::engine::general_purpose::STANDARD.encode`.
///
/// Claimed: the result is the standard padded encoding of `bytes` (named, not
/// written out), four characters for every started group of three bytes.
/// `encode` panics when that length does not fit in `usize`, which `requires`
/// rules out.
#[verifier::external_body]
fn encode_base64_standard(bytes: &[u8]) -> (r: String)
    requires
        base64_encoded_len(bytes@.len()) <= usize::MAX,
    ensures
        r@ == base64_standard_encoding(bytes@),
        r@.len() == base64_encoded_len(bytes@.len()),
{
    base64::engine::general_purpose::STANDARD.encode(bytes)
}

/// `c` with ASCII upper-case letters made lower-case.
pub open spec fn ascii_lower_char(c: char) -> char {
    if 'A' <= c && c <= 'Z' {
        ((c as u32) + 32) as char
    } else {
        c
    }
}

/// `s` with ASCII upper-case letters made lower-case, as
/// `str::to_ascii_lowercase` does.
pub open spec fn ascii_lowercase(s: Seq<char>) -> Seq<char> {
    s.map_values(|c: char| ascii_lower_char(c))
}

/// The message given when a wallpaper is not an image type Colorify shows.
pub open spec fn unsupported_image_message() -> Seq<char> {
    "Choose a PNG, JPG, WEBP, or BMP image."@
}

/// The MIME type of an image with file-name extension `extension`, compared
/// without regard to ASCII case; `None` for any other extension.
pub open spec fn spec_mime_type_for_extension(extension: Seq<char>) -> Option<Seq<char>> {
    let e = ascii_lowercase(extension);
    if e == "png"@ {
        Some("image/png"@)
    } else if e == "jpg"@ || e == "jpeg"@ {
        Some("image/jpeg"@)
    } else if e == "webp"@ {
        Some("image/webp"@)
    } else if e == "bmp"@ {
        Some("image/bmp"@)
    } else {
        None
    }
}

/// The answer for an image with file-name extension `extension`: its MIME
/// type, or the message that asks for a supported image.
pub open spec fn spec_mime_outcome(extension: Seq<char>) -> Result<Seq<char>, Seq<char>> {
    match spec_mime_type_for_extension(extension) {
        Some(m) => Ok(m),
        None => Err(unsupported_image_message()),
    }
}

/// `extension` is the empty one, or holds no `.` and follows a `.` in `path`:
/// what can be said, on every platform, of the extension that
/// `Path::extension` reports for `path` (an absent one read as empty).
pub open spec fn extension_candidate(path: Seq<char>, extension: Seq<char>) -> bool {
    ||| extension == Seq::<char>::empty()
    ||| !extension.contains('.') && contains_seq(path, seq!['.'] + extension)
}

/// A `data:` URL holding `encoded`, the base64 form of an image of type `mime`.
pub open spec fn spec_data_url(mime: Seq<char>, encoded: Seq<char>) -> Seq<char> {
    "data:"@ + mime + ";base64,"@ + encoded
}

/// The lower-case form of `c` for ASCII letters.
fn lower_ascii_char(c: char) -> (r: char)
    ensures
        r == ascii_lower_char(c),
{
    if 'A' <= c && c <= 'Z' {
        let b: u8 = c as u8;
        (b + 32) as char
    } else {
        c
    }
}

/// Whether the ASCII-lower-cased `chars` equal `target`.
fn lowercase_equals(chars: &Vec<char>, target: &str) -> (b: bool)
    ensures
        b == (ascii_lowercase(chars@) == target@),
{
    let t = chars_of(target);
    if chars.len() != t.len() {
        assert(ascii_lowercase(chars@).len() != target@.len());
        return false;
    }
    let mut i: usize = 0;
    while i < chars.len()
        invariant
            i <= chars@.len() == t@.len(),
            t@ == target@,
            forall|k: int| 0 <= k < i ==> ascii_lower_char(chars@[k]) == t@[k],
        decreases chars@.len() - i,
    {
        if lower_ascii_char(chars[i]) != t[i] {
            assert(ascii_lowercase(chars@)[i as int] != target@[i as int]);
            return false;
        }
        i += 1;
    }
    assert(ascii_lowercase(chars@) =~= target@);
    true
}

/// The MIME type of an image with file-name extension `extension`, or the
/// message that asks for a supported image.
pub fn mime_type_for_extension(extension: &str) -> (r: Result<String, String>)
    ensures
        text_result(r) == spec_mime_outcome(extension@),
{
    let chars = chars_of(extension);
    if lowercase_equals(&chars, "png") {
        Ok("image/png".to_owned())
    } else if lowercase_equals(&chars, "jpg") || lowercase_equals(&chars, "jpeg") {
        Ok("image/jpeg".to_owned())
    } else if lowercase_equals(&chars, "webp") {
        Ok("image/webp".to_owned())
    } else if lowercase_equals(&chars, "bmp") {
        Ok("image/bmp".to_owned())
    } else {
        Err("Choose a PNG, JPG, WEBP, or BMP image.".to_owned())
    }
}

/// An extension that holds a `/` or `\` is no supported image type.
proof fn lemma_separator_extension_unsupported(e: Seq<char>)
    requires
        e.contains('/') || e.contains('\\'),
    ensures
        spec_mime_outcome(e) == Err::<Seq<char>, Seq<char>>(unsupported_image_message()),
{
    reveal_strlit("png");
    reveal_strlit("jpg");
    reveal_strlit("jpeg");
    reveal_strlit("webp");
    reveal_strlit("bmp");
    let k = choose|k: int| 0 <= k < e.len() && (e[k] == '/' || e[k] == '\\');
    let l = ascii_lowercase(e);
    assert(l[k] == e[k]);
    assert(l.len() == e.len());
    assert(l[k] == '/' || l[k] == '\\');
    if l == "png"@ || l == "jpg"@ || l == "jpeg"@ || l == "webp"@ || l == "bmp"@ {
        assert(0 <= k < 4);
        if k == 0 {
            assert('a' <= l[0] && l[0] <= 'z');
        } else if k == 1 {
            assert('a' <= l[1] && l[1] <= 'z');
        } else if k == 2 {
            assert('a' <= l[2] && l[2] <= 'z');
        } else {
            assert('a' <= l[3] && l[3] <= 'z');
        }
    }
}

/// The MIME type of the image at `path`, from its file-name extension (no
/// extension counts as an empty one), or the message that asks for a
/// supported image.
pub fn image_mime_type(path: &str) -> (r: Result<String, String>)
    ensures
        exists|e: Seq<char>|
            extension_candidate(path@, e) && text_result(r) == #[trigger] spec_mime_outcome(e),
        !path@.contains('.') ==> text_result(r) == Err::<Seq<char>, Seq<char>>(
            unsupported_image_message(),
        ),
        has_portable_extension(path@) ==> text_result(r) == spec_mime_outcome(
            after_last_dot(path@),
        ),
        has_prefixed_extension(path@) ==> text_result(r) == spec_mime_outcome(
            after_last_dot(path@),
        ),
        separator_after_last_dot(path@) ==> text_result(r) == Err::<Seq<char>, Seq<char>>(
            unsupported_image_message(),
        ),
        plain_file_name(path@) ==> text_result(r) == spec_mime_outcome(
            if has_inner_dot(path@) {
                after_last_dot(path@)
            } else {
                Seq::empty()
            },
        ),
{
    match path_extension(path) {
        Some(extension) => {
            let r = mime_type_for_extension(extension.as_str());
            assert(extension_candidate(path@, extension@));
            proof {
                let dotted = seq!['.'] + extension@;
                let i = choose|i: int| #[trigger] occurs_at(path@, dotted, i);
                assert(path@.subrange(i, i + dotted.len())[0] == '.');
                assert(path@[i] == '.');
                if extension@.contains('/') || extension@.contains('\\') {
                    lemma_separator_extension_unsupported(extension@);
                }
            }
            r
        },
        None => {
            let r = mime_type_for_extension("");
            proof {
                reveal_strlit("");
                reveal_strlit("png");
                reveal_strlit("jpg");
                reveal_strlit("jpeg");
                reveal_strlit("webp");
                reveal_strlit("bmp");
                assert(""@ =~= Seq::<char>::empty());
                assert(extension_candidate(path@, ""@));
                assert(ascii_lowercase(""@).len() == 0);
            }
            r
        },
    }
}

/// A `data:` URL for an image of type `mime` whose base64 form is `encoded`.
pub fn data_url(mime: &str, encoded: &str) -> (r: String)
    ensures
        r@ == spec_data_url(mime@, encoded@),
{
    let mut r = "data:".to_owned();
    r.append(mime);
    r.append(";base64,");
    r.append(encoded);
    r
}

/// A `data:` URL for the image of type `mime` whose file holds `bytes`.
pub fn image_data_url(mime: &str, bytes: &[u8]) -> (r: String)
    requires
        base64_encoded_len(bytes@.len()) <= usize::MAX,
    ensures
        r@ == spec_data_url(mime@, base64_standard_encoding(bytes@)),
{
    let encoded = encode_base64_standard(bytes);
    data_url(mime, encoded.as_str())
}

/// Lower-casing a lower-cased text changes nothing.
proof fn lemma_ascii_lowercase_idempotent(s: Seq<char>)
    ensures
        ascii_lowercase(ascii_lowercase(s)) == ascii_lowercase(s),
{
    let l = ascii_lowercase(s);
    assert forall|k: int| 0 <= k < l.len() implies #[trigger] ascii_lower_char(l[k]) == l[k] by {
        let c = s[k];
        if 'A' <= c && c <= 'Z' {
            assert(((c as u32) + 32) as char == l[k]);
            assert('a' <= l[k] && l[k] <= 'z');
        }
    }
    assert(ascii_lowercase(l) =~= l);
}

/// Letter case does not matter: an extension gets the same answer as its
/// ASCII lower-cased form, so `WEBP`, `Webp` and `webp` all name a WebP image.
pub proof fn lemma_mime_outcome_ignores_case(extension: Seq<char>)
    ensures
        spec_mime_outcome(extension) == spec_mime_outcome(ascii_lowercase(extension)),
{
    lemma_ascii_lowercase_idempotent(extension);
}

/// An extension is accepted exactly when, lower-cased, it is `png`, `jpg`,
/// `jpeg`, `webp` or `bmp`; each gives its image type, and every other
/// extension gives the message that asks for a supported image.
pub proof fn lemma_mime_outcome_accepts_exactly_the_image_types(extension: Seq<char>)
    ensures
        ascii_lowercase(extension) == "png"@ ==> spec_mime_outcome(extension) == Ok::<
            Seq<char>,
            Seq<char>,
        >("image/png"@),
        ascii_lowercase(extension) == "jpg"@ ==> spec_mime_outcome(extension) == Ok::<
            Seq<char>,
            Seq<char>,
        >("image/jpeg"@),
        ascii_lowercase(extension) == "jpeg"@ ==> spec_mime_outcome(extension) == Ok::<
            Seq<char>,
            Seq<char>,
        >("image/jpeg"@),
        ascii_lowercase(extension) == "webp"@ ==> spec_mime_outcome(extension) == Ok::<
            Seq<char>,
            Seq<char>,
        >("image/webp"@),
        ascii_lowercase(extension) == "bmp"@ ==> spec_mime_outcome(extension) == Ok::<
            Seq<char>,
            Seq<char>,
        >("image/bmp"@),
        spec_mime_outcome(extension) is Ok <==> (ascii_lowercase(extension) == "png"@
            || ascii_lowercase(extension) == "jpg"@ || ascii_lowercase(extension) == "jpeg"@
            || ascii_lowercase(extension) == "webp"@ || ascii_lowercase(extension) == "bmp"@),
        spec_mime_outcome(extension) is Err ==> spec_mime_outcome(extension) == Err::<
            Seq<char>,
            Seq<char>,
        >("Choose a PNG, JPG, WEBP, or BMP image."@),
{
    reveal_strlit("png");
    reveal_strlit("jpg");
    reveal_strlit("jpeg");
    reveal_strlit("webp");
    reveal_strlit("bmp");
    let l = ascii_lowercase(extension);
    assert("jpg"@[0] != "png"@[0]);
    assert("jpeg"@.len() != "png"@.len());
    if l == "webp"@ {
        assert(l.len() == 4);
        assert(l != "png"@ && l != "jpg"@);
        assert(l[0] != "jpeg"@[0]);
    }
    if l == "bmp"@ {
        assert(l.len() == 3);
        assert(l[0] != "png"@[0] && l[0] != "jpg"@[0]);
        assert(l != "jpeg"@ && l != "webp"@);
    }
    reveal_strlit("image/jpeg");
    reveal_strlit("image/png");
    reveal_strlit("image/webp");
    reveal_strlit("image/bmp");
}

/// A data URL is `data:`, the MIME type, `;base64,` and then the whole
/// encoding, uncut: thirteen characters longer than the type and the encoding
/// together, and ending in exactly the encoding.
pub proof fn lemma_data_url_holds_the_whole_encoding(mime: Seq<char>, encoded: Seq<char>)
    ensures
        spec_data_url(mime, encoded).len() == 13 + mime.len() + encoded.len(),
        spec_data_url(mime, encoded).subrange(0, 5) == "data:"@,
        spec_data_url(mime, encoded).subrange(5, 5 + mime.len() as int) == mime,
        spec_data_url(mime, encoded).subrange(5 + mime.len() as int, 13 + mime.len() as int) == ";base64,"@,
        spec_data_url(mime, encoded).subrange(
            13 + mime.len() as int,
            spec_data_url(mime, encoded).len() as int,
        ) == encoded,
{
    reveal_strlit("data:");
    reveal_strlit(";base64,");
    let u = spec_data_url(mime, encoded);
    assert(u.subrange(0, 5) =~= "data:"@);
    assert(u.subrange(5, 5 + mime.len() as int) =~= mime);
    assert(u.subrange(5 + mime.len() as int, 13 + mime.len() as int) =~= ";base64,"@);
    assert(u.subrange(13 + mime.len() as int, u.len() as int) =~= encoded);
}

/// Different encodings give different data URLs for the same type, so no two
/// images share a URL.
pub proof fn lemma_data_url_injective(mime: Seq<char>, a: Seq<char>, b: Seq<char>)
    requires
        spec_data_url(mime, a) == spec_data_url(mime, b),
    ensures
        a == b,
{
    lemma_data_url_holds_the_whole_encoding(mime, a);
    lemma_data_url_holds_the_whole_encoding(mime, b);
}

} // verus!
