//! Trusted items: the calls this crate makes into `string_morph`, `syn` and
//! std's `sort`.

use vstd::prelude::*;

verus! {

/// `proc_macro2::Span`: where in the source a token stands. Carried through
/// as it is.
#[verifier::external_type_specification]
#[verifier::external_body]
pub struct ExSpan(proc_macro2::Span);

/// What `string_morph::to_snake_case` returns for a given text.
pub uninterp spec fn snake_case(s: Seq<char>) -> Seq<char>;

/// Calls `string_morph::to_snake_case`.
///
/// The conversion looks at the next character through an index that it bounds
/// by the byte length of the text, so it panics on text that holds a
/// character outside ASCII; `requires` leaves such text out. Nothing is
/// claimed of the result but that it is `snake_case` of the argument.
#[verifier::external_body]
pub(crate) fn to_snake_case(s: &str) -> (r: String)
    requires
        vstd::utf8::is_ascii_chars(s@),
    ensures
        r@ == snake_case(s@),
{
    string_morph::to_snake_case(s)
}

/// Calls `syn::parse_str::<syn::Ident>`: `Ok` where it succeeds, else the
/// message of syn's error.
///
/// Nothing is claimed of the answer: `parse_str` lexes through `proc_macro2`,
/// which picks its lexer from the state of the process, so the answer is
/// recorded where it is used rather than described here. `proc_macro2`
/// reserves the right to panic on some text that does not lex; the text
/// handed here is that of a token that was lexed already.
#[verifier::external_body]
pub(crate) fn accepts_ident(s: &str) -> Result<(), String> {
    match syn::parse_str::<syn::Ident>(s) {
        Ok(_) => Ok(()),
        Err(e) => Err(e.to_string()),
    }
}

/// Calls `syn::parse_str::<syn::Meta>`: `Ok(true)` where it succeeds,
/// `Ok(false)` where it fails only because tokens are left after a whole
/// attribute content (syn's error "unexpected token", which it gives for
/// tokens left over), else the message of syn's error.
///
/// Nothing is claimed of the answer, for the reasons given at
/// `accepts_ident`.
#[verifier::external_body]
pub(crate) fn meta_kind(s: &str) -> Result<bool, String> {
    match syn::parse_str::<syn::Meta>(s) {
        Ok(_) => Ok(true),
        Err(e) if e.to_string() == "unexpected token" => Ok(false),
        Err(e) => Err(e.to_string()),
    }
}

/// Calls `syn::parse_str::<syn::Type>`: none where it fails, else whether
/// the type is a `syn::Type::Reference`.
///
/// Nothing is claimed of the answer, for the reasons given at
/// `accepts_ident`. syn parses nested types by recursion, so text nested
/// deeply enough can exhaust the stack; no contract here can bound that.
#[verifier::external_body]
pub(crate) fn type_kind(s: &str) -> Option<bool> {
    match syn::parse_str::<syn::Type>(s) {
        Ok(syn::Type::Reference(_)) => Some(true),
        Ok(_) => Some(false),
        Err(_) => None,
    }
}

/// Whether the byte string `a` comes before `b`, or equals it, when the two
/// are compared byte by byte from the start.
pub open spec fn bytes_le(a: Seq<u8>, b: Seq<u8>) -> bool
    decreases a.len(),
{
    if a.len() == 0 {
        true
    } else if b.len() == 0 {
        false
    } else if a[0] != b[0] {
        a[0] < b[0]
    } else {
        bytes_le(a.drop_first(), b.drop_first())
    }
}

/// The order of `str`: lexicographic over the UTF-8 bytes.
pub open spec fn name_le(a: Seq<char>, b: Seq<char>) -> bool {
    bytes_le(vstd::utf8::encode_utf8(a), vstd::utf8::encode_utf8(b))
}

/// Whether the strings of `s` come in the order of `str`.
pub open spec fn sorted_names(s: Seq<String>) -> bool {
    forall|i: int, j: int| 0 <= i < j < s.len() ==> name_le((#[trigger] s[i])@, (#[trigger] s[j])@)
}

/// Calls `slice::sort` on a vector of strings.
///
/// std documents that `sort` puts the slice in ascending order and keeps its
/// elements, and that strings are ordered lexicographically by their bytes;
/// this is what the contract claims.
#[verifier::external_body]
pub(crate) fn sort_names(v: &mut Vec<String>)
    ensures
        final(v)@.to_multiset() == old(v)@.to_multiset(),
        sorted_names(final(v)@),
{
    v.sort();
}

/// Calls `String::push`, which std documents as appending the character
/// to the end of the string.
#[verifier::external_body]
pub(crate) fn push_char(s: &mut String, c: char)
    ensures
        final(s)@ == old(s)@.push(c),
{
    s.push(c);
}

} // verus!
