//! Lexing of rendered Rust source into a `proc_macro2` token stream.
use vstd::prelude::*;

verus! {

#[verifier::external_type_specification]
#[verifier::external_body]
pub struct ExTokenStream(proc_macro2::TokenStream);

#[verifier::external_type_specification]
#[verifier::external_body]
pub struct ExLexError(proc_macro2::LexError);

/// Whether proc-macro2's lexer accepts `text` as a token stream (every
/// delimiter balanced, every literal well formed).
pub uninterp spec fn lexes_as_tokens(text: Seq<char>) -> bool;

/// The token stream that proc-macro2's lexer makes of `text`.
pub uninterp spec fn lexed_tokens(text: Seq<char>) -> proc_macro2::TokenStream;

/// The source text of the string literal token whose value is `value`, as
/// proc-macro2 writes it: in double quotes, each character escaped as
/// `char::escape_debug` does, except that `'` stays as it is and a NUL
/// followed by an octal digit is written `\x00`.
pub uninterp spec fn string_literal_repr(value: Seq<char>) -> Seq<char>;

/// Printable ASCII other than `"` and `\`: characters a string literal token
/// writes as they are.
pub open spec fn is_plain_literal_char(c: char) -> bool {
    0x20 <= (c as u32) && (c as u32) <= 0x7e && c != '"' && c != '\\'
}

/// Lexes `text` with `<proc_macro2::TokenStream as FromStr>::from_str`.
///
/// Trusted: the call succeeds exactly when the lexer accepts `text`, and the
/// stream it returns is a function of `text` alone. That holds because this
/// crate builds proc-macro2 without its `proc-macro` feature, so only the
/// fallback lexer runs (no compiler spans, no span locations); it would no
/// longer hold if anything in the build enabled that feature.
#[verifier::external_body]
pub(crate) fn lex_tokens(text: &str) -> (res: Result<proc_macro2::TokenStream, proc_macro2::LexError>)
    ensures
        res is Ok <==> lexes_as_tokens(text@),
        res matches Ok(ts) ==> ts == lexed_tokens(text@),
{
    <proc_macro2::TokenStream as core::str::FromStr>::from_str(text)
}


/// The string literal token for `value`: `proc_macro2::Literal::string`,
/// written out with its `Display` impl.
///
/// Trusted: the text is a function of `value` alone (fallback implementation,
/// see `lex_tokens`), and a value made only of printable ASCII other than `"`
/// and `\` is written as it is between double quotes. What escapes the other
/// characters get is left to the name.
#[verifier::external_body]
pub(crate) fn string_literal_token(value: &str) -> (res: String)
    ensures
        res@ == string_literal_repr(value@),
        (forall|i: int| 0 <= i < value@.len() ==> is_plain_literal_char(#[trigger] value@[i]))
            ==> res@ == seq!['"'] + value@ + seq!['"'],
{
    proc_macro2::Literal::string(value).to_string()
}

} // verus!
