//! Languages, named by their lumis identifier (`rust`, `plaintext`, ...).
use vstd::prelude::*;

verus! {

#[verifier::external_type_specification]
#[verifier::external_body]
pub struct ExternalLanguage(lumis::languages::Language);

/// The identifier of the language lumis guesses from a hint and the source text.
pub uninterp spec fn guessed_language(hint: Seq<char>, source: Seq<char>) -> Seq<char>;

/// Relies on lumis::languages::Language::guess (then Language::id_name): the
/// language a hint names, else the one the source text suggests, else plain text.
#[verifier::external_body]
pub fn guess_language(hint: &str, source: &str) -> (r: String)
    ensures
        r@ == guessed_language(hint@, source@),
{
    lumis::languages::Language::guess(Some(hint), source).id_name().to_string()
}

/// Relies on lumis's `FromStr` for Language: the language an identifier names,
/// plain text for one it does not know.
#[verifier::external_body]
pub(crate) fn lumis_language(id: &str) -> lumis::languages::Language {
    id.parse().unwrap_or_default()
}

/// The identifier of plain text.
pub open spec fn plaintext_id() -> Seq<char> {
    "plaintext"@
}

} // verus!
