//! The engine's one opening onto the `regex` crate: pattern matching against
//! the remainder of a line.

use vstd::prelude::*;

verus! {

/// The texts of the successive non-overlapping matches that `pattern` finds
/// anywhere in `text`, in order; nothing when `pattern` is not a valid
/// regular expression. The outcome depends on the pattern and the text
/// alone, so it is given a name here rather than a definition.
pub uninterp spec fn regex_match_texts(pattern: Seq<char>, text: Seq<char>) -> Option<
    Seq<Seq<char>>,
>;

/// Relies on `regex::Regex::new` (whether a pattern compiles depends on the
/// pattern alone) and `regex::Regex::captures_iter` (the successive
/// non-overlapping match texts depend on the pattern and the haystack
/// alone). Each match text is a substring of the haystack, so its character
/// count is bounded by the haystack's.
#[verifier::external_body]
pub(crate) fn regex_find_matches(pattern: &str, text: &str) -> (r: Option<Vec<String>>)
    ensures
        r.deep_view() == regex_match_texts(pattern@, text@),
        r matches Some(ms) ==> forall|i: int|
            0 <= i < ms.len() ==> (#[trigger] ms[i]@).len() <= text@.len(),
{
    match regex::Regex::new(pattern) {
        Ok(re) => {
            let mut v: Vec<String> = Vec::new();
            for caps in re.captures_iter(text) {
                if let Some(m) = caps.get(0) {
                    v.push(m.as_str().to_string());
                }
            }
            Some(v)
        },
        Err(_) => None,
    }
}

} // verus!
