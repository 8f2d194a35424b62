use vstd::prelude::*;
use vstd::string::*;

verus! {

/// The Unicode lowercase form of a text, as `str::to_lowercase` computes it.
pub uninterp spec fn lowercase(s: Seq<char>) -> Seq<char>;

/// `str::to_lowercase`.
///
/// Trusted: the result is the lowercase mapping that std applies character
/// by character from its Unicode tables; it depends on the text alone (not
/// on a locale). Which characters it yields is left to the name
/// [`lowercase`].
#[verifier::external_body]
pub(crate) fn to_lowercase(s: &str) -> (lower: String)
    ensures
        lower@ == lowercase(s@),
{
    s.to_lowercase()
}

/// Does `needle` occur as a contiguous run of characters in `haystack`?
pub open spec fn is_substring(needle: Seq<char>, haystack: Seq<char>) -> bool {
    exists|start: int|
        0 <= start && start + needle.len() <= haystack.len() && #[trigger] haystack.subrange(
            start,
            start + needle.len(),
        ) == needle
}

/// The characters of `s`.
fn chars_of(s: &str) -> (chars: Vec<char>)
    ensures
        chars@ == s@,
{
    let n = s.unicode_len();
    let mut chars: Vec<char> = Vec::new();
    let mut i: usize = 0;
    while i < n
        invariant
            n == s@.len(),
            i <= n,
            chars@ == s@.take(i as int),
        decreases n - i,
    {
        chars.push(s.get_char(i));
        i += 1;
        assert(chars@ =~= s@.take(i as int));
    }
    assert(s@.take(n as int) =~= s@);
    chars
}

/// Does `needle` occur in `haystack` at position `start`?
fn occurs_at(needle: &Vec<char>, haystack: &Vec<char>, start: usize) -> (found: bool)
    requires
        start + needle@.len() <= haystack@.len(),
    ensures
        found == (haystack@.subrange(start as int, start + needle@.len()) == needle@),
{
    let hay_len = haystack.len();
    let mut k: usize = 0;
    while k < needle.len()
        invariant
            start + needle@.len() <= haystack@.len(),
            hay_len == haystack@.len(),
            k <= needle@.len(),
            forall|j: int| 0 <= j < k ==> haystack@[start + j] == needle@[j],
        decreases needle@.len() - k,
    {
        if haystack[start + k] != needle[k] {
            assert(haystack@.subrange(start as int, start + needle@.len())[k as int] != needle@[k as int]);
            return false;
        }
        k += 1;
    }
    assert(haystack@.subrange(start as int, start + needle@.len()) =~= needle@);
    true
}

/// `haystack.contains(needle)` for a text needle: does `needle` occur in
/// `haystack`? (An empty needle occurs in every text.)
pub fn contains_substring(haystack: &str, needle: &str) -> (found: bool)
    ensures
        found == is_substring(needle@, haystack@),
{
    let hay = chars_of(haystack);
    let pat = chars_of(needle);
    if pat.len() > hay.len() {
        return false;
    }
    let last = hay.len() - pat.len();
    let mut start: usize = 0;
    loop
        invariant
            hay@ == haystack@,
            pat@ == needle@,
            last + pat@.len() == hay@.len(),
            start <= last,
            forall|s: int| 0 <= s < start ==> #[trigger] hay@.subrange(s, s + pat@.len()) != pat@,
        decreases last - start,
    {
        if occurs_at(&pat, &hay, start) {
            return true;
        }
        if start == last {
            return false;
        }
        start += 1;
    }
}

/// Is some string of `strings` equal to `text`?
pub open spec fn has_text(strings: Seq<String>, text: Seq<char>) -> bool {
    exists|i: int| 0 <= i < strings.len() && #[trigger] strings[i]@ == text
}

/// `strings.contains(text)`: is some string of `strings` equal to `text`?
pub fn contains_text(strings: &Vec<String>, text: &String) -> (found: bool)
    ensures
        found == has_text(strings@, text@),
{
    let mut i: usize = 0;
    while i < strings.len()
        invariant
            i <= strings@.len(),
            forall|j: int| 0 <= j < i ==> strings@[j]@ != text@,
        decreases strings@.len() - i,
    {
        if strings[i].eq(text) {
            return true;
        }
        i += 1;
    }
    false
}

} // verus!
