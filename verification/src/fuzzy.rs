//! How well a label matches a search text.

use vstd::prelude::*;

use crate::offsets;
use crate::text;

use nucleo_matcher::pattern::{CaseMatching, Normalization, Pattern};
use nucleo_matcher::{Config, Matcher, Utf32Str};

verus! {

/// The most characters of a needle that the matcher can add up the points of:
/// there are at most 36 for the first one and 26 for each other, and the sum is
/// kept in 16 bits.
pub const LONGEST_NEEDLE: usize = 2520;

/// The most characters of all needles together: there are at most 36 points for
/// each, and the sum over the needles is kept in 32 bits.
pub const LONGEST_NEEDLES: usize = 119_304_647;

/// Whether a text is made of ASCII characters.
pub open spec fn is_ascii(s: Seq<char>) -> bool {
    forall|i: int| 0 <= i < s.len() ==> (#[trigger] s[i]) as u32 <= 127
}

/// How many characters of a needle the character at `i` of a search text can
/// give. Where the text is not made of ASCII, a backslash can be written twice.
pub open spec fn needle_chars(search: Seq<char>, i: int) -> nat {
    if search[i] == '\\' && !is_ascii(search) {
        2
    } else {
        1
    }
}

/// Whether the character at `i` stands between two words of a search text: a
/// space without a backslash before it.
pub open spec fn parts_words(search: Seq<char>, i: int) -> bool {
    search[i] == ' ' && !(i > 0 && search[i - 1] == '\\')
}

/// How many characters the needle of a word can have, from the start of the word
/// up to the first `n` characters of a search text.
pub open spec fn word_needle(search: Seq<char>, n: int) -> nat
    decreases n,
{
    if n <= 0 || parts_words(search, n - 1) {
        0
    } else {
        word_needle(search, n - 1) + needle_chars(search, n - 1)
    }
}

/// How many characters the needles of the first `n` characters of a search text
/// can have together.
pub open spec fn all_needles(search: Seq<char>, n: int) -> nat
    decreases n,
{
    if n <= 0 {
        0
    } else {
        all_needles(search, n - 1) + needle_chars(search, n - 1)
    }
}

/// Whether each word of a search text is short enough for the matcher.
pub open spec fn words_fit(search: Seq<char>) -> bool {
    forall|n: int| 0 <= n <= search.len() ==> #[trigger] word_needle(search, n) <= LONGEST_NEEDLE
}

/// What a character is without its case.
pub uninterp spec fn folded(c: char) -> char;

/// What a character is without its accents.
pub uninterp spec fn normalized(c: char) -> char;

/// Whether a character is in lower case.
pub uninterp spec fn is_lower(c: char) -> bool;

/// `nucleo_matcher::chars::to_lower_case`: a function of the character. What
/// the folding of a character is, is not said here.
pub assume_specification[ nucleo_matcher::chars::to_lower_case ](c: char) -> (r: char)
    ensures
        r == folded(c),
;

/// `nucleo_matcher::chars::normalize`: a function of the character. Which
/// characters it changes is not said here.
pub assume_specification[ nucleo_matcher::chars::normalize ](c: char) -> (r: char)
    ensures
        r == normalized(c),
;

/// `char::is_lowercase`: a function of the character. Which characters are in
/// lower case is not said here.
pub assume_specification[ char::is_lowercase ](c: char) -> (r: bool)
    ensures
        r == is_lower(c),
;

/// Whether a search text has a character with an accent. The matcher then keeps
/// the accents of a label.
pub open spec fn has_accent(search: Seq<char>) -> bool {
    exists|i: int|
        0 <= i < search.len() && normalized(folded(#[trigger] search[i])) != folded(search[i])
}

/// Whether a label has a lower-case letter with a folding of its own, such as
/// the Greek final sigma, and a search text has a letter with the same folding.
/// Where the matcher keeps accents it does not fold such a letter, but takes it
/// for the start of a match.
pub open spec fn meets_folded(search: Seq<char>, label: Seq<char>) -> bool {
    exists|i: int, j: int|
        0 <= i < label.len() && 0 <= j < search.len() && is_lower(label[i]) && folded(label[i])
            != label[i] && folded(#[trigger] label[i]) == folded(#[trigger] search[j])
}

/// Whether the matcher can match a label with a search text. Either the words of
/// the text or the label must be short enough for the points of a match to be
/// added up; nothing longer than a label matches it.
#[verifier::opaque]
pub open spec fn can_match(search: Seq<char>, label: Seq<char>) -> bool {
    &&& words_fit(search) || offsets::byte_len(label) <= LONGEST_NEEDLE
    &&& all_needles(search, search.len() as int) <= LONGEST_NEEDLES
    &&& offsets::byte_len(label) <= u32::MAX
    &&& offsets::byte_len(label) * LONGEST_NEEDLE <= usize::MAX
    &&& !(has_accent(search) && meets_folded(search, label))
}

fn all_ascii(chars: &Vec<char>) -> (b: bool)
    ensures
        b == is_ascii(chars@),
{
    let mut i: usize = 0;
    while i < chars.len()
        invariant
            i <= chars.len(),
            forall|k: int| 0 <= k < i ==> (#[trigger] chars@[k]) as u32 <= 127,
        decreases chars.len() - i,
    {
        if chars[i] as u32 > 127 {
            assert(chars@[i as int] as u32 > 127);
            return false;
        }
        i += 1;
    }
    true
}

proof fn lemma_needles_grow(search: Seq<char>, m: int, n: int)
    requires
        0 <= m <= n,
    ensures
        all_needles(search, m) <= all_needles(search, n),
    decreases n,
{
    if m < n {
        lemma_needles_grow(search, m, n - 1);
    }
}

/// Whether each word fits; none where all of them together are too long.
fn count_needles(chars: &Vec<char>) -> (r: Option<bool>)
    ensures
        r == if all_needles(chars@, chars@.len() as int) <= LONGEST_NEEDLES {
            Some(words_fit(chars@))
        } else {
            None
        },
{
    let ascii = all_ascii(chars);
    let mut word: usize = 0;
    let mut all: usize = 0;
    let mut fit = true;
    let mut i: usize = 0;
    assert(word_needle(chars@, 0) == 0);
    while i < chars.len()
        invariant
            i <= chars.len(),
            ascii == is_ascii(chars@),
            word == word_needle(chars@, i as int),
            all == all_needles(chars@, i as int),
            word <= all <= LONGEST_NEEDLES,
            fit == (forall|n: int|
                0 <= n <= i ==> #[trigger] word_needle(chars@, n) <= LONGEST_NEEDLE),
        decreases chars.len() - i,
    {
        let c: char = chars[i];
        let size: usize = if c == '\\' && !ascii {
            2
        } else {
            1
        };
        if c == ' ' && !(i > 0 && chars[i - 1] == '\\') {
            word = 0;
        } else {
            word += size;
        }
        all += size;
        proof {
            lemma_needles_grow(chars@, i + 1, chars@.len() as int);
            assert(word == word_needle(chars@, i + 1));
            assert(all == all_needles(chars@, i + 1));
        }
        if all > LONGEST_NEEDLES {
            return None;
        }
        fit = fit && word <= LONGEST_NEEDLE;
        i += 1;
    }
    Some(fit)
}

fn finds_accent(search: &Vec<char>) -> (b: bool)
    ensures
        b == has_accent(search@),
{
    let mut i: usize = 0;
    while i < search.len()
        invariant
            i <= search.len(),
            forall|k: int|
                0 <= k < i ==> normalized(folded(#[trigger] search@[k])) == folded(search@[k]),
        decreases search.len() - i,
    {
        let f = nucleo_matcher::chars::to_lower_case(search[i]);
        if nucleo_matcher::chars::normalize(f) != f {
            assert(normalized(folded(search@[i as int])) != folded(search@[i as int]));
            return true;
        }
        i += 1;
    }
    false
}

fn finds_folded(search: &Vec<char>, f: char) -> (b: bool)
    ensures
        b == (exists|j: int| 0 <= j < search@.len() && folded(#[trigger] search@[j]) == f),
{
    let mut j: usize = 0;
    while j < search.len()
        invariant
            j <= search.len(),
            forall|k: int| 0 <= k < j ==> folded(#[trigger] search@[k]) != f,
        decreases search.len() - j,
    {
        if nucleo_matcher::chars::to_lower_case(search[j]) == f {
            assert(folded(search@[j as int]) == f);
            return true;
        }
        j += 1;
    }
    false
}

fn finds_meeting(search: &Vec<char>, label: &Vec<char>) -> (b: bool)
    ensures
        b == meets_folded(search@, label@),
{
    let mut i: usize = 0;
    while i < label.len()
        invariant
            i <= label.len(),
            forall|k: int, j: int|
                0 <= k < i && 0 <= j < search@.len() && is_lower(label@[k]) && folded(label@[k])
                    != label@[k] ==> folded(#[trigger] label@[k]) != folded(#[trigger] search@[j]),
        decreases label.len() - i,
    {
        let c: char = label[i];
        let f = nucleo_matcher::chars::to_lower_case(c);
        if c.is_lowercase() && f != c && finds_folded(search, f) {
            proof {
                let j = choose|j: int|
                    0 <= j < search@.len() && folded(#[trigger] search@[j]) == f;
                assert(folded(label@[i as int]) == folded(search@[j]));
            }
            return true;
        }
        i += 1;
    }
    false
}

fn fits_matcher(search: &str, label: &str) -> (b: bool)
    ensures
        b == can_match(search@, label@),
{
    proof {
        reveal(can_match);
    }
    let size: usize = offsets::byte_length(label);
    if size > u32::MAX as usize || size.checked_mul(LONGEST_NEEDLE).is_none() {
        return false;
    }
    let chars = text::to_chars(search);
    let fit = match count_needles(&chars) {
        Some(fit) => fit,
        None => {
            return false;
        },
    };
    if !fit && size > LONGEST_NEEDLE {
        return false;
    }
    !(finds_accent(&chars) && finds_meeting(&chars, &text::to_chars(label)))
}

/// What `nucleo_matcher::pattern::Pattern::indices` gives for a label under
/// the pattern that a search text parses to, with case ignored and smart
/// normalization: the score, and the places in the label that match.
pub uninterp spec fn fuzzy(search: Seq<char>, label: Seq<char>) -> Option<(u32, Seq<u32>)>;

/// `nucleo_matcher::pattern::Pattern::indices` with
/// `nucleo_matcher::pattern::Pattern::parse`: the score of a label and the
/// places in it that match, as a function of the search text and the label.
/// What matches and how well is not said here.
///
/// Each word of the search text becomes a needle. The matcher gives at most 36
/// points for the first character of a needle and 26 for each other one, and
/// adds them up in 16 bits; over the needles it adds up in 32 bits. It takes
/// labels of at most `u32::MAX` bytes, and counts its cells in a `usize`. Where
/// it keeps accents, its check that a match starts where the first letter was
/// found fails for letters that it finds but does not fold.
#[verifier::external_body]
fn fuzzy_indices(search: &str, label: &str) -> (r: Option<(u32, Vec<u32>)>)
    requires
        can_match(search@, label@),
    ensures
        match r {
            Some((score, places)) => fuzzy(search@, label@) == Some((score, places@)),
            None => fuzzy(search@, label@) is None,
        },
{
    let mut matcher = Matcher::new(Config::DEFAULT);
    let pattern = Pattern::parse(search, CaseMatching::Ignore, Normalization::Smart);
    let mut chars: Vec<char> = Vec::new();
    let mut places: Vec<u32> = Vec::new();
    let haystack = Utf32Str::new(label, &mut chars);
    let score = pattern.indices(haystack, &mut matcher, &mut places);
    score.map(|s| (s, places))
}

/// How well a label matches a search text, and where. Nothing matches where the
/// matcher cannot match the two.
pub open spec fn label_match(search: Seq<char>, label: Seq<char>) -> Option<(u32, Seq<u32>)> {
    if can_match(search, label) {
        fuzzy(search, label)
    } else {
        None
    }
}

/// How well a label matches a search text, and the places that match, in the
/// order in which the matcher gives them.
pub fn match_label(search: &str, label: &str) -> (r: Option<(u32, Vec<u32>)>)
    ensures
        label_match(search@, label@) == match r {
            Some((score, places)) => Some((score, places@)),
            None => None,
        },
{
    if fits_matcher(search, label) {
        fuzzy_indices(search, label)
    } else {
        None
    }
}

} // verus!
