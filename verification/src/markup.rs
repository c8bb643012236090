//! The tags in an element's text.
//!
//! A tag such as `<input>` controls how an element is drawn and what it does.
//! A tag right behind a backslash is plain text.

use vstd::prelude::*;

use crate::text;

verus! {

/// Whether `needle` stands in `s` at `i`.
pub open spec fn occurs(s: Seq<char>, needle: Seq<char>, i: int) -> bool {
    0 <= i && i + needle.len() <= s.len() && s.subrange(i, i + needle.len()) == needle
}

/// Whether `needle` stands in `s` at `i` with no backslash in front of it.
pub open spec fn occurs_unescaped(s: Seq<char>, needle: Seq<char>, i: int) -> bool {
    occurs(s, needle, i) && !(i > 0 && s[i - 1] == '\\')
}

/// Whether `s` starts with `p`.
pub open spec fn starts_with(s: Seq<char>, p: Seq<char>) -> bool {
    occurs(s, p, 0)
}

/// Whether `s` ends with `p`.
pub open spec fn ends_with(s: Seq<char>, p: Seq<char>) -> bool {
    occurs(s, p, s.len() - p.len())
}

/// Whether `needle` stands anywhere in `s`.
pub open spec fn contains(s: Seq<char>, needle: Seq<char>) -> bool {
    exists|i: int| occurs(s, needle, i)
}

/// Whether the tag `tag` stands in `s`.
pub open spec fn has_tag(s: Seq<char>, tag: Seq<char>) -> bool {
    exists|i: int| occurs_unescaped(s, tag, i)
}

/// The first place at or behind `from` where `needle` stands.
pub open spec fn find_from(s: Seq<char>, needle: Seq<char>, from: int) -> Option<int>
    decreases s.len() - from + 1,
{
    if from + needle.len() > s.len() {
        None
    } else if occurs(s, needle, from) {
        Some(from)
    } else {
        find_from(s, needle, from + 1)
    }
}

/// The first place at or behind `from` where the tag `tag` stands.
pub open spec fn find_tag_from(s: Seq<char>, tag: Seq<char>, from: int) -> Option<int>
    decreases s.len() - from + 1,
{
    if from + tag.len() > s.len() {
        None
    } else if occurs_unescaped(s, tag, from) {
        Some(from)
    } else {
        find_tag_from(s, tag, from + 1)
    }
}

/// What stands between the tag `open` and the first `close` behind it.
pub open spec fn between(s: Seq<char>, open: Seq<char>, close: Seq<char>) -> Option<Seq<char>> {
    match find_tag_from(s, open, 0) {
        Some(i) => match find_from(s, close, i + open.len()) {
            Some(j) => Some(s.subrange(i + open.len(), j)),
            None => None,
        },
        None => None,
    }
}

/// What stands behind the tag `open`, up to the first `close` or to the end.
pub open spec fn behind(s: Seq<char>, open: Seq<char>, close: Seq<char>) -> Option<Seq<char>> {
    match find_tag_from(s, open, 0) {
        Some(i) => match find_from(s, close, i + open.len()) {
            Some(j) => Some(s.subrange(i + open.len(), j)),
            None => Some(s.skip(i + open.len())),
        },
        None => None,
    }
}

/// Whether a text can be edited.
pub open spec fn is_input(s: Seq<char>) -> bool {
    has_tag(s, "<input>"@) && has_tag(s, "</input>"@)
}

/// The part of a text that can be edited.
pub open spec fn input_text(s: Seq<char>) -> Option<Seq<char>> {
    between(s, "<input>"@, "</input>"@)
}

/// Whether a text names a group of radio buttons.
pub open spec fn is_radio(s: Seq<char>) -> bool {
    has_tag(s, "<radio>"@)
}

/// The name of a group of radio buttons.
pub open spec fn radio_text(s: Seq<char>) -> Option<Seq<char>> {
    behind(s, "<radio>"@, "</radio>"@)
}

/// Whether a text is the chosen radio button.
pub open spec fn is_checked(s: Seq<char>) -> bool {
    has_tag(s, "<checked>"@)
}

/// The text of the chosen radio button.
pub open spec fn checked_text(s: Seq<char>) -> Option<Seq<char>> {
    behind(s, "<checked>"@, "</checked>"@)
}

/// Whether a text is a box that is not checked.
pub open spec fn is_checkbox(s: Seq<char>) -> bool {
    has_tag(s, "<checkbox>"@) && !has_tag(s, "<checkbox checked>"@)
}

/// Whether a text is a box that is checked.
pub open spec fn is_checkbox_checked(s: Seq<char>) -> bool {
    has_tag(s, "<checkbox checked>"@)
}

/// The text of a box that is not checked.
pub open spec fn checkbox_text(s: Seq<char>) -> Option<Seq<char>> {
    behind(s, "<checkbox>"@, "</checkbox>"@)
}

/// The text of a box that is checked.
pub open spec fn checkbox_checked_text(s: Seq<char>) -> Option<Seq<char>> {
    behind(s, "<checkbox checked>"@, "</checkbox>"@)
}

/// Whether a text is a link.
pub open spec fn is_link(s: Seq<char>) -> bool {
    has_tag(s, "<link>"@) && has_tag(s, "</link>"@)
}

/// Where a link leads.
pub open spec fn link_text(s: Seq<char>) -> Option<Seq<char>> {
    between(s, "<link>"@, "</link>"@)
}

/// Whether a text shows an image.
pub open spec fn is_image(s: Seq<char>) -> bool {
    has_tag(s, "<image>"@) && has_tag(s, "</image>"@)
}

/// The image that a text shows.
pub open spec fn image_text(s: Seq<char>) -> Option<Seq<char>> {
    between(s, "<image>"@, "</image>"@)
}

/// Whether a text is a button.
pub open spec fn is_button(s: Seq<char>) -> bool {
    has_tag(s, "<button>"@) && has_tag(s, "</button>"@)
}

/// The function that a button calls.
pub open spec fn button_text(s: Seq<char>) -> Option<Seq<char>> {
    between(s, "<button>"@, "</button>"@)
}

/// Whether a text is a line of a file.
pub open spec fn is_source_line(s: Seq<char>) -> bool {
    contains(s, "<src="@) || contains(s, "<srcins="@)
}

/// `sicompass_sdk::tags::has_input`: both the opening and the closing
/// tag stand in the text.
pub assume_specification[ sicompass_sdk::tags::has_input ](tagged: &str) -> (r: bool)
    ensures
        r == is_input(tagged@),
;

/// `sicompass_sdk::tags::extract_input`: what stands between the tags.
pub assume_specification[ sicompass_sdk::tags::extract_input ](tagged: &str) -> (r: Option<String>)
    ensures
        text::opt_text(r) == input_text(tagged@),
;

/// `sicompass_sdk::tags::format_input`: the text between the tags.
pub assume_specification[ sicompass_sdk::tags::format_input ](tagged: &str) -> (r: String)
    ensures
        r@ == "<input>"@ + tagged@ + "</input>"@,
;

/// `sicompass_sdk::tags::has_radio`: the opening tag stands in the text.
pub assume_specification[ sicompass_sdk::tags::has_radio ](tagged: &str) -> (r: bool)
    ensures
        r == is_radio(tagged@),
;

/// `sicompass_sdk::tags::extract_radio`: what stands behind the opening
/// tag, up to the closing tag where there is one.
pub assume_specification[ sicompass_sdk::tags::extract_radio ](tagged: &str) -> (r: Option<String>)
    ensures
        text::opt_text(r) == radio_text(tagged@),
;

/// `sicompass_sdk::tags::has_checked`: the opening tag stands in the text.
pub assume_specification[ sicompass_sdk::tags::has_checked ](tagged: &str) -> (r: bool)
    ensures
        r == is_checked(tagged@),
;

/// `sicompass_sdk::tags::extract_checked`: what stands behind the opening
/// tag, up to the closing tag where there is one.
pub assume_specification[ sicompass_sdk::tags::extract_checked ](tagged: &str) -> (r: Option<String>)
    ensures
        text::opt_text(r) == checked_text(tagged@),
;

/// `sicompass_sdk::tags::format_checked`: the opening tag, then the text.
pub assume_specification[ sicompass_sdk::tags::format_checked ](tagged: &str) -> (r: String)
    ensures
        r@ == "<checked>"@ + tagged@,
;

/// `sicompass_sdk::tags::has_checkbox`: the opening tag of an unchecked box
/// stands in the text, and that of a checked box does not.
pub assume_specification[ sicompass_sdk::tags::has_checkbox ](tagged: &str) -> (r: bool)
    ensures
        r == is_checkbox(tagged@),
;

/// `sicompass_sdk::tags::has_checkbox_checked`: the opening tag of a
/// checked box stands in the text.
pub assume_specification[ sicompass_sdk::tags::has_checkbox_checked ](tagged: &str) -> (r: bool)
    ensures
        r == is_checkbox_checked(tagged@),
;

/// `sicompass_sdk::tags::extract_checkbox`: what stands behind the opening
/// tag, up to the closing tag where there is one.
pub assume_specification[ sicompass_sdk::tags::extract_checkbox ](tagged: &str) -> (r: Option<String>)
    ensures
        text::opt_text(r) == checkbox_text(tagged@),
;

/// `sicompass_sdk::tags::extract_checkbox_checked`: what stands behind the
/// opening tag, up to the closing tag where there is one.
pub assume_specification[ sicompass_sdk::tags::extract_checkbox_checked ](tagged: &str) -> (r: Option<String>)
    ensures
        text::opt_text(r) == checkbox_checked_text(tagged@),
;

/// `sicompass_sdk::tags::format_checkbox`: the opening tag, then the text.
pub assume_specification[ sicompass_sdk::tags::format_checkbox ](tagged: &str) -> (r: String)
    ensures
        r@ == "<checkbox>"@ + tagged@,
;

/// `sicompass_sdk::tags::format_checkbox_checked`: the opening tag, then the
/// text.
pub assume_specification[ sicompass_sdk::tags::format_checkbox_checked ](tagged: &str) -> (r: String)
    ensures
        r@ == "<checkbox checked>"@ + tagged@,
;

/// `sicompass_sdk::tags::has_link`: both the opening and the closing
/// tag stand in the text.
pub assume_specification[ sicompass_sdk::tags::has_link ](tagged: &str) -> (r: bool)
    ensures
        r == is_link(tagged@),
;

/// `sicompass_sdk::tags::extract_link`: what stands between the tags.
pub assume_specification[ sicompass_sdk::tags::extract_link ](tagged: &str) -> (r: Option<String>)
    ensures
        text::opt_text(r) == link_text(tagged@),
;

/// `sicompass_sdk::tags::has_image`: both the opening and the closing
/// tag stand in the text.
pub assume_specification[ sicompass_sdk::tags::has_image ](tagged: &str) -> (r: bool)
    ensures
        r == is_image(tagged@),
;

/// `sicompass_sdk::tags::extract_image`: what stands between the tags.
pub assume_specification[ sicompass_sdk::tags::extract_image ](tagged: &str) -> (r: Option<String>)
    ensures
        text::opt_text(r) == image_text(tagged@),
;

/// `sicompass_sdk::tags::has_src`: one of the two markers of a source
/// line stands in the text, escaped or not.
pub assume_specification[ sicompass_sdk::tags::has_src ](tagged: &str) -> (r: bool)
    ensures
        r == is_source_line(tagged@),
;

/// `sicompass_sdk::tags::has_dir`: the marker stands in the text,
/// escaped or not.
pub assume_specification[ sicompass_sdk::tags::has_dir ](tagged: &str) -> (r: bool)
    ensures
        r == contains(tagged@, "<dir>"@),
;

/// `sicompass_sdk::tags::has_file`: the marker stands in the text,
/// escaped or not.
pub assume_specification[ sicompass_sdk::tags::has_file ](tagged: &str) -> (r: bool)
    ensures
        r == contains(tagged@, "<file>"@),
;

/// `sicompass_sdk::tags::has_many_opt`: the text starts with the marker.
pub assume_specification[ sicompass_sdk::tags::has_many_opt ](tagged: &str) -> (r: bool)
    ensures
        r == starts_with(tagged@, "<many-opt></many-opt>"@),
;

/// `sicompass_sdk::tags::has_one_opt`: the text starts with the marker.
pub assume_specification[ sicompass_sdk::tags::has_one_opt ](tagged: &str) -> (r: bool)
    ensures
        r == starts_with(tagged@, "<one-opt></one-opt>"@),
;

/// `sicompass_sdk::tags::strip_many_opt`: the text without the marker at
/// its start.
pub assume_specification[ sicompass_sdk::tags::strip_many_opt ](tagged: &str) -> (r: &str)
    ensures
        r@ == without_prefix(tagged@, "<many-opt></many-opt>"@),
;

/// `sicompass_sdk::tags::strip_one_opt`: the text without the marker at its
/// start.
pub assume_specification[ sicompass_sdk::tags::strip_one_opt ](tagged: &str) -> (r: &str)
    ensures
        r@ == without_prefix(tagged@, "<one-opt></one-opt>"@),
;

/// `sicompass_sdk::tags::has_button`: both the opening and the closing
/// tag stand in the text.
pub assume_specification[ sicompass_sdk::tags::has_button ](tagged: &str) -> (r: bool)
    ensures
        r == is_button(tagged@),
;

/// `sicompass_sdk::tags::extract_button_function_name`: what stands between
/// the tags.
pub assume_specification[ sicompass_sdk::tags::extract_button_function_name ](tagged: &str) -> (r: Option<String>)
    ensures
        text::opt_text(r) == button_text(tagged@),
;

/// The text that `sicompass_sdk::tags::strip_display` leaves.
pub uninterp spec fn display_text(tagged: Seq<char>) -> Seq<char>;

/// `sicompass_sdk::tags::strip_display` takes every tag out of a text. The
/// result is a function of the text; what stays of which tag is not said
/// here.
pub assume_specification[ sicompass_sdk::tags::strip_display ](tagged: &str) -> (r: String)
    ensures
        r@ == display_text(tagged@),
;

/// `sicompass_sdk::placeholders::is_ci_placeholder`: the text is the place to
/// insert a line of a file.
pub assume_specification[ sicompass_sdk::placeholders::is_ci_placeholder ](s: &str) -> (r: bool)
    ensures
        r == (s@ == "ci <input></input>"@),
;

/// The place to insert an element, from
/// `sicompass_sdk::placeholders::I_PLACEHOLDER`.
#[verifier::external_body]
pub(crate) fn i_placeholder() -> (r: String)
    ensures
        r@ == "i <input></input>"@,
{
    sicompass_sdk::placeholders::I_PLACEHOLDER.to_owned()
}

/// `s` without `p` at its start.
pub open spec fn without_prefix(s: Seq<char>, p: Seq<char>) -> Seq<char> {
    if starts_with(s, p) {
        s.skip(p.len() as int)
    } else {
        s
    }
}

/// The first place where a found needle stands is behind the start, and
/// nothing stands before it.
pub proof fn lemma_find_from(s: Seq<char>, needle: Seq<char>, from: int)
    requires
        0 <= from,
    ensures
        match find_from(s, needle, from) {
            Some(i) => {
                &&& from <= i
                &&& occurs(s, needle, i)
                &&& forall|k: int| from <= k < i ==> !occurs(s, needle, k)
            },
            None => forall|k: int| from <= k ==> !occurs(s, needle, k),
        },
    decreases s.len() - from + 1,
{
    if from + needle.len() <= s.len() && !occurs(s, needle, from) {
        lemma_find_from(s, needle, from + 1);
    }
}

/// The first place where a tag stands is one where it stands, and there is
/// one exactly where the text has the tag.
pub proof fn lemma_find_tag_from(s: Seq<char>, tag: Seq<char>, from: int)
    requires
        0 <= from,
    ensures
        match find_tag_from(s, tag, from) {
            Some(i) => {
                &&& from <= i
                &&& occurs_unescaped(s, tag, i)
                &&& forall|k: int| from <= k < i ==> !occurs_unescaped(s, tag, k)
            },
            None => forall|k: int| from <= k ==> !occurs_unescaped(s, tag, k),
        },
        from == 0 ==> (find_tag_from(s, tag, 0) is Some <==> has_tag(s, tag)),
    decreases s.len() - from + 1,
{
    if from + tag.len() <= s.len() && !occurs_unescaped(s, tag, from) {
        lemma_find_tag_from(s, tag, from + 1);
    }
}

/// Whether `needle` stands in `s` at `i`.
pub fn occurs_at(s: &Vec<char>, needle: &Vec<char>, i: usize) -> (r: bool)
    ensures
        r == occurs(s@, needle@, i as int),
{
    if needle.len() > s.len() || i > s.len() - needle.len() {
        return false;
    }
    let mut k: usize = 0;
    while k < needle.len()
        invariant
            k <= needle.len(),
            i + needle.len() <= s.len(),
            forall|m: int| 0 <= m < k ==> s@[i + m] == needle@[m],
        decreases needle.len() - k,
    {
        if s[i + k] != needle[k] {
            assert(s@.subrange(i as int, i + needle@.len())[k as int] != needle@[k as int]);
            return false;
        }
        k += 1;
    }
    assert(s@.subrange(i as int, i + needle@.len()) =~= needle@);
    true
}

/// The first place at or behind `from` where `needle` stands.
pub fn find(s: &Vec<char>, needle: &Vec<char>, from: usize) -> (r: Option<usize>)
    ensures
        match r {
            Some(i) => find_from(s@, needle@, from as int) == Some(i as int),
            None => find_from(s@, needle@, from as int) is None,
        },
{
    let mut i: usize = from;
    loop
        invariant
            from <= i,
            find_from(s@, needle@, from as int) == find_from(s@, needle@, i as int),
        decreases s.len() + 1 - i,
    {
        if needle.len() > s.len() || i > s.len() - needle.len() {
            return None;
        }
        if occurs_at(s, needle, i) {
            return Some(i);
        }
        assert(needle@.len() == 0 ==> s@.subrange(i as int, i as int) =~= needle@);
        i += 1;
    }
}

/// The first place where the tag `tag` stands.
pub fn find_tag(s: &Vec<char>, tag: &Vec<char>) -> (r: Option<usize>)
    requires
        tag.len() > 0,
    ensures
        match r {
            Some(i) => find_tag_from(s@, tag@, 0) == Some(i as int),
            None => find_tag_from(s@, tag@, 0) is None,
        },
{
    let mut i: usize = 0;
    loop
        invariant
            tag.len() > 0,
            find_tag_from(s@, tag@, 0) == find_tag_from(s@, tag@, i as int),
        decreases s.len() + 1 - i,
    {
        if tag.len() > s.len() || i > s.len() - tag.len() {
            return None;
        }
        if occurs_at(s, tag, i) && !(i > 0 && s[i - 1] == '\\') {
            return Some(i);
        }
        i += 1;
    }
}

/// Whether `s` has the tags around an editable text that spans the element.
pub open spec fn is_input_all(s: Seq<char>) -> bool {
    has_tag(s, "<input-all>"@) && has_tag(s, "</input-all>"@)
}

/// Both tags of an editable text that spans the element stand in `s`.
pub fn has_input_all(s: &str) -> (r: bool)
    ensures
        r == is_input_all(s@),
{
    let chars = text::to_chars(s);
    let open = text::to_chars("<input-all>");
    let close = text::to_chars("</input-all>");
    proof {
        reveal_strlit("<input-all>");
        reveal_strlit("</input-all>");
        lemma_find_tag_from(s@, open@, 0);
        lemma_find_tag_from(s@, close@, 0);
    }
    find_tag(&chars, &open).is_some() && find_tag(&chars, &close).is_some()
}

/// What stands between the tags of an editable text that spans the element.
pub fn extract_input_all(s: &str) -> (r: Option<String>)
    ensures
        text::opt_text(r) == between(s@, "<input-all>"@, "</input-all>"@),
{
    let chars = text::to_chars(s);
    let open = text::to_chars("<input-all>");
    let close = text::to_chars("</input-all>");
    proof {
        reveal_strlit("<input-all>");
        lemma_find_tag_from(s@, open@, 0);
    }
    match find_tag(&chars, &open) {
        Some(i) => {
            assert(i + open.len() <= chars.len());
            let start: usize = i + open.len();
            proof {
                lemma_find_from(s@, close@, start as int);
            }
            match find(&chars, &close, start) {
                Some(j) => Some(text::substring(s, start, j)),
                None => None,
            }
        },
        None => None,
    }
}

} // verus!
