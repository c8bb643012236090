//! What a screen reader says.

use vstd::prelude::*;

use crate::app_state::{AppRenderer, Ui};
use crate::text;

verus! {

/// The words for the prefix of a label.
pub open spec fn prefix_word(prefix: Seq<char>) -> Option<Seq<char>> {
    if prefix == "-"@ {
        Some("minus"@)
    } else if prefix == "-p"@ {
        Some("minus p"@)
    } else if prefix == "-cc"@ {
        Some("minus cc"@)
    } else if prefix == "-c"@ {
        Some("minus c"@)
    } else if prefix == "-rc"@ {
        Some("minus rc"@)
    } else if prefix == "-b"@ {
        Some("minus b"@)
    } else if prefix == "-i"@ {
        Some("minus i"@)
    } else if prefix == "-r"@ {
        Some("minus r"@)
    } else if prefix == "+"@ {
        Some("plus"@)
    } else if prefix == "+cc"@ {
        Some("plus cc"@)
    } else if prefix == "+c"@ {
        Some("plus c"@)
    } else if prefix == "+l"@ {
        Some("plus l"@)
    } else if prefix == "+R"@ {
        Some("plus R"@)
    } else if prefix == "+i"@ {
        Some("plus i"@)
    } else if prefix == ">"@ {
        Some("current"@)
    } else if prefix == "\u{00B7}"@ {
        Some("undone"@)
    } else {
        None
    }
}

/// The words for the prefix of a label.
pub fn list_prefix_to_word(prefix: &str) -> (r: Option<&'static str>)
    ensures
        match r {
            Some(w) => prefix_word(prefix@) == Some(w@),
            None => prefix_word(prefix@) is None,
        },
{
    if text::same(prefix, "-") {
        Some("minus")
    } else if text::same(prefix, "-p") {
        Some("minus p")
    } else if text::same(prefix, "-cc") {
        Some("minus cc")
    } else if text::same(prefix, "-c") {
        Some("minus c")
    } else if text::same(prefix, "-rc") {
        Some("minus rc")
    } else if text::same(prefix, "-b") {
        Some("minus b")
    } else if text::same(prefix, "-i") {
        Some("minus i")
    } else if text::same(prefix, "-r") {
        Some("minus r")
    } else if text::same(prefix, "+") {
        Some("plus")
    } else if text::same(prefix, "+cc") {
        Some("plus cc")
    } else if text::same(prefix, "+c") {
        Some("plus c")
    } else if text::same(prefix, "+l") {
        Some("plus l")
    } else if text::same(prefix, "+R") {
        Some("plus R")
    } else if text::same(prefix, "+i") {
        Some("plus i")
    } else if text::same(prefix, ">") {
        Some("current")
    } else if text::same(prefix, "\u{00B7}") {
        Some("undone")
    } else {
        None
    }
}

/// What is said for a label: its prefix in words, and so the mark of a step
/// behind it; a prefix without words is left out.
pub open spec fn speech(label: Seq<char>) -> Seq<char> {
    match text::split_at_first(label, ' ') {
        None => label,
        Some((prefix, content)) => match prefix_word(prefix) {
            None => content,
            Some(word) => match text::split_at_first(content, ' ') {
                Some((marker, rest)) if prefix_word(marker) is Some => word + " "@ + prefix_word(
                    marker,
                )->0 + " "@ + rest,
                _ => word + " "@ + content,
            },
        },
    }
}

/// What is said for a label.
pub fn label_to_speech(label: &str) -> (r: String)
    ensures
        r@ == speech(label@),
{
    let (prefix, content) = match text::split_once(label, ' ') {
        Some(parts) => parts,
        None => {
            return label.to_owned();
        },
    };
    match list_prefix_to_word(prefix.as_str()) {
        Some(word) => {
            if let Some((marker, rest)) = text::split_once(content.as_str(), ' ') {
                if let Some(marker_word) = list_prefix_to_word(marker.as_str()) {
                    let head = text::concat3(word, " ", marker_word);
                    return text::concat3(head.as_str(), " ", rest.as_str());
                }
            }
            text::concat3(word, " ", content.as_str())
        },
        None => content,
    }
}

/// A label without its prefixes.
pub open spec fn bare_content(label: Seq<char>) -> Seq<char>
    decreases label.len(),
{
    match text::split_at_first(label, ' ') {
        Some((prefix, content)) => if prefix_word(prefix) is Some {
            proof {
                text::lemma_split_at_first(label, ' ');
            }
            bare_content(content)
        } else {
            label
        },
        None => label,
    }
}

/// A label without its prefixes.
pub fn speech_content(label: &str) -> (r: String)
    ensures
        r@ == bare_content(label@),
{
    let mut s = label.to_owned();
    loop
        invariant
            bare_content(label@) == bare_content(s@),
        ensures
            s@ == bare_content(label@),
        decreases s@.len(),
    {
        match text::split_once(s.as_str(), ' ') {
            Some((prefix, content)) => {
                if list_prefix_to_word(prefix.as_str()).is_none() {
                    break;
                }
                proof {
                    text::lemma_split_at_first(s@, ' ');
                }
                s = content;
            },
            None => {
                break;
            },
        }
    }
    s
}

/// What `whatlang::detect` finds in a text: the code of the language, and how
/// sure it is, as the bits of a number between 0 and 1.
pub uninterp spec fn detected(content: Seq<char>) -> Option<(Seq<char>, u64)>;

/// How many characters the first `n` characters of a text have in lower case.
/// Only the capital I with a dot becomes two.
pub open spec fn lowered_len(s: Seq<char>, n: int) -> nat
    decreases n,
{
    if n <= 0 {
        0
    } else if s[n - 1] == '\u{130}' {
        lowered_len(s, n - 1) + 2
    } else {
        lowered_len(s, n - 1) + 1
    }
}

/// Whether the detection can count what it finds in a text.
#[verifier::opaque]
pub open spec fn can_detect(content: Seq<char>) -> bool {
    lowered_len(content, content.len() as int) <= u32::MAX
}

/// `whatlang::detect`: the language of a text and the confidence in it, as a
/// function of the text. Which language is found is not said here. The
/// detection counts triples of characters of the text in lower case, in 32
/// bits, and texts with more characters than that are left out.
#[verifier::external_body]
fn whatlang_detect(content: &str) -> (r: Option<(String, u64)>)
    requires
        can_detect(content@),
    ensures
        match r {
            Some((code, confidence)) => detected(content@) == Some((code@, confidence)),
            None => detected(content@) is None,
        },
{
    whatlang::detect(content).map(|i| (i.lang().code().to_owned(), i.confidence().to_bits()))
}

/// The bits of one half. The bits of numbers that are not negative are in the
/// order of the numbers.
pub const HALF_BITS: u64 = 0x3FE0_0000_0000_0000;

/// The tag that a screen reader knows a language by.
pub open spec fn language_tag(code: Seq<char>) -> Option<Seq<char>> {
    if code == "eng"@ {
        Some("en"@)
    } else if code == "nld"@ {
        Some("nl"@)
    } else if code == "fra"@ {
        Some("fr"@)
    } else if code == "deu"@ {
        Some("de"@)
    } else if code == "spa"@ {
        Some("es"@)
    } else if code == "ita"@ {
        Some("it"@)
    } else if code == "por"@ {
        Some("pt"@)
    } else {
        None
    }
}

/// The language that is taken for what was detected: one with a tag, that the
/// detection was at least half sure of.
pub open spec fn accepted_language(found: Option<(Seq<char>, u64)>) -> Option<Seq<char>> {
    match found {
        Some((code, confidence)) => if confidence >= HALF_BITS {
            language_tag(code)
        } else {
            None
        },
        None => None,
    }
}

/// The text that a language is looked for in.
pub open spec fn language_sample(content: Seq<char>) -> Seq<char> {
    text::trimmed(text::without_trailing(content, '\u{200B}'))
}

/// Whether there is enough text to look for its language.
pub open spec fn enough_text(sample: Seq<char>) -> bool {
    sample.len() >= 12 && text::word_count(sample) >= 3
}

/// The language of a text, where there is enough of it to tell and not more than
/// the detection can count.
pub open spec fn language_of(content: Seq<char>) -> Option<Seq<char>> {
    let sample = language_sample(content);
    if enough_text(sample) && can_detect(sample) {
        accepted_language(detected(sample))
    } else {
        None
    }
}

/// The tag of the language that is taken for what was detected.
pub fn accept_language(found: &Option<(String, u64)>) -> (r: Option<String>)
    ensures
        text::opt_text(r) == accepted_language(
            match found {
                Some((code, confidence)) => Some((code@, *confidence)),
                None => None,
            },
        ),
{
    match found {
        Some((code, confidence)) => {
            if *confidence < HALF_BITS {
                return None;
            }
            let c = code.as_str();
            if text::same(c, "eng") {
                Some("en".to_owned())
            } else if text::same(c, "nld") {
                Some("nl".to_owned())
            } else if text::same(c, "fra") {
                Some("fr".to_owned())
            } else if text::same(c, "deu") {
                Some("de".to_owned())
            } else if text::same(c, "spa") {
                Some("es".to_owned())
            } else if text::same(c, "ita") {
                Some("it".to_owned())
            } else if text::same(c, "por") {
                Some("pt".to_owned())
            } else {
                None
            }
        },
        None => None,
    }
}

proof fn lemma_lowered_len(s: Seq<char>, m: int, n: int)
    requires
        0 <= m <= n,
    ensures
        lowered_len(s, m) <= lowered_len(s, n),
    decreases n,
{
    if m < n {
        lemma_lowered_len(s, m, n - 1);
    }
}

fn fits_detection(content: &str) -> (b: bool)
    ensures
        b == can_detect(content@),
{
    proof {
        reveal(can_detect);
    }
    let chars = text::to_chars(content);
    let mut count: u32 = 0;
    let mut i: usize = 0;
    while i < chars.len()
        invariant
            chars@ == content@,
            i <= chars.len(),
            count == lowered_len(chars@, i as int),
        decreases chars.len() - i,
    {
        let size: u32 = if chars[i] == '\u{130}' {
            2
        } else {
            1
        };
        proof {
            lemma_lowered_len(chars@, i + 1, chars@.len() as int);
            assert(lowered_len(chars@, i + 1) == count + size);
        }
        match count.checked_add(size) {
            Some(n) => {
                count = n;
            },
            None => {
                proof {
                    reveal(can_detect);
                }
                return false;
            },
        }
        i += 1;
    }
    true
}

/// The tag of the language of a text; none where the text is too short to tell
/// or too long for the detection, where the detection is not sure, or for a
/// language without a tag.
pub fn detect_language(content: &str) -> (r: Option<String>)
    ensures
        text::opt_text(r) == language_of(content@),
{
    let sample = text::trim(text::trim_end_matches(content, '\u{200B}').as_str());
    if sample.as_str().unicode_len() < 12 || text::count_words(sample.as_str()) < 3 {
        return None;
    }
    if !fits_detection(sample.as_str()) {
        return None;
    }
    accept_language(&whatlang_detect(sample.as_str()))
}

/// The label of the selected item; none where the list is empty.
pub open spec fn focused_label(u: Ui) -> Option<Seq<char>> {
    if u.total_list.len() == 0 {
        None
    } else {
        let raw = if u.filtered_list_indices.len() == 0 {
            u.list_index as int
        } else if u.list_index < u.filtered_list_indices.len() {
            u.filtered_list_indices[u.list_index as int] as int
        } else {
            0
        };
        let at = if raw < u.total_list.len() {
            raw
        } else {
            u.total_list.len() - 1
        };
        Some(u.total_list[at].label)
    }
}

/// What is said for the selected item, and its text.
pub open spec fn focused(u: Ui) -> (Seq<char>, Seq<char>) {
    match focused_label(u) {
        Some(label) => (speech(label), bare_content(label)),
        None => (Seq::empty(), Seq::empty()),
    }
}

/// What is said for the selected item, and its text.
pub fn current_element(renderer: &AppRenderer) -> (r: (String, String))
    ensures
        (r.0@, r.1@) == focused(renderer@),
{
    let n: usize = renderer.total_list.len();
    if n == 0 {
        return (String::new(), String::new());
    }
    let raw: usize = if renderer.filtered_list_indices.len() == 0 {
        renderer.list_index
    } else if renderer.list_index < renderer.filtered_list_indices.len() {
        renderer.filtered_list_indices[renderer.list_index]
    } else {
        0
    };
    let at: usize = if raw < n {
        raw
    } else {
        n - 1
    };
    let label = renderer.total_list[at].label.as_str();
    (label_to_speech(label), speech_content(label))
}

/// The role of a node of the accessibility tree.
#[derive(Debug, Clone, Copy, PartialEq, Eq, Structural)]
pub enum Role {
    Window,
    ListItem,
}

/// The id of the window.
pub const ROOT_ID: u64 = 0;

/// The id of the one item, which always is the selected one.
pub const ELEMENT_ID: u64 = 1;

/// The id of the announcement.
pub const ANNOUNCEMENT_ID: u64 = u64::MAX;

/// A node of the accessibility tree.
pub struct AccessNode {
    pub id: u64,
    pub role: Role,
    pub label: Option<String>,
    pub value: Option<String>,
    pub language: String,
    /// Whether a change is announced.
    pub live: bool,
    pub children: Vec<u64>,
}

/// What a node of the accessibility tree is.
#[verifier::ext_equal]
pub struct AccessView {
    pub id: u64,
    pub role: Role,
    pub label: Option<Seq<char>>,
    pub value: Option<Seq<char>>,
    pub language: Seq<char>,
    pub live: bool,
    pub children: Seq<u64>,
}

impl View for AccessNode {
    type V = AccessView;

    open spec fn view(&self) -> AccessView {
        AccessView {
            id: self.id,
            role: self.role,
            label: text::opt_text(self.label),
            value: text::opt_text(self.value),
            language: self.language@,
            live: self.live,
            children: self.children@,
        }
    }
}

/// What is handed to the screen reader.
pub struct AccessTree {
    pub nodes: Vec<AccessNode>,
    pub focus: u64,
}

/// What is handed to the screen reader, as values.
#[verifier::ext_equal]
pub struct TreeView {
    pub nodes: Seq<AccessView>,
    pub focus: u64,
}

/// What a sequence of nodes is.
pub open spec fn access_nodes(s: Seq<AccessNode>) -> Seq<AccessView> {
    Seq::new(s.len(), |i: int| s[i]@)
}

impl View for AccessTree {
    type V = TreeView;

    open spec fn view(&self) -> TreeView {
        TreeView { nodes: access_nodes(self.nodes@), focus: self.focus }
    }
}

/// The window, with the item and the announcement in it.
pub open spec fn window_node(locale: Seq<char>) -> AccessView {
    AccessView {
        id: ROOT_ID,
        role: Role::Window,
        label: Some("sicompass"@),
        value: None,
        language: locale,
        live: false,
        children: seq![ELEMENT_ID, ANNOUNCEMENT_ID],
    }
}

/// The language of a text, or the language of the user interface.
pub open spec fn language_or(content: Seq<char>, locale: Seq<char>) -> Seq<char> {
    match language_of(content) {
        Some(tag) => tag,
        None => locale,
    }
}

/// The selected item.
pub open spec fn element_node(u: Ui, locale: Seq<char>) -> AccessView {
    let (label, content) = focused(u);
    AccessView {
        id: ELEMENT_ID,
        role: Role::ListItem,
        label: Some(label),
        value: None,
        language: language_or(content, locale),
        live: false,
        children: Seq::empty(),
    }
}

/// The tree for a user interface in the language `locale`: the window, the
/// selected item, and the announcement.
pub open spec fn access_tree(u: Ui, locale: Seq<char>) -> TreeView {
    TreeView {
        nodes: seq![
            window_node(locale),
            element_node(u, locale),
            AccessView {
                id: ANNOUNCEMENT_ID,
                role: Role::ListItem,
                label: Some(
                    match u.pending_announcement {
                        Some(t) => t,
                        None => Seq::empty(),
                    },
                ),
                value: None,
                language: locale,
                live: true,
                children: Seq::empty(),
            },
        ],
        focus: if u.total_list.len() == 0 {
            ROOT_ID
        } else {
            ELEMENT_ID
        },
    }
}

/// The tree where only the value of the announcement is spoken: the window,
/// the selected item, which has the focus, and `spoken` in its language.
pub open spec fn spoken_tree(
    u: Ui,
    spoken: Seq<char>,
    spoken_lang: Seq<char>,
    locale: Seq<char>,
) -> TreeView {
    TreeView {
        nodes: seq![
            window_node(locale),
            element_node(u, locale),
            AccessView {
                id: ANNOUNCEMENT_ID,
                role: Role::ListItem,
                label: None,
                value: if spoken.len() == 0 {
                    None
                } else {
                    Some(spoken)
                },
                language: if spoken_lang.len() == 0 {
                    locale
                } else {
                    spoken_lang
                },
                live: true,
                children: Seq::empty(),
            },
        ],
        focus: ELEMENT_ID,
    }
}

fn make_window(locale: &str) -> (r: AccessNode)
    ensures
        r@ == window_node(locale@),
{
    let mut children: Vec<u64> = Vec::new();
    children.push(ELEMENT_ID);
    children.push(ANNOUNCEMENT_ID);
    AccessNode {
        id: ROOT_ID,
        role: Role::Window,
        label: Some("sicompass".to_owned()),
        value: None,
        language: locale.to_owned(),
        live: false,
        children,
    }
}

fn make_element(renderer: &AppRenderer, locale: &str) -> (r: AccessNode)
    ensures
        r@ == element_node(renderer@, locale@),
{
    let (label, content) = current_element(renderer);
    let language = match detect_language(content.as_str()) {
        Some(tag) => tag,
        None => locale.to_owned(),
    };
    AccessNode {
        id: ELEMENT_ID,
        role: Role::ListItem,
        label: Some(label),
        value: None,
        language,
        live: false,
        children: Vec::new(),
    }
}

/// `sicompass_sdk::localize::current_locale`: the language that the user
/// interface is in. It can change between two calls, so nothing is said of it
/// here.
#[verifier::external_body]
fn current_locale() -> (r: String) {
    sicompass_sdk::localize::current_locale()
}

/// The accessibility tree, in the language that the user interface is in.
pub fn build_tree(renderer: &AppRenderer) -> (r: AccessTree)
    ensures
        exists|locale: Seq<char>| r@ == #[trigger] access_tree(renderer@, locale),
{
    let locale = current_locale();
    build_tree_in(renderer, locale.as_str())
}

/// The accessibility tree for a user interface in the language `locale`.
pub fn build_tree_in(renderer: &AppRenderer, locale: &str) -> (r: AccessTree)
    ensures
        r@ == access_tree(renderer@, locale@),
{
    let mut nodes: Vec<AccessNode> = Vec::new();
    nodes.push(make_window(locale));
    nodes.push(make_element(renderer, locale));
    let announcement = match &renderer.pending_announcement {
        Some(t) => t.clone(),
        None => String::new(),
    };
    nodes.push(
        AccessNode {
            id: ANNOUNCEMENT_ID,
            role: Role::ListItem,
            label: Some(announcement),
            value: None,
            language: locale.to_owned(),
            live: true,
            children: Vec::new(),
        },
    );
    let focus = if renderer.total_list.len() == 0 {
        ROOT_ID
    } else {
        ELEMENT_ID
    };
    AccessTree { nodes, focus }
}

/// The accessibility tree where only the value of the announcement is spoken.
pub fn build_tree_macos(
    renderer: &AppRenderer,
    spoken: &str,
    spoken_lang: &str,
    locale: &str,
) -> (r: AccessTree)
    ensures
        r@ == spoken_tree(renderer@, spoken@, spoken_lang@, locale@),
{
    let mut nodes: Vec<AccessNode> = Vec::new();
    nodes.push(make_window(locale));
    nodes.push(make_element(renderer, locale));
    nodes.push(
        AccessNode {
            id: ANNOUNCEMENT_ID,
            role: Role::ListItem,
            label: None,
            value: if spoken.is_empty() {
                None
            } else {
                Some(spoken.to_owned())
            },
            language: if spoken_lang.is_empty() {
                locale.to_owned()
            } else {
                spoken_lang.to_owned()
            },
            live: true,
            children: Vec::new(),
        },
    );
    AccessTree { nodes, focus: ELEMENT_ID }
}

/// What was last spoken.
pub struct Spoken {
    pub value: String,
    /// The language of it; empty for the language of the user interface.
    pub lang: String,
}

/// What was last spoken, as values.
#[verifier::ext_equal]
pub struct SpokenView {
    pub value: Seq<char>,
    pub lang: Seq<char>,
}

impl View for Spoken {
    type V = SpokenView;

    open spec fn view(&self) -> SpokenView {
        SpokenView { value: self.value@, lang: self.lang@ }
    }
}

impl Spoken {
    /// What was said, without the marks that tell equal announcements apart.
    pub fn text(&self) -> (r: String)
        ensures
            r@ == text::without_trailing(self@.value, '\u{200B}'),
    {
        text::trim_end_matches(self.value.as_str(), '\u{200B}')
    }
}

/// What is spoken where there is one channel for announcements and items.
pub struct SpeechChannel {
    pub last_announcement: Option<String>,
    pub last_element: String,
    pub published: Spoken,
}

/// The state of the one channel, as values.
#[verifier::ext_equal]
pub struct ChannelView {
    pub last_announcement: Option<Seq<char>>,
    pub last_element: Seq<char>,
    pub published: SpokenView,
}

impl View for SpeechChannel {
    type V = ChannelView;

    open spec fn view(&self) -> ChannelView {
        ChannelView {
            last_announcement: text::opt_text(self.last_announcement),
            last_element: self.last_element@,
            published: self.published@,
        }
    }
}

/// The channel after it has seen `u`: a new announcement is spoken, or else a
/// changed item, or else nothing new.
pub open spec fn channel_next(c: ChannelView, u: Ui, locale: Seq<char>) -> ChannelView {
    let (label, content) = focused(u);
    let announcement = u.pending_announcement;
    let published = if announcement is Some && announcement->0.len() > 0 && announcement
        != c.last_announcement {
        SpokenView { value: announcement->0, lang: locale }
    } else if label.len() > 0 && label != c.last_element {
        SpokenView { value: label, lang: language_or(content, locale) }
    } else {
        c.published
    };
    ChannelView { last_announcement: announcement, last_element: label, published }
}

impl SpeechChannel {
    /// A channel on which nothing was spoken.
    pub fn new() -> (r: Self)
        ensures
            r@ == (ChannelView {
                last_announcement: None,
                last_element: Seq::empty(),
                published: SpokenView { value: Seq::empty(), lang: Seq::empty() },
            }),
    {
        SpeechChannel {
            last_announcement: None,
            last_element: String::new(),
            published: Spoken { value: String::new(), lang: String::new() },
        }
    }

    /// The channel after it has seen the user interface.
    pub fn next(&self, renderer: &AppRenderer, locale: &str) -> (r: Self)
        ensures
            r@ == channel_next(self@, renderer@, locale@),
    {
        let (label, content) = current_element(renderer);
        let announcement = text::clone_opt(&renderer.pending_announcement);
        let is_new = match &announcement {
            Some(t) => !t.as_str().is_empty() && !text::same_opt(
                &announcement,
                &self.last_announcement,
            ),
            None => false,
        };
        let published = match &announcement {
            Some(t) if is_new => Spoken { value: t.clone(), lang: locale.to_owned() },
            _ => {
                if !label.as_str().is_empty() && !text::same(
                    label.as_str(),
                    self.last_element.as_str(),
                ) {
                    let lang = match detect_language(content.as_str()) {
                        Some(tag) => tag,
                        None => locale.to_owned(),
                    };
                    Spoken { value: label.clone(), lang }
                } else {
                    Spoken {
                        value: self.published.value.clone(),
                        lang: self.published.lang.clone(),
                    }
                }
            },
        };
        SpeechChannel { last_announcement: announcement, last_element: label, published }
    }
}

/// Nothing is spoken twice: a channel that sees the same again speaks nothing
/// new.
pub proof fn law_nothing_is_spoken_twice(c: ChannelView, u: Ui, locale: Seq<char>)
    ensures
        channel_next(channel_next(c, u, locale), u, locale) == channel_next(c, u, locale),
{
}

/// A new announcement is spoken, whatever the selected item is.
pub proof fn law_announcement_is_spoken(c: ChannelView, u: Ui, locale: Seq<char>)
    requires
        u.pending_announcement matches Some(t) && t.len() > 0,
        u.pending_announcement != c.last_announcement,
    ensures
        channel_next(c, u, locale).published.value == u.pending_announcement->0,
{
}

/// An announcement stays the last thing spoken until another one comes or the
/// selected item changes.
pub proof fn law_announcement_stays(c: ChannelView, u: Ui, v: Ui, locale: Seq<char>)
    requires
        v.pending_announcement == u.pending_announcement,
        focused(v).0 == focused(u).0,
    ensures
        channel_next(channel_next(c, u, locale), v, locale).published == channel_next(
            c,
            u,
            locale,
        ).published,
{
}

/// A selected item that changes is spoken where no announcement is new.
pub proof fn law_changed_item_is_spoken(c: ChannelView, u: Ui, locale: Seq<char>)
    requires
        u.pending_announcement == c.last_announcement,
        focused(u).0.len() > 0,
        focused(u).0 != c.last_element,
    ensures
        channel_next(c, u, locale).published.value == focused(u).0,
{
}

/// The tree always holds the window, the selected item and the announcement,
/// and the focus is on one of them.
pub proof fn law_tree_is_complete(u: Ui, locale: Seq<char>)
    ensures
        access_tree(u, locale).nodes.len() == 3,
        access_tree(u, locale).nodes[0].children == seq![
            access_tree(u, locale).nodes[1].id,
            access_tree(u, locale).nodes[2].id,
        ],
        exists|i: int|
            0 <= i < 3 && (#[trigger] access_tree(u, locale).nodes[i]).id == access_tree(
                u,
                locale,
            ).focus,
{
    let tree = access_tree(u, locale);
    if u.total_list.len() == 0 {
        assert(tree.nodes[0].id == tree.focus);
    } else {
        assert(tree.nodes[1].id == tree.focus);
    }
}

} // verus!
