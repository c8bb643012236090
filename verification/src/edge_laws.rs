//! What holds at the edges: of texts that are taken apart, of what comes from
//! the network, of what is said, and of the window.

use vstd::prelude::*;

use crate::app_state;
use crate::app_state::Ui;
use crate::elements;
use crate::handlers;
use crate::http;
use crate::http::{LinkSource, PageForm};
use crate::markup;
use crate::offsets;
use crate::pages;
use crate::render;
use crate::render::{Extent, QueueFamily, RuntimeFileView, SurfaceCapabilities};
use crate::text;

verus! {

/// Whether a text is nothing but white space.
pub open spec fn is_blank(s: Seq<char>) -> bool {
    forall|i: int| 0 <= i < s.len() ==> text::is_white(#[trigger] s[i])
}

/// Whether a text has no white space at its ends.
pub open spec fn is_trim(s: Seq<char>) -> bool {
    s.len() > 0 && !text::is_white(s[0]) && !text::is_white(s.last())
}

proof fn lemma_trimmed_start(a: Seq<char>, s: Seq<char>)
    requires
        is_blank(a),
        s.len() > 0,
        !text::is_white(s[0]),
    ensures
        text::trimmed_start(a + s) == s,
    decreases a.len(),
{
    if a.len() == 0 {
        assert(a + s =~= s);
    } else {
        assert((a + s).drop_first() =~= a.drop_first() + s);
        assert((a + s)[0] == a[0]);
        lemma_trimmed_start(a.drop_first(), s);
    }
}

proof fn lemma_trimmed_end(s: Seq<char>, b: Seq<char>)
    requires
        is_blank(b),
        s.len() > 0,
        !text::is_white(s.last()),
    ensures
        text::trimmed_end(s + b) == s,
    decreases b.len(),
{
    if b.len() == 0 {
        assert(s + b =~= s);
    } else {
        assert((s + b).drop_last() =~= s + b.drop_last());
        assert((s + b).last() == b.last());
        lemma_trimmed_end(s, b.drop_last());
    }
}

/// Trimming takes the white space at both ends away, and nothing else.
pub proof fn law_white_space_is_trimmed(a: Seq<char>, s: Seq<char>, b: Seq<char>)
    requires
        is_blank(a),
        is_trim(s),
        is_blank(b),
    ensures
        text::trimmed(a + s + b) == s,
{
    assert(a + s + b =~= a + (s + b));
    lemma_trimmed_start(a, s + b);
    lemma_trimmed_end(s, b);
}

/// A text is split at the first place of a character: what stands before it, and
/// what stands behind it.
pub proof fn law_text_is_split_at_the_first(a: Seq<char>, c: char, b: Seq<char>)
    requires
        forall|i: int| 0 <= i < a.len() ==> #[trigger] a[i] != c,
    ensures
        text::split_at_first(a + seq![c] + b, c) == Some((a, b)),
        text::split_at_first(a, c) is None,
{
    let s = a + seq![c] + b;
    lemma_index(s, c, a.len() as int, 0);
    assert(s.take(a.len() as int) =~= a);
    assert(s.skip(a.len() as int + 1) =~= b);
    lemma_no_index(a, c, 0);
}

proof fn lemma_index(s: Seq<char>, c: char, k: int, from: int)
    requires
        0 <= from <= k < s.len(),
        s[k] == c,
        forall|i: int| 0 <= i < k ==> s[i] != c,
    ensures
        text::index_from(s, c, from) == Some(k),
    decreases k - from,
{
    if from < k {
        lemma_index(s, c, k, from + 1);
    }
}

proof fn lemma_no_index(s: Seq<char>, c: char, from: int)
    requires
        0 <= from <= s.len(),
        forall|i: int| 0 <= i < s.len() ==> s[i] != c,
    ensures
        text::index_from(s, c, from) is None,
    decreases s.len() - from,
{
    if from < s.len() {
        lemma_no_index(s, c, from + 1);
    }
}

proof fn lemma_last_index(s: Seq<char>, c: char, k: int, to: int)
    requires
        0 <= k < to <= s.len(),
        s[k] == c,
        forall|i: int| k < i < s.len() ==> s[i] != c,
    ensures
        text::last_index_before(s, c, to) == Some(k),
    decreases to - k,
{
    if to - 1 > k {
        lemma_last_index(s, c, k, to - 1);
    }
}

/// A path comes apart into the directory and the file.
pub proof fn law_path_comes_apart(dir: Seq<char>, file: Seq<char>)
    requires
        dir.len() > 0,
        forall|i: int| 0 <= i < file.len() ==> #[trigger] file[i] != '/',
    ensures
        elements::nav_parts(dir + seq!['/'] + file) == (dir, file),
{
    let s = dir + seq!['/'] + file;
    let k = dir.len() as int;
    assert forall|i: int| k < i < s.len() implies s[i] != '/' by {
        assert(s[i] == file[i - k - 1]);
    }
    lemma_last_index(s, '/', k, s.len() as int);
    assert(s.take(k) =~= dir);
    assert(s.skip(k + 1) =~= file);
}

/// Of a password nothing is said but how long it is.
pub proof fn law_password_is_said_as_stars(u: Ui, c: char, secret: Seq<char>)
    requires
        u.input_is_password,
    ensures
        handlers::spoken_char(u, c) == seq!['*'],
        app_state::spoken_context(u, Some(secret)) matches Some(s) && s.len() == secret.len()
            && forall|i: int| 0 <= i < s.len() ==> #[trigger] s[i] == '*',
{
}

/// A change of tabs is told by the number of the tab, counted from one, how many
/// there are, and the name; a mode by its name and what is going on in it.
pub proof fn law_tabs_and_modes_are_said(
    active: nat,
    total: nat,
    label: Seq<char>,
    mode: Seq<char>,
    context: Seq<char>,
)
    requires
        context.len() > 0,
    ensures
        app_state::tab_text(active, total, label, "speak-tab-change"@) == "tab "@ + text::decimal(
            active + 1,
        ) + "/"@ + text::decimal(total) + ": "@ + label,
        app_state::mode_text(mode, Some(context)) == mode + " - "@ + context,
        app_state::mode_text(mode, None) == mode,
        app_state::mode_text(mode, Some(Seq::empty())) == mode,
{
}

/// A translation is said as it is; without one the English name is, with the
/// word for a mode behind it.
pub proof fn law_modes_have_names(u: Ui, translated: Seq<char>)
    requires
        translated != app_state::coordinate_key(u.coordinate),
        translated != app_state::coordinate_name(u.coordinate),
    ensures
        app_state::mode_said(u, None, translated) == translated,
        ({
            let name = app_state::coordinate_name(u.coordinate);
            app_state::mode_said(u, None, app_state::coordinate_key(u.coordinate))
                == if markup::ends_with(name, " mode"@) {
                name
            } else {
                name + " mode"@
            }
        }),
{
}

/// A link leads to a page where it names one, else to a file: in binary form
/// where its name says so, else in JSON.
pub proof fn law_links_lead_to_pages_or_files(rest: Seq<char>, path: Seq<char>)
    requires
        path.len() > 0,
        path[0] == '/',
    ensures
        http::source_of("http://"@ + rest) == LinkSource::Page,
        http::source_of("https://"@ + rest) == LinkSource::Page,
        http::source_of(path + ".ffon"@) == LinkSource::BinaryFile,
        http::source_of(path + ".json"@) == LinkSource::JsonFile,
{
    reveal_strlit("http://");
    reveal_strlit("https://");
    reveal_strlit(".ffon");
    reveal_strlit(".json");
    let a = "http://"@ + rest;
    let b = "https://"@ + rest;
    assert(a.subrange(0, "http://"@.len() as int) =~= "http://"@);
    assert(b.subrange(0, "https://"@.len() as int) =~= "https://"@);
    let f = path + ".ffon"@;
    let j = path + ".json"@;
    assert(f.subrange(f.len() - 5, f.len() as int) =~= ".ffon"@);
    assert(f[0] == '/' && j[0] == '/');
    assert(!markup::starts_with(f, "http://"@) && !markup::starts_with(f, "https://"@)) by {
        if markup::starts_with(f, "http://"@) {
            assert(f.subrange(0, "http://"@.len() as int)[0] == f[0]);
        }
        if markup::starts_with(f, "https://"@) {
            assert(f.subrange(0, "https://"@.len() as int)[0] == f[0]);
        }
    }
    assert(!markup::starts_with(j, "http://"@) && !markup::starts_with(j, "https://"@)) by {
        if markup::starts_with(j, "http://"@) {
            assert(j.subrange(0, "http://"@.len() as int)[0] == j[0]);
        }
        if markup::starts_with(j, "https://"@) {
            assert(j.subrange(0, "https://"@.len() as int)[0] == j[0]);
        }
    }
    assert(!markup::ends_with(j, ".ffon"@)) by {
        if markup::ends_with(j, ".ffon"@) {
            assert(j.subrange(j.len() - 5, j.len() as int)[1] == j[j.len() - 4]);
        }
    }
}

/// A page is read as JSON where that gives elements, else as a page in HTML; an
/// empty one holds nothing, and neither does one that did not come.
pub proof fn law_pages_are_read(url: Seq<char>, body: Seq<char>, why: Seq<char>)
    requires
        body.len() > 0,
        !markup::ends_with(url, ".ffon"@),
        offsets::byte_len(body) <= pages::LONGEST_PAGE,
    ensures
        pages::answered(url, Ok(body)) == if pages::json_tree(body) is Some && pages::json_tree(
            body,
        )->0.len() > 0 {
            pages::json_tree(body)->0
        } else {
            pages::html_tree(body, url)
        },
        pages::answered(url, Ok(Seq::empty())).len() == 0,
        pages::answered(url, Err(why)).len() == 0,
        http::form_of(url, Seq::empty()) == PageForm::Empty,
{
}

/// A text comes back from its bytes.
pub proof fn law_texts_come_back_from_bytes(url: Seq<char>, s: Seq<char>, why: Seq<char>)
    ensures
        http::decoded(url, Ok(vstd::utf8::encode_utf8(s))) == Ok::<Seq<char>, Seq<char>>(s),
        http::decoded(url, Err(why)) == Err::<Seq<char>, Seq<char>>(why),
{
    vstd::utf8::encode_utf8_valid_utf8(s);
    vstd::utf8::encode_utf8_decode_utf8(s);
}

/// The images of a window have the size that is fixed, or else that of the
/// window as far as the limits allow.
pub proof fn law_images_fit_the_window(caps: SurfaceCapabilities, window: Extent)
    requires
        caps.min_image_extent.width <= caps.max_image_extent.width,
        caps.min_image_extent.height <= caps.max_image_extent.height,
    ensures
        ({
            let e = render::extent_of(caps, window);
            if caps.current_extent.width != u32::MAX {
                e == caps.current_extent
            } else {
                &&& caps.min_image_extent.width <= e.width <= caps.max_image_extent.width
                &&& caps.min_image_extent.height <= e.height <= caps.max_image_extent.height
                &&& caps.min_image_extent.width <= window.width <= caps.max_image_extent.width
                    ==> e.width == window.width
                &&& caps.min_image_extent.height <= window.height <= caps.max_image_extent.height
                    ==> e.height == window.height
            }
        }),
{
}

/// The families of queues that are found can draw and show, and none behind them
/// can.
pub proof fn law_queues_can_draw_and_show(families: Seq<QueueFamily>, n: int)
    requires
        0 <= n <= families.len() <= u32::MAX,
    ensures
        match render::last_graphics(families, n) {
            Some(i) => i < n && families[i as int].graphics && forall|j: int|
                i < j < n ==> !(#[trigger] families[j]).graphics,
            None => forall|j: int| 0 <= j < n ==> !(#[trigger] families[j]).graphics,
        },
        match render::last_present(families, n) {
            Some(i) => i < n && families[i as int].present && forall|j: int|
                i < j < n ==> !(#[trigger] families[j]).present,
            None => forall|j: int| 0 <= j < n ==> !(#[trigger] families[j]).present,
        },
    decreases n,
{
    if n > 0 {
        law_queues_can_draw_and_show(families, n - 1);
    }
}

/// Nothing is missing where every file is there, and something is where one is
/// not; each file has a line of its own in what is said.
pub proof fn law_missing_files_are_told(files: Seq<RuntimeFileView>, i: int)
    requires
        0 <= i < files.len(),
    ensures
        (forall|j: int| 0 <= j < files.len() ==> (#[trigger] files[j]).there)
            ==> render::missing(files, files.len() as int) == 0,
        !files[i].there ==> render::missing(files, files.len() as int) > 0,
        render::report(files).len() == files.len() + 1,
        files[i].there ==> render::report(files)[i] == "OK: "@ + files[i].name,
        !files[i].there ==> render::report(files)[i] == "MISSING: "@ + files[i].name,
{
    lemma_missing(files, files.len() as int, i);
}

proof fn lemma_missing(files: Seq<RuntimeFileView>, n: int, i: int)
    requires
        0 <= n <= files.len(),
    ensures
        (forall|j: int| 0 <= j < n ==> (#[trigger] files[j]).there) ==> render::missing(files, n)
            == 0,
        0 <= i < n && !files[i].there ==> render::missing(files, n) > 0,
    decreases n,
{
    if n > 0 {
        lemma_missing(files, n - 1, i);
    }
}

} // verus!
