//! The template composer: build each page's context — string fields, and
//! for the index listings a list of string-entry maps — and invoke the
//! template engine on it.
//!
//! The engine cannot propagate context into nested partials, so shared
//! fragments (the analytics snippet) are rendered to a plain string first
//! and spliced into the parent page's context as an ordinary field. Every
//! composer here takes that pre-rendered partial as a string argument and
//! inserts it under its own key, never relying on the engine's partial
//! mechanism. Each composer also refuses, instead of rendering, a template
//! whose tags would make the engine read a file or panic (see
//! `template_self_contained` and `key_sectioned`).

use vstd::prelude::*;
use crate::content::{Post, Project, format_name};
use crate::renderer::{RenderErrModel, RenderError, render_result, render_to_html};

verus! {

#[verifier::external_type_specification]
#[verifier::external_body]
pub struct ExMapBuilder(mustache::MapBuilder);

/// What a context builder holds: its string entries, keyed by field name.
/// Uninterpreted; the builder wrappers are the only places it is assumed.
pub uninterp spec fn builder_entries(b: mustache::MapBuilder) -> Map<Seq<char>, Seq<char>>;

/// What the template engine produces for a self-contained template source
/// rendered against string entries and list entries (each list a sequence
/// of string-entry maps, as a section iterates them): the page text, or
/// `None` when the source does not compile or rendering fails. The engine
/// resolves a partial tag by reading a file, so only for a self-contained
/// source (see `template_self_contained`) is the outcome a function of the
/// source and the context; for any other source nothing is assumed of this
/// name. Uninterpreted; the render wrapper is the only place it is assumed.
pub uninterp spec fn mustache_render_of(
    template_src: Seq<char>,
    entries: Map<Seq<char>, Seq<char>>,
    lists: Map<Seq<char>, Seq<Map<Seq<char>, Seq<char>>>>,
) -> Option<Seq<char>>;

/// A character the engine's tag parsing could strip from a name's front, or
/// that opens a name: every Unicode whitespace lies outside the ASCII
/// graphic range, which this over-approximates.
pub open spec fn could_pad_tag_name(c: char) -> bool {
    (c as u32) < 0x21 || (c as u32) > 0x7e || c == '{' || c == '&'
}

/// A character the engine's tag parsing could strip from a name's back, or
/// that closes a tag.
pub open spec fn could_close_tag_name(c: char) -> bool {
    (c as u32) < 0x21 || (c as u32) > 0x7e || c == '}'
}

/// No implicit-top tag: no `'.'` that could be a whole tag name (`{{.}}`,
/// `{{ . }}`, `{{{.}}}`). Such a tag interpolates the whole context, which
/// is never a string, and the engine panics on that. Conservative: a dot
/// is suspect already when a possible name pad precedes it and a possible
/// name close follows it.
pub open spec fn no_dot_tag(src: Seq<char>) -> bool {
    forall|j: int|
        0 < j && j + 1 < src.len() && (#[trigger] src[j]) == '.' ==> !(could_pad_tag_name(
            src[j - 1],
        ) && could_close_tag_name(src[j + 1]))
}

/// The template source drives the engine by the context alone, and only
/// through forms that cannot make it read a file or panic: it holds no
/// partial tag (`{{>`), which the engine resolves by reading a file from
/// disk; no set-delimiter tag (`{{=`), which could disguise any tag later
/// in the source; and no implicit-top tag (see `no_dot_tag`). Under the
/// engine's default delimiters every partial needs the first and every
/// delimiter change the second. The pages of this system avoid engine
/// partials by design: shared fragments are spliced in pre-rendered.
pub open spec fn template_self_contained(src: Seq<char>) -> bool {
    &&& forall|i: int|
        0 <= i && i + 2 < src.len() ==> !((#[trigger] src[i]) == '{' && src[i + 1] == '{' && (src[i
            + 2] == '>' || src[i + 2] == '='))
    &&& no_dot_tag(src)
}

/// Decide `template_self_contained` for a template source.
pub fn check_template_self_contained(src: &str) -> (r: bool)
    ensures
        r == template_self_contained(src@),
{
    let n = src.unicode_len();
    let mut i: usize = 0;
    while i < n
        invariant
            i <= n,
            n == src@.len(),
            forall|k: int|
                0 <= k < i && k + 2 < src@.len() ==> !((#[trigger] src@[k]) == '{' && src@[k + 1]
                    == '{' && (src@[k + 2] == '>' || src@[k + 2] == '=')),
            forall|j: int|
                0 < j < i && j + 1 < src@.len() && (#[trigger] src@[j]) == '.' ==> !(
                could_pad_tag_name(src@[j - 1]) && could_close_tag_name(src@[j + 1])),
        decreases n - i,
    {
        if n >= 3 && i < n - 2 {
            if src.get_char(i) == '{' && src.get_char(i + 1) == '{' {
                let c2 = src.get_char(i + 2);
                if c2 == '>' || c2 == '=' {
                    return false;
                }
            }
        }
        if i > 0 && i < n - 1 {
            if src.get_char(i) == '.' {
                let l = src.get_char(i - 1);
                let rr = src.get_char(i + 1);
                let l_pads = (l as u32) < 0x21 || (l as u32) > 0x7e || l == '{' || l == '&';
                let r_closes = (rr as u32) < 0x21 || (rr as u32) > 0x7e || rr == '}';
                if l_pads && r_closes {
                    return false;
                }
            }
        }
        i += 1;
    }
    true
}

/// Every occurrence of the key in the source follows a section sigil (`#`,
/// `/` or `^`) directly, so no tag can interpolate the key's value. The
/// value under a listing key is a list, which is never interpolated, only
/// iterated by a section.
pub open spec fn key_sectioned(src: Seq<char>, key: Seq<char>) -> bool {
    forall|i: int|
        0 <= i && i + key.len() <= src.len() && #[trigger] src.subrange(i, i + key.len()) == key
            ==> i > 0 && (src[i - 1] == '#' || src[i - 1] == '/' || src[i - 1] == '^')
}

/// Decide `key_sectioned` for a template source and a listing key.
pub fn check_key_sectioned(src: &str, key: &str) -> (r: bool)
    ensures
        r == key_sectioned(src@, key@),
{
    let n = src.unicode_len();
    let m = key.unicode_len();
    if m == 0 {
        proof {
            assert(src@.subrange(0, 0 + key@.len() as int) =~= key@);
            assert(!key_sectioned(src@, key@));
        }
        return false;
    }
    if m > n {
        proof {
            assert forall|i: int|
                0 <= i && i + key@.len() <= src@.len() && #[trigger] src@.subrange(
                    i,
                    i + key@.len(),
                ) == key@ implies i > 0 && (src@[i - 1] == '#' || src@[i - 1] == '/' || src@[i - 1]
                == '^') by {
                assert(false);
            }
        }
        return true;
    }
    let mut i: usize = 0;
    while i <= n - m
        invariant
            0 < m <= n,
            i <= n - m + 1,
            n == src@.len(),
            m == key@.len(),
            forall|k: int|
                0 <= k < i && k + key@.len() <= src@.len() && #[trigger] src@.subrange(
                    k,
                    k + key@.len(),
                ) == key@ ==> k > 0 && (src@[k - 1] == '#' || src@[k - 1] == '/' || src@[k - 1]
                    == '^'),
        decreases n - m - i + 1,
    {
        let mut j: usize = 0;
        let mut matched = true;
        while j < m
            invariant
                j <= m,
                0 < m <= n,
                i <= n - m,
                n == src@.len(),
                m == key@.len(),
                matched ==> forall|t: int| 0 <= t < j ==> src@[i + t] == key@[t],
                !matched ==> src@.subrange(i as int, i as int + m as int) != key@,
            decreases m - j,
        {
            if src.get_char(i + j) != key.get_char(j) {
                proof {
                    assert(src@.subrange(i as int, i as int + m as int) != key@) by {
                        assert(src@.subrange(i as int, i as int + m as int)[j as int] == src@[
                            i as int + j as int]);
                    }
                }
                matched = false;
                j = m;
            } else {
                j += 1;
            }
        }
        if matched {
            proof {
                assert(src@.subrange(i as int, i as int + m as int) =~= key@);
            }
            if i == 0 {
                proof {
                    assert(!key_sectioned(src@, key@));
                }
                return false;
            }
            let p = src.get_char(i - 1);
            if !(p == '#' || p == '/' || p == '^') {
                proof {
                    assert(!key_sectioned(src@, key@));
                }
                return false;
            }
            proof {
                assert(src@[i as int - 1] == '#' || src@[i as int - 1] == '/' || src@[i as int - 1]
                    == '^');
                assert forall|k: int|
                    0 <= k < i + 1 && k + key@.len() <= src@.len() && #[trigger] src@.subrange(
                        k,
                        k + key@.len(),
                    ) == key@ implies k > 0 && (src@[k - 1] == '#' || src@[k - 1] == '/' || src@[k
                    - 1] == '^') by {
                    if k == i {
                    }
                }
            }
        } else {
            proof {
                assert forall|k: int|
                    0 <= k < i + 1 && k + key@.len() <= src@.len() && #[trigger] src@.subrange(
                        k,
                        k + key@.len(),
                    ) == key@ implies k > 0 && (src@[k - 1] == '#' || src@[k - 1] == '/' || src@[k
                    - 1] == '^') by {
                    if k == i {
                        assert(src@.subrange(i as int, i as int + m as int) != key@);
                    }
                }
            }
        }
        i += 1;
    }
    proof {
        assert forall|k: int|
            0 <= k && k + key@.len() <= src@.len() && #[trigger] src@.subrange(k, k + key@.len())
                == key@ implies k > 0 && (src@[k - 1] == '#' || src@[k - 1] == '/' || src@[k - 1]
            == '^') by {
            assert(k < i);
        }
    }
    true
}

/// An empty context.
pub open spec fn no_entries() -> Map<Seq<char>, Seq<char>> {
    Map::empty()
}

/// A builder without string entries admits a list entry under any key.
proof fn lemma_no_entries_admits_key(b: mustache::MapBuilder, key: Seq<char>)
    requires
        builder_entries(b) == no_entries(),
    ensures
        !builder_entries(b).dom().contains(key),
{
    assert(no_entries().dom() =~= Set::<Seq<char>>::empty());
}

/// A builder without list entries meets the list-key condition vacuously.
proof fn lemma_no_lists_has_no_keys(src: Seq<char>, b: mustache::MapBuilder)
    requires
        builder_lists(b) == no_lists(),
    ensures
        forall|k: Seq<char>| #[trigger] builder_lists(b).dom().contains(k) ==> key_sectioned(
            src,
            k,
        ),
{
    assert(no_lists().dom() =~= Set::<Seq<char>>::empty());
}

/// A context with no list entries.
pub open spec fn no_lists() -> Map<Seq<char>, Seq<Map<Seq<char>, Seq<char>>>> {
    Map::empty()
}

/// What a context builder holds besides strings: its list entries, keyed by
/// field name. Uninterpreted; the builder wrappers are the only places it
/// is assumed.
pub uninterp spec fn builder_lists(b: mustache::MapBuilder) -> Map<
    Seq<char>,
    Seq<Map<Seq<char>, Seq<char>>>,
>;

#[verifier::external_type_specification]
#[verifier::external_body]
pub struct ExVecBuilder(mustache::VecBuilder);

/// What a list builder holds: the string-entry map of each item, in order.
/// Uninterpreted; the list-builder wrapper is the only place it is assumed.
pub uninterp spec fn vec_builder_items(v: mustache::VecBuilder) -> Seq<Map<Seq<char>, Seq<char>>>;

/// The string entries a pair list describes, first pair first.
pub open spec fn pairs_map(pairs: Seq<(String, String)>) -> Map<Seq<char>, Seq<char>>
    decreases pairs.len(),
{
    if pairs.len() == 0 {
        no_entries()
    } else {
        pairs_map(pairs.drop_last()).insert(pairs.last().0@, pairs.last().1@)
    }
}

/// The string-entry maps of a list of pair lists, in order.
pub open spec fn entry_maps(items: Seq<Vec<(String, String)>>) -> Seq<Map<Seq<char>, Seq<char>>> {
    items.map_values(|it: Vec<(String, String)>| pairs_map(it@))
}

/// Relies on `mustache::MapBuilder::new`: the fresh builder holds no
/// entries.
#[verifier::external_body]
pub(crate) fn builder_new() -> (r: mustache::MapBuilder)
    ensures
        builder_entries(r) == no_entries(),
        builder_lists(r) == no_lists(),
{
    mustache::MapBuilder::new()
}

/// Relies on `mustache::MapBuilder::insert_str`: it adds one string entry
/// under the key, replacing any previous value there, and changes nothing
/// else. The builder holds one slot per key, so a string inserted under a
/// key that names a list would replace the list; the precondition forbids
/// that key.
#[verifier::external_body]
pub(crate) fn builder_insert_str(b: mustache::MapBuilder, key: &str, value: &str) -> (r:
    mustache::MapBuilder)
    requires
        !builder_lists(b).dom().contains(key@),
    ensures
        builder_entries(r) == builder_entries(b).insert(key@, value@),
        builder_lists(r) == builder_lists(b),
{
    b.insert_str(key, value)
}

proof fn lemma_pairs_map_step(pairs: Seq<(String, String)>, p: (String, String))
    ensures
        pairs_map(pairs.push(p)) == pairs_map(pairs).insert(p.0@, p.1@),
{
    assert(pairs.push(p).drop_last() =~= pairs);
    assert(pairs.push(p).last() == p);
}

/// Fill a fresh context builder with string entries, first pair first.
fn insert_pairs(b: mustache::MapBuilder, pairs: &Vec<(String, String)>) -> (r:
    mustache::MapBuilder)
    requires
        builder_entries(b) == no_entries(),
        builder_lists(b) == no_lists(),
    ensures
        builder_entries(r) == pairs_map(pairs@),
        builder_lists(r) == no_lists(),
{
    let mut cur = b;
    let mut i: usize = 0;
    proof {
        assert(pairs@.take(0) =~= Seq::<(String, String)>::empty());
    }
    while i < pairs.len()
        invariant
            i <= pairs@.len(),
            builder_entries(cur) == pairs_map(pairs@.take(i as int)),
            builder_lists(cur) == no_lists(),
        decreases pairs@.len() - i,
    {
        proof {
            assert(pairs@.take(i as int).push(pairs@[i as int]) =~= pairs@.take(i as int + 1));
            lemma_pairs_map_step(pairs@.take(i as int), pairs@[i as int]);
        }
        cur = builder_insert_str(cur, pairs[i].0.as_str(), pairs[i].1.as_str());
        i += 1;
    }
    proof {
        assert(pairs@.take(pairs@.len() as int) =~= pairs@);
    }
    cur
}

/// Relies on `mustache::VecBuilder::push_map`: it hands its closure a
/// fresh, empty context builder and appends the built map as the list's
/// next item; the closure only calls this module's verified `insert_pairs`,
/// whose contract gives the appended map's entries.
#[verifier::external_body]
fn vec_builder_push_entries(v: mustache::VecBuilder, pairs: &Vec<(String, String)>) -> (r:
    mustache::VecBuilder)
    ensures
        vec_builder_items(r) == vec_builder_items(v).push(pairs_map(pairs@)),
{
    v.push_map(|mb| insert_pairs(mb, pairs))
}

/// Fill a fresh list builder with one item per pair list, in order.
fn fill_items(vb: mustache::VecBuilder, items: &Vec<Vec<(String, String)>>) -> (r:
    mustache::VecBuilder)
    requires
        vec_builder_items(vb) == Seq::<Map<Seq<char>, Seq<char>>>::empty(),
    ensures
        vec_builder_items(r) == entry_maps(items@),
{
    let mut cur = vb;
    let mut i: usize = 0;
    proof {
        assert(entry_maps(items@.take(0)) =~= Seq::<Map<Seq<char>, Seq<char>>>::empty());
    }
    while i < items.len()
        invariant
            i <= items@.len(),
            vec_builder_items(cur) == entry_maps(items@.take(i as int)),
        decreases items@.len() - i,
    {
        proof {
            assert(entry_maps(items@.take(i as int + 1)) =~= entry_maps(
                items@.take(i as int),
            ).push(pairs_map(items@[i as int]@)));
        }
        cur = vec_builder_push_entries(cur, &items[i]);
        i += 1;
    }
    proof {
        assert(items@.take(items@.len() as int) =~= items@);
    }
    cur
}

/// Relies on `mustache::MapBuilder::insert_vec`: it hands its closure a
/// fresh, empty list builder and inserts the built list under the key,
/// leaving the string entries alone; the closure only calls this module's
/// verified `fill_items`, whose contract gives the list's items. The
/// builder holds one slot per key, so a list inserted under a key that
/// names a string entry would replace the string; the precondition forbids
/// that key.
#[verifier::external_body]
fn builder_insert_entry_list(
    b: mustache::MapBuilder,
    key: &str,
    items: &Vec<Vec<(String, String)>>,
) -> (r: mustache::MapBuilder)
    requires
        !builder_entries(b).dom().contains(key@),
    ensures
        builder_entries(r) == builder_entries(b),
        builder_lists(r) == builder_lists(b).insert(key@, entry_maps(items@)),
{
    b.insert_vec(key, |vb| fill_items(vb, items))
}

/// Relies on `mustache::compile_str`, `mustache::MapBuilder::build` and
/// `mustache::Template::render_data_to_string`. The compiler resolves a
/// partial tag (`{{>name}}`) by reading `name.mustache` from the working
/// directory, treating a missing file as empty, so the outcome depends on
/// the filesystem when the source holds one; for a self-contained source it
/// is a function of the source and the context, and the contract says so
/// only then. Rendering panics when a tag interpolates a non-string value;
/// the preconditions rule those tags out: the builders hold only strings
/// and lists of string maps, no implicit-top tag exists (part of
/// `template_self_contained`), and every list key follows a section sigil.
#[verifier::external_body]
pub(crate) fn render_template(template_src: &str, b: mustache::MapBuilder) -> (r: Option<String>)
    requires
        template_self_contained(template_src@),
        forall|k: Seq<char>| #[trigger]
            builder_lists(b).dom().contains(k) ==> key_sectioned(template_src@, k),
    ensures
        template_self_contained(template_src@) ==> (r is Some <==> mustache_render_of(
            template_src@,
            builder_entries(b),
            builder_lists(b),
        ) is Some),
        template_self_contained(template_src@) ==> (r matches Some(s) ==> mustache_render_of(
            template_src@,
            builder_entries(b),
            builder_lists(b),
        ) == Some(s@)),
{
    match mustache::compile_str(template_src) {
        Ok(t) => t.render_data_to_string(&b.build()).ok(),
        Err(_) => None,
    }
}

/// The context of the shared analytics snippet.
pub open spec fn analytics_entries(tracking_id: Seq<char>) -> Map<Seq<char>, Seq<char>> {
    Map::<Seq<char>, Seq<char>>::empty().insert("google_analytics_tracking_id"@, tracking_id)
}

/// Render the shared analytics snippet: the one fragment every page splices
/// in pre-rendered.
pub fn render_analytics_snippet(template_src: &str, tracking_id: &str) -> (r: Option<String>)
    ensures
        template_self_contained(template_src@) ==> (r is Some <==> mustache_render_of(
            template_src@,
            analytics_entries(tracking_id@),
            no_lists(),
        ) is Some),
        template_self_contained(template_src@) ==> (r matches Some(s) ==> mustache_render_of(
            template_src@,
            analytics_entries(tracking_id@),
            no_lists(),
        ) == Some(s@)),
{
    if !check_template_self_contained(template_src) {
        return None;
    }
    let b = builder_new();
    let b = builder_insert_str(b, "google_analytics_tracking_id", tracking_id);
    proof {
        lemma_no_lists_has_no_keys(template_src@, b);
    }
    render_template(template_src, b)
}

/// The context of the site's index page.
pub open spec fn index_entries(portrait_url: Seq<char>, ga_partial: Seq<char>) -> Map<
    Seq<char>,
    Seq<char>,
> {
    Map::<Seq<char>, Seq<char>>::empty().insert("portrait_url"@, portrait_url).insert(
        "ga_partial"@,
        ga_partial,
    )
}

/// Compose the site's index page from the portrait URL and the pre-rendered
/// analytics partial.
pub fn render_index_page(template_src: &str, portrait_url: &str, ga_partial: &str) -> (r: Option<
    String,
>)
    ensures
        template_self_contained(template_src@) ==> (r is Some <==> mustache_render_of(
            template_src@,
            index_entries(portrait_url@, ga_partial@),
            no_lists(),
        ) is Some),
        template_self_contained(template_src@) ==> (r matches Some(s) ==> mustache_render_of(
            template_src@,
            index_entries(portrait_url@, ga_partial@),
            no_lists(),
        ) == Some(s@)),
{
    if !check_template_self_contained(template_src) {
        return None;
    }
    let b = builder_new();
    let b = builder_insert_str(b, "portrait_url", portrait_url);
    let b = builder_insert_str(b, "ga_partial", ga_partial);
    proof {
        lemma_no_lists_has_no_keys(template_src@, b);
    }
    render_template(template_src, b)
}

/// Why a page could not be composed: its body failed to render, or the
/// template engine refused the template or the context.
#[derive(Debug)]
pub enum PageError {
    Render(RenderError),
    Template,
}

/// The model of a `PageError`.
pub enum PageErrModel {
    Render(RenderErrModel),
    Template,
}

impl View for PageError {
    type V = PageErrModel;

    open spec fn view(&self) -> PageErrModel {
        match self {
            PageError::Render(e) => PageErrModel::Render(e@),
            PageError::Template => PageErrModel::Template,
        }
    }
}

/// The context of one post page.
pub open spec fn post_page_entries(
    title: Seq<char>,
    date: Seq<char>,
    content_html: Seq<char>,
    ga_partial: Seq<char>,
) -> Map<Seq<char>, Seq<char>> {
    Map::<Seq<char>, Seq<char>>::empty().insert("title"@, title).insert("date"@, date).insert(
        "content"@,
        content_html,
    ).insert("ga_partial"@, ga_partial)
}

/// What composing a post page yields: its body is rendered by its declared
/// format, then the post template is rendered against title, date, content
/// and the spliced analytics partial.
pub open spec fn post_page_result(
    template_src: Seq<char>,
    post: crate::content::PostModel,
    body: Seq<char>,
    ga_partial: Seq<char>,
) -> Result<Seq<char>, PageErrModel> {
    match render_result(body, format_name(post.format)) {
        Result::Ok(html) => match mustache_render_of(
            template_src,
            post_page_entries(post.title, post.date, html, ga_partial),
            no_lists(),
        ) {
            Option::Some(page) => Result::Ok(page),
            Option::None => Result::Err(PageErrModel::Template),
        },
        Result::Err(e) => Result::Err(PageErrModel::Render(e)),
    }
}

/// Compose one post page.
pub fn render_post_page(template_src: &str, post: &Post, body: &String, ga_partial: &str) -> (r:
    Result<String, PageError>)
    ensures
        template_self_contained(template_src@) ==> match post_page_result(
            template_src@,
            post@,
            body@,
            ga_partial@,
        ) {
            Result::Ok(page) => r matches Result::Ok(s) && s@ == page,
            Result::Err(e) => r matches Result::Err(err) && err@ == e,
        },
        render_result(body@, format_name(post.format)) matches Result::Err(e) ==> (r
            matches Result::Err(err) && err@ == PageErrModel::Render(e)),
{
    let html = match render_to_html(body, post.format.as_str()) {
        Ok(h) => h,
        Err(e) => {
            return Err(PageError::Render(e));
        },
    };
    if !check_template_self_contained(template_src) {
        return Err(PageError::Template);
    }
    let b = builder_new();
    let b = builder_insert_str(b, "title", post.title.as_str());
    let b = builder_insert_str(b, "date", post.date.as_str());
    let b = builder_insert_str(b, "content", html.as_str());
    let b = builder_insert_str(b, "ga_partial", ga_partial);
    proof {
        lemma_no_lists_has_no_keys(template_src@, b);
    }
    match render_template(template_src, b) {
        Some(s) => Ok(s),
        None => Err(PageError::Template),
    }
}

/// The context of one project page.
pub open spec fn project_page_entries(
    title: Seq<char>,
    content_html: Seq<char>,
    ga_partial: Seq<char>,
) -> Map<Seq<char>, Seq<char>> {
    Map::<Seq<char>, Seq<char>>::empty().insert("title"@, title).insert(
        "content"@,
        content_html,
    ).insert("ga_partial"@, ga_partial)
}

/// What composing a project page yields.
pub open spec fn project_page_result(
    template_src: Seq<char>,
    project: crate::content::ProjectModel,
    body: Seq<char>,
    ga_partial: Seq<char>,
) -> Result<Seq<char>, PageErrModel> {
    match render_result(body, format_name(project.format)) {
        Result::Ok(html) => match mustache_render_of(
            template_src,
            project_page_entries(project.title, html, ga_partial),
            no_lists(),
        ) {
            Option::Some(page) => Result::Ok(page),
            Option::None => Result::Err(PageErrModel::Template),
        },
        Result::Err(e) => Result::Err(PageErrModel::Render(e)),
    }
}

/// Compose one project page.
pub fn render_project_page(
    template_src: &str,
    project: &Project,
    body: &String,
    ga_partial: &str,
) -> (r: Result<String, PageError>)
    ensures
        template_self_contained(template_src@) ==> match project_page_result(
            template_src@,
            project@,
            body@,
            ga_partial@,
        ) {
            Result::Ok(page) => r matches Result::Ok(s) && s@ == page,
            Result::Err(e) => r matches Result::Err(err) && err@ == e,
        },
        render_result(body@, format_name(project.format)) matches Result::Err(e) ==> (r
            matches Result::Err(err) && err@ == PageErrModel::Render(e)),
{
    let html = match render_to_html(body, project.format.as_str()) {
        Ok(h) => h,
        Err(e) => {
            return Err(PageError::Render(e));
        },
    };
    if !check_template_self_contained(template_src) {
        return Err(PageError::Template);
    }
    let b = builder_new();
    let b = builder_insert_str(b, "title", project.title.as_str());
    let b = builder_insert_str(b, "content", html.as_str());
    let b = builder_insert_str(b, "ga_partial", ga_partial);
    proof {
        lemma_no_lists_has_no_keys(template_src@, b);
    }
    match render_template(template_src, b) {
        Some(s) => Ok(s),
        None => Err(PageError::Template),
    }
}

/// The string entries of an index listing page: the spliced analytics
/// partial alone; the listing itself is a list entry.
pub open spec fn listing_entries(ga_partial: Seq<char>) -> Map<Seq<char>, Seq<char>> {
    no_entries().insert("ga_partial"@, ga_partial)
}

/// One post's entry in the blog index listing.
pub open spec fn post_entry_map(p: crate::content::PostModel) -> Map<Seq<char>, Seq<char>> {
    no_entries().insert("title"@, p.title).insert("date"@, p.date).insert("url"@, p.url)
}

/// The blog index listing: one entry per post, in the posts' order.
pub open spec fn post_listing(posts: Seq<crate::content::PostModel>) -> Seq<
    Map<Seq<char>, Seq<char>>,
> {
    posts.map_values(|p: crate::content::PostModel| post_entry_map(p))
}

/// Compose the blog index page: the post listing under `posts`, in the
/// posts' order, and the pre-rendered analytics partial spliced in.
pub fn render_blog_index(template_src: &str, posts: &Vec<Post>, ga_partial: &str) -> (r: Option<
    String,
>)
    ensures
        template_self_contained(template_src@) && key_sectioned(template_src@, "posts"@) ==> (r
            is Some <==> mustache_render_of(
            template_src@,
            listing_entries(ga_partial@),
            no_lists().insert("posts"@, post_listing(crate::content::post_views(posts@))),
        ) is Some),
        template_self_contained(template_src@) && key_sectioned(template_src@, "posts"@) ==> (r
            matches Some(s) ==> mustache_render_of(
            template_src@,
            listing_entries(ga_partial@),
            no_lists().insert("posts"@, post_listing(crate::content::post_views(posts@))),
        ) == Some(s@)),
{
    if !check_template_self_contained(template_src) {
        return None;
    }
    if !check_key_sectioned(template_src, "posts") {
        return None;
    }
    let ghost models = crate::content::post_views(posts@);
    let mut items: Vec<Vec<(String, String)>> = Vec::new();
    let mut i: usize = 0;
    proof {
        assert(entry_maps(items@) =~= post_listing(models.take(0)));
    }
    while i < posts.len()
        invariant
            i <= posts@.len(),
            models == crate::content::post_views(posts@),
            entry_maps(items@) == post_listing(models.take(i as int)),
        decreases posts@.len() - i,
    {
        let mut pairs: Vec<(String, String)> = Vec::new();
        pairs.push((String::from_str("title"), posts[i].title.clone()));
        pairs.push((String::from_str("date"), posts[i].date.clone()));
        pairs.push((String::from_str("url"), posts[i].url.clone()));
        proof {
            let p1 = pairs@[0];
            let p2 = pairs@[1];
            let p3 = pairs@[2];
            assert(pairs@.drop_last() =~= seq![p1, p2]);
            assert(seq![p1, p2].drop_last() =~= seq![p1]);
            assert(seq![p1].drop_last() =~= Seq::<(String, String)>::empty());
            assert(pairs_map(Seq::<(String, String)>::empty()) == no_entries());
            assert(pairs_map(seq![p1]) == no_entries().insert(p1.0@, p1.1@));
            assert(pairs_map(seq![p1, p2]) == pairs_map(seq![p1]).insert(p2.0@, p2.1@));
            assert(pairs_map(pairs@) == pairs_map(seq![p1, p2]).insert(p3.0@, p3.1@));
            assert(pairs_map(pairs@) == post_entry_map(models[i as int]));
            assert(entry_maps(items@.push(pairs)) =~= entry_maps(items@).push(pairs_map(pairs@)));
            assert(post_listing(models.take(i as int + 1)) =~= post_listing(
                models.take(i as int),
            ).push(post_entry_map(models[i as int])));
        }
        items.push(pairs);
        i += 1;
    }
    proof {
        assert(models.take(models.len() as int) =~= models);
    }
    let b = builder_new();
    proof {
        lemma_no_entries_admits_key(b, "posts"@);
    }
    let b = builder_insert_entry_list(b, "posts", &items);
    proof {
        reveal_strlit("ga_partial");
        reveal_strlit("posts");
        assert("ga_partial"@.len() == 10);
        assert("posts"@.len() == 5);
        assert("ga_partial"@ != "posts"@);
        assert(builder_lists(b).dom() =~= Set::<Seq<char>>::empty().insert("posts"@));
        assert(!builder_lists(b).dom().contains("ga_partial"@));
    }
    let b = builder_insert_str(b, "ga_partial", ga_partial);
    proof {
        assert forall|k: Seq<char>| #[trigger]
            builder_lists(b).dom().contains(k) implies key_sectioned(template_src@, k) by {
            assert(k == "posts"@);
        }
    }
    render_template(template_src, b)
}

/// One project's entry in the projects index listing.
pub open spec fn project_entry_map(p: crate::content::ProjectModel) -> Map<Seq<char>, Seq<char>> {
    no_entries().insert("title"@, p.title).insert("url"@, p.url)
}

/// The projects index listing: one entry per project, in discovery order.
pub open spec fn project_listing(projects: Seq<crate::content::ProjectModel>) -> Seq<
    Map<Seq<char>, Seq<char>>,
> {
    projects.map_values(|p: crate::content::ProjectModel| project_entry_map(p))
}

/// Compose the projects index page: the project listing under `projects`,
/// in discovery order, and the pre-rendered analytics partial spliced in.
pub fn render_projects_index(template_src: &str, projects: &Vec<Project>, ga_partial: &str) -> (r:
    Option<String>)
    ensures
        template_self_contained(template_src@) && key_sectioned(template_src@, "projects"@) ==> (r
            is Some <==> mustache_render_of(
            template_src@,
            listing_entries(ga_partial@),
            no_lists().insert("projects"@, project_listing(crate::content::project_views(projects@))),
        ) is Some),
        template_self_contained(template_src@) && key_sectioned(template_src@, "projects"@) ==> (r
            matches Some(s) ==> mustache_render_of(
            template_src@,
            listing_entries(ga_partial@),
            no_lists().insert("projects"@, project_listing(crate::content::project_views(projects@))),
        ) == Some(s@)),
{
    if !check_template_self_contained(template_src) {
        return None;
    }
    if !check_key_sectioned(template_src, "projects") {
        return None;
    }
    let ghost models = crate::content::project_views(projects@);
    let mut items: Vec<Vec<(String, String)>> = Vec::new();
    let mut i: usize = 0;
    proof {
        assert(entry_maps(items@) =~= project_listing(models.take(0)));
    }
    while i < projects.len()
        invariant
            i <= projects@.len(),
            models == crate::content::project_views(projects@),
            entry_maps(items@) == project_listing(models.take(i as int)),
        decreases projects@.len() - i,
    {
        let mut pairs: Vec<(String, String)> = Vec::new();
        pairs.push((String::from_str("title"), projects[i].title.clone()));
        pairs.push((String::from_str("url"), projects[i].url.clone()));
        proof {
            let p1 = pairs@[0];
            let p2 = pairs@[1];
            assert(pairs@.drop_last() =~= seq![p1]);
            assert(seq![p1].drop_last() =~= Seq::<(String, String)>::empty());
            assert(pairs_map(Seq::<(String, String)>::empty()) == no_entries());
            assert(pairs_map(seq![p1]) == no_entries().insert(p1.0@, p1.1@));
            assert(pairs_map(pairs@) == pairs_map(seq![p1]).insert(p2.0@, p2.1@));
            assert(pairs_map(pairs@) == project_entry_map(models[i as int]));
            assert(entry_maps(items@.push(pairs)) =~= entry_maps(items@).push(pairs_map(pairs@)));
            assert(project_listing(models.take(i as int + 1)) =~= project_listing(
                models.take(i as int),
            ).push(project_entry_map(models[i as int])));
        }
        items.push(pairs);
        i += 1;
    }
    proof {
        assert(models.take(models.len() as int) =~= models);
    }
    let b = builder_new();
    proof {
        lemma_no_entries_admits_key(b, "projects"@);
    }
    let b = builder_insert_entry_list(b, "projects", &items);
    proof {
        reveal_strlit("ga_partial");
        reveal_strlit("projects");
        assert("ga_partial"@.len() == 10);
        assert("projects"@.len() == 8);
        assert("ga_partial"@ != "projects"@);
        assert(builder_lists(b).dom() =~= Set::<Seq<char>>::empty().insert("projects"@));
        assert(!builder_lists(b).dom().contains("ga_partial"@));
    }
    let b = builder_insert_str(b, "ga_partial", ga_partial);
    proof {
        assert forall|k: Seq<char>| #[trigger]
            builder_lists(b).dom().contains(k) implies key_sectioned(template_src@, k) by {
            assert(k == "projects"@);
        }
    }
    render_template(template_src, b)
}

} // verus!
