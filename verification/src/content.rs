//! The content model: post and project records, and the rules that turn a
//! discovered content tree into the final filtered, ordered list to render.
//!
//! Discovery hands this module one entry per content subdirectory: the
//! directory's own name (the slug) and its parsed metadata. An item whose
//! metadata sets `publish = false` is excluded; absence of the field means
//! "publish". Each record's URL is a fixed prefix plus the slug with a
//! trailing slash, so the URL and the on-disk location stay coupled. A
//! post's date is the calendar-date part of its metadata timestamp, and the
//! post list is ordered by that date, most recent first, by plain
//! lexicographic comparison. Projects keep their discovery order.

use vstd::prelude::*;
use vstd::multiset::Multiset;
use crate::dates::{date_part, get_date_from_iso8601};
use crate::renderer::{RenderErrModel, RenderError};
use crate::strutil::{lemma_lex_le_total, lemma_lex_le_transitive, lex_le, str_eq, str_lex_le};

verus! {

/// The format of a content body: Markdown to be rendered, or raw HTML to be
/// passed through.
#[derive(Clone, Copy, PartialEq, Eq, Structural, Debug)]
pub enum Format {
    Markdown,
    Html,
}

/// The format a metadata string declares, or `None` for any other string.
pub open spec fn format_of(s: Seq<char>) -> Option<Format> {
    if s == "markdown"@ {
        Option::Some(Format::Markdown)
    } else if s == "html"@ {
        Option::Some(Format::Html)
    } else {
        Option::None
    }
}

/// The metadata string for a format.
pub open spec fn format_name(f: Format) -> Seq<char> {
    match f {
        Format::Markdown => "markdown"@,
        Format::Html => "html"@,
    }
}

impl Format {
    /// Parse a metadata format string; any string other than `markdown` or
    /// `html` is rejected.
    pub fn parse(s: &str) -> (r: Option<Format>)
        ensures
            r == format_of(s@),
    {
        if str_eq(s, "markdown") {
            Some(Format::Markdown)
        } else if str_eq(s, "html") {
            Some(Format::Html)
        } else {
            None
        }
    }

    /// The metadata string for this format.
    pub fn as_str(&self) -> (r: &str)
        ensures
            r@ == format_name(*self),
            format_of(r@) == Option::Some(*self),
    {
        proof {
            reveal_strlit("markdown");
            reveal_strlit("html");
            assert("html"@.len() == 4);
            assert("markdown"@.len() == 8);
            assert("html"@ != "markdown"@);
        }
        match self {
            Format::Markdown => "markdown",
            Format::Html => "html",
        }
    }
}

/// A post's metadata, as read from its metadata file.
pub struct PostMetadata {
    pub title: String,
    pub date: String,
    pub format: String,
    pub publish: Option<bool>,
}

/// The model of a post's metadata.
pub struct PostMetaModel {
    pub title: Seq<char>,
    pub date: Seq<char>,
    pub format: Seq<char>,
    pub publish: Option<bool>,
}

impl View for PostMetadata {
    type V = PostMetaModel;

    open spec fn view(&self) -> PostMetaModel {
        PostMetaModel {
            title: self.title@,
            date: self.date@,
            format: self.format@,
            publish: self.publish,
        }
    }
}

/// A post record: constructed once during discovery, immutable afterward.
pub struct Post {
    pub title: String,
    pub date: String,
    pub url: String,
    pub slug: String,
    pub format: Format,
}

/// The model of a post record.
pub struct PostModel {
    pub title: Seq<char>,
    pub date: Seq<char>,
    pub url: Seq<char>,
    pub slug: Seq<char>,
    pub format: Format,
}

impl View for Post {
    type V = PostModel;

    open spec fn view(&self) -> PostModel {
        PostModel {
            title: self.title@,
            date: self.date@,
            url: self.url@,
            slug: self.slug@,
            format: self.format,
        }
    }
}

/// A project's metadata, as read from its metadata file.
pub struct ProjectMetadata {
    pub title: String,
    pub filename: String,
    pub format: String,
    pub publish: Option<bool>,
    pub js_file: Option<String>,
}

/// The model of a project's metadata.
pub struct ProjectMetaModel {
    pub title: Seq<char>,
    pub filename: Seq<char>,
    pub format: Seq<char>,
    pub publish: Option<bool>,
    pub js_file: Option<Seq<char>>,
}

impl View for ProjectMetadata {
    type V = ProjectMetaModel;

    open spec fn view(&self) -> ProjectMetaModel {
        ProjectMetaModel {
            title: self.title@,
            filename: self.filename@,
            format: self.format@,
            publish: self.publish,
            js_file: match &self.js_file {
                Option::Some(f) => Option::Some(f@),
                Option::None => Option::None,
            },
        }
    }
}

/// A project record.
pub struct Project {
    pub title: String,
    pub filename: String,
    pub format: Format,
    pub url: String,
    pub slug: String,
    pub js_file: Option<String>,
}

/// The model of a project record.
pub struct ProjectModel {
    pub title: Seq<char>,
    pub filename: Seq<char>,
    pub format: Format,
    pub url: Seq<char>,
    pub slug: Seq<char>,
    pub js_file: Option<Seq<char>>,
}

impl View for Project {
    type V = ProjectModel;

    open spec fn view(&self) -> ProjectModel {
        ProjectModel {
            title: self.title@,
            filename: self.filename@,
            format: self.format,
            url: self.url@,
            slug: self.slug@,
            js_file: match &self.js_file {
                Option::Some(f) => Option::Some(f@),
                Option::None => Option::None,
            },
        }
    }
}

/// Whether metadata publishes its item: only an explicit `publish = false`
/// excludes it.
pub open spec fn post_is_published(m: PostMetaModel) -> bool {
    m.publish != Option::Some(false)
}

/// Whether project metadata publishes its item.
pub open spec fn project_is_published(m: ProjectMetaModel) -> bool {
    m.publish != Option::Some(false)
}

/// A post's site-relative URL: the blog prefix, the slug, a trailing slash.
pub open spec fn post_url_of(slug: Seq<char>) -> Seq<char> {
    "/blog/"@ + slug + "/"@
}

/// A project's site-relative URL.
pub open spec fn project_url_of(slug: Seq<char>) -> Seq<char> {
    "/projects/"@ + slug + "/"@
}

/// The post record built from a slug and published metadata with a known
/// format.
pub open spec fn post_model_of(slug: Seq<char>, m: PostMetaModel) -> PostModel {
    PostModel {
        title: m.title,
        date: date_part(m.date),
        url: post_url_of(slug),
        slug: slug,
        format: format_of(m.format)->Some_0,
    }
}

/// The project record built from a slug and published metadata with a known
/// format.
pub open spec fn project_model_of(slug: Seq<char>, m: ProjectMetaModel) -> ProjectModel {
    ProjectModel {
        title: m.title,
        filename: m.filename,
        format: format_of(m.format)->Some_0,
        url: project_url_of(slug),
        slug: slug,
        js_file: m.js_file,
    }
}

/// The records of the published items, in discovery order.
pub open spec fn published_posts(items: Seq<(String, PostMetadata)>) -> Seq<PostModel>
    decreases items.len(),
{
    if items.len() == 0 {
        Seq::empty()
    } else {
        let prefix = published_posts(items.drop_last());
        let last = items.last();
        if post_is_published(last.1@) {
            prefix.push(post_model_of(last.0@, last.1@))
        } else {
            prefix
        }
    }
}

/// The records of the published projects, in discovery order.
pub open spec fn published_projects(items: Seq<(String, ProjectMetadata)>) -> Seq<ProjectModel>
    decreases items.len(),
{
    if items.len() == 0 {
        Seq::empty()
    } else {
        let prefix = published_projects(items.drop_last());
        let last = items.last();
        if project_is_published(last.1@) {
            prefix.push(project_model_of(last.0@, last.1@))
        } else {
            prefix
        }
    }
}

/// Every published item declares a format the renderer accepts.
pub open spec fn post_formats_known(items: Seq<(String, PostMetadata)>) -> bool {
    forall|i: int|
        0 <= i < items.len() && post_is_published(items[i].1@) ==> format_of(
            (#[trigger] items[i]).1@.format,
        ) is Some
}

/// Every published project declares a format the renderer accepts.
pub open spec fn project_formats_known(items: Seq<(String, ProjectMetadata)>) -> bool {
    forall|i: int|
        0 <= i < items.len() && project_is_published(items[i].1@) ==> format_of(
            (#[trigger] items[i]).1@.format,
        ) is Some
}

/// Ordered by derived date, most recent first.
pub open spec fn sorted_by_date_desc(ps: Seq<PostModel>) -> bool {
    forall|i: int, j: int| 0 <= i < j < ps.len() ==> lex_le(#[trigger] ps[j].date, #[trigger] ps[i].date)
}

/// The models of a sequence of post records.
pub open spec fn post_views(s: Seq<Post>) -> Seq<PostModel> {
    s.map_values(|p: Post| p@)
}

/// The models of a sequence of project records.
pub open spec fn project_views(s: Seq<Project>) -> Seq<ProjectModel> {
    s.map_values(|p: Project| p@)
}

/// Build a post's URL from its slug.
pub fn post_url(slug: &str) -> (r: String)
    ensures
        r@ == post_url_of(slug@),
{
    let mut s = String::from_str("/blog/");
    s.append(slug);
    s.append("/");
    s
}

/// Build a project's URL from its slug.
pub fn project_url(slug: &str) -> (r: String)
    ensures
        r@ == project_url_of(slug@),
{
    let mut s = String::from_str("/projects/");
    s.append(slug);
    s.append("/");
    s
}

proof fn lemma_published_posts_step(items: Seq<(String, PostMetadata)>, k: int)
    requires
        0 <= k < items.len(),
    ensures
        published_posts(items.take(k + 1)) == if post_is_published(items[k].1@) {
            published_posts(items.take(k)).push(post_model_of(items[k].0@, items[k].1@))
        } else {
            published_posts(items.take(k))
        },
{
    assert(items.take(k + 1).drop_last() =~= items.take(k));
    assert(items.take(k + 1).last() == items[k]);
}

proof fn lemma_published_projects_step(items: Seq<(String, ProjectMetadata)>, k: int)
    requires
        0 <= k < items.len(),
    ensures
        published_projects(items.take(k + 1)) == if project_is_published(items[k].1@) {
            published_projects(items.take(k)).push(project_model_of(items[k].0@, items[k].1@))
        } else {
            published_projects(items.take(k))
        },
{
    assert(items.take(k + 1).drop_last() =~= items.take(k));
    assert(items.take(k + 1).last() == items[k]);
}

/// Discover the final post list: drop unpublished items, derive each date
/// and URL, and order by date, most recent first. Fails with the offending
/// format string when a published item declares an unknown format.
#[verifier::loop_isolation(false)]
pub fn collect_posts(items: &mut Vec<(String, PostMetadata)>) -> (r: Result<Vec<Post>, RenderError>)
    ensures
        match r {
            Result::Ok(posts) => {
                &&& post_formats_known(old(items)@)
                &&& sorted_by_date_desc(post_views(posts@))
                &&& post_views(posts@).to_multiset() == published_posts(old(items)@).to_multiset()
                &&& final(items)@.len() == 0
            },
            Result::Err(e) => {
                &&& !post_formats_known(old(items)@)
                &&& exists|i: int|
                    0 <= i < old(items)@.len() && post_is_published(#[trigger] old(
                        items,
                    )@[i].1@) && format_of(old(items)@[i].1@.format) is None && e@
                        == RenderErrModel::UnknownFormat(old(items)@[i].1@.format)
            },
        },
{
    broadcast use vstd::seq_lib::group_to_multiset_ensures;

    let ghost items0 = items@;
    let mut built: Vec<Post> = Vec::new();
    let ghost mut k: int = 0;
    proof {
        assert(items0.take(0) =~= Seq::<(String, PostMetadata)>::empty());
        assert(items0.skip(0) =~= items0);
    }
    while items.len() > 0
        invariant
            0 <= k <= items0.len(),
            items@ == items0.skip(k),
            post_views(built@) == published_posts(items0.take(k)),
            forall|j: int|
                0 <= j < k && post_is_published(items0[j].1@) ==> format_of(
                    (#[trigger] items0[j]).1@.format,
                ) is Some,
        decreases items.len(),
    {
        proof {
            assert(items0.skip(k)[0] == items0[k]);
            assert(items0.skip(k).skip(1) =~= items0.skip(k + 1));
        }
        let ghost pre_items = items@;
        let (slug, md) = items.remove(0);
        proof {
            assert(pre_items.remove(0) =~= pre_items.skip(1));
            lemma_published_posts_step(items0, k);
        }
        let skip = match md.publish {
            Some(p) => !p,
            None => false,
        };
        if !skip {
            match Format::parse(md.format.as_str()) {
                Some(f) => {
                    let date = get_date_from_iso8601(&md.date);
                    let url = post_url(slug.as_str());
                    let post = Post {
                        title: md.title,
                        date: date,
                        url: url,
                        slug: slug,
                        format: f,
                    };
                    proof {
                        assert(post@ == post_model_of(items0[k].0@, items0[k].1@));
                        assert(post_views(built@.push(post)) =~= post_views(built@).push(post@));
                    }
                    built.push(post);
                },
                None => {
                    proof {
                        assert(post_is_published(items0[k].1@));
                        assert(format_of(items0[k].1@.format) is None);
                    }
                    return Err(RenderError::UnknownFormat(md.format));
                },
            }
        }
        proof {
            k = k + 1;
        }
    }
    proof {
        assert(items0.skip(k).len() == 0);
        assert(k == items0.len());
        assert(items0.take(k) =~= items0);
    }
    // Order by derived date, most recent first: repeatedly move the most
    // recent remaining post over.
    let mut sorted: Vec<Post> = Vec::new();
    while built.len() > 0
        invariant
            post_views(sorted@).to_multiset().add(post_views(built@).to_multiset())
                == published_posts(items0).to_multiset(),
            sorted_by_date_desc(post_views(sorted@)),
            forall|a: int, b: int|
                0 <= a < sorted@.len() && 0 <= b < built@.len() ==> lex_le(
                    (#[trigger] built@[b]).date@,
                    (#[trigger] sorted@[a]).date@,
                ),
        decreases built.len(),
    {
        let mut m: usize = 0;
        let mut kk: usize = 1;
        proof {
            lemma_lex_le_total(built@[0].date@, built@[0].date@);
        }
        while kk < built.len()
            invariant
                m < kk <= built.len(),
                forall|j: int| 0 <= j < kk ==> lex_le((#[trigger] built@[j]).date@, built@[m as int].date@),
            decreases built.len() - kk,
        {
            if str_lex_le(built[m].date.as_str(), built[kk].date.as_str()) {
                proof {
                    assert forall|j: int| 0 <= j < kk + 1 implies lex_le(
                        (#[trigger] built@[j]).date@,
                        built@[kk as int].date@,
                    ) by {
                        if j < kk {
                            lemma_lex_le_transitive(
                                built@[j].date@,
                                built@[m as int].date@,
                                built@[kk as int].date@,
                            );
                        } else {
                            lemma_lex_le_total(built@[j].date@, built@[j].date@);
                        }
                    }
                }
                m = kk;
            } else {
                proof {
                    lemma_lex_le_total(built@[m as int].date@, built@[kk as int].date@);
                }
            }
            kk += 1;
        }
        let ghost pre_built = built@;
        let ghost pre_sorted = sorted@;
        let x = built.remove(m);
        proof {
            assert(pre_built.contains(x)) by {
                assert(pre_built[m as int] == x);
            }
            assert(post_views(pre_built).to_multiset().count(x@) > 0) by {
                assert(post_views(pre_built)[m as int] == x@);
                assert(post_views(pre_built).contains(x@));
            }
            assert(post_views(built@) =~= post_views(pre_built).remove(m as int));
            assert(post_views(sorted@.push(x)) =~= post_views(sorted@).push(x@));
            assert(post_views(pre_sorted).to_multiset().insert(x@).add(
                post_views(pre_built).to_multiset().remove(x@),
            ) =~= post_views(pre_sorted).to_multiset().add(post_views(pre_built).to_multiset()));
        }
        sorted.push(x);
        proof {
            assert forall|a: int, b: int|
                0 <= a < sorted@.len() && 0 <= b < built@.len() implies lex_le(
                (#[trigger] built@[b]).date@,
                (#[trigger] sorted@[a]).date@,
            ) by {
                assert(built@[b] == if b < m as int {
                    pre_built[b]
                } else {
                    pre_built[b + 1]
                });
                if a < sorted@.len() - 1 {
                    assert(sorted@[a] == pre_sorted[a]);
                } else {
                    assert(sorted@[a] == x);
                }
            }
            assert forall|i: int, j: int|
                0 <= i < j < post_views(sorted@).len() implies lex_le(
                #[trigger] post_views(sorted@)[j].date,
                #[trigger] post_views(sorted@)[i].date,
            ) by {
                if j == post_views(sorted@).len() - 1 {
                    assert(sorted@[j] == x);
                    assert(sorted@[i] == pre_sorted[i]);
                }
            }
        }
    }
    proof {
        assert(post_views(built@).to_multiset() =~= Multiset::<PostModel>::empty());
        assert(post_views(sorted@).to_multiset().add(Multiset::<PostModel>::empty())
            =~= post_views(sorted@).to_multiset());
    }
    Ok(sorted)
}

/// Discover the final project list: drop unpublished items and derive each
/// URL; discovery order is kept. Fails with the offending format string
/// when a published item declares an unknown format.
#[verifier::loop_isolation(false)]
pub fn collect_projects(items: &mut Vec<(String, ProjectMetadata)>) -> (r: Result<
    Vec<Project>,
    RenderError,
>)
    ensures
        match r {
            Result::Ok(projects) => {
                &&& project_formats_known(old(items)@)
                &&& project_views(projects@) == published_projects(old(items)@)
                &&& final(items)@.len() == 0
            },
            Result::Err(e) => {
                &&& !project_formats_known(old(items)@)
                &&& exists|i: int|
                    0 <= i < old(items)@.len() && project_is_published(#[trigger] old(
                        items,
                    )@[i].1@) && format_of(old(items)@[i].1@.format) is None && e@
                        == RenderErrModel::UnknownFormat(old(items)@[i].1@.format)
            },
        },
{
    let ghost items0 = items@;
    let mut built: Vec<Project> = Vec::new();
    let ghost mut k: int = 0;
    proof {
        assert(items0.take(0) =~= Seq::<(String, ProjectMetadata)>::empty());
        assert(items0.skip(0) =~= items0);
    }
    while items.len() > 0
        invariant
            0 <= k <= items0.len(),
            items@ == items0.skip(k),
            project_views(built@) == published_projects(items0.take(k)),
            forall|j: int|
                0 <= j < k && project_is_published(items0[j].1@) ==> format_of(
                    (#[trigger] items0[j]).1@.format,
                ) is Some,
        decreases items.len(),
    {
        proof {
            assert(items0.skip(k)[0] == items0[k]);
            assert(items0.skip(k).skip(1) =~= items0.skip(k + 1));
        }
        let ghost pre_items = items@;
        let (slug, md) = items.remove(0);
        proof {
            assert(pre_items.remove(0) =~= pre_items.skip(1));
            lemma_published_projects_step(items0, k);
        }
        let skip = match md.publish {
            Some(p) => !p,
            None => false,
        };
        if !skip {
            match Format::parse(md.format.as_str()) {
                Some(f) => {
                    let url = project_url(slug.as_str());
                    let project = Project {
                        title: md.title,
                        filename: md.filename,
                        format: f,
                        url: url,
                        slug: slug,
                        js_file: md.js_file,
                    };
                    proof {
                        assert(project@ == project_model_of(items0[k].0@, items0[k].1@));
                        assert(project_views(built@.push(project)) =~= project_views(built@).push(
                            project@,
                        ));
                    }
                    built.push(project);
                },
                None => {
                    proof {
                        assert(project_is_published(items0[k].1@));
                        assert(format_of(items0[k].1@.format) is None);
                    }
                    return Err(RenderError::UnknownFormat(md.format));
                },
            }
        }
        proof {
            k = k + 1;
        }
    }
    proof {
        assert(items0.skip(k).len() == 0);
        assert(k == items0.len());
        assert(items0.take(k) =~= items0);
    }
    Ok(built)
}

/// An item with `publish = false` contributes nothing: dropping it from the
/// discovered set leaves the published records exactly as they were.
pub proof fn lemma_unpublished_post_excluded(items: Seq<(String, PostMetadata)>, i: int)
    requires
        0 <= i < items.len(),
        !post_is_published(items[i].1@),
    ensures
        published_posts(items) == published_posts(items.remove(i)),
    decreases items.len(),
{
    if i == items.len() - 1 {
        assert(items.remove(i) =~= items.drop_last());
    } else {
        assert(items.remove(i).drop_last() =~= items.drop_last().remove(i));
        assert(items.remove(i).last() == items.last());
        lemma_unpublished_post_excluded(items.drop_last(), i);
    }
}

/// A published item always contributes its record, and the published
/// records are nothing but the published items' records.
pub proof fn lemma_published_posts_complete(items: Seq<(String, PostMetadata)>)
    ensures
        forall|i: int|
            0 <= i < items.len() && post_is_published(#[trigger] items[i].1@) ==> published_posts(
                items,
            ).contains(post_model_of(items[i].0@, items[i].1@)),
        forall|j: int|
            0 <= j < published_posts(items).len() ==> exists|i: int|
                0 <= i < items.len() && post_is_published(#[trigger] items[i].1@) && (
                #[trigger] published_posts(items)[j]) == post_model_of(items[i].0@, items[i].1@),
    decreases items.len(),
{
    if items.len() > 0 {
        lemma_published_posts_complete(items.drop_last());
        let prefix = published_posts(items.drop_last());
        assert forall|i: int|
            0 <= i < items.len() && post_is_published(#[trigger] items[i].1@) implies published_posts(
            items,
        ).contains(post_model_of(items[i].0@, items[i].1@)) by {
            if i < items.len() - 1 {
                assert(items.drop_last()[i] == items[i]);
                let mdl = post_model_of(items[i].0@, items[i].1@);
                let w = choose|w: int| 0 <= w < prefix.len() && prefix[w] == mdl;
                assert(published_posts(items)[w] == mdl);
            } else {
                assert(items.last() == items[i]);
                assert(published_posts(items).last() == post_model_of(items[i].0@, items[i].1@));
            }
        }
        assert forall|j: int| 0 <= j < published_posts(items).len() implies exists|i: int|
            0 <= i < items.len() && post_is_published(#[trigger] items[i].1@) && (
            #[trigger] published_posts(items)[j]) == post_model_of(items[i].0@, items[i].1@) by {
            if j < prefix.len() {
                let i = choose|i: int|
                    0 <= i < items.drop_last().len() && post_is_published(
                        #[trigger] items.drop_last()[i].1@,
                    ) && prefix[j] == post_model_of(
                        items.drop_last()[i].0@,
                        items.drop_last()[i].1@,
                    );
                assert(items.drop_last()[i] == items[i]);
                assert(published_posts(items)[j] == prefix[j]);
            } else {
                let i = items.len() - 1;
                assert(post_is_published(items[i].1@));
                assert(published_posts(items)[j] == post_model_of(items[i].0@, items[i].1@));
            }
        }
    }
}

/// An unpublished project contributes nothing: dropping it from the
/// discovered set leaves the published records exactly as they were.
pub proof fn lemma_unpublished_project_excluded(items: Seq<(String, ProjectMetadata)>, i: int)
    requires
        0 <= i < items.len(),
        !project_is_published(items[i].1@),
    ensures
        published_projects(items) == published_projects(items.remove(i)),
    decreases items.len(),
{
    if i == items.len() - 1 {
        assert(items.remove(i) =~= items.drop_last());
    } else {
        assert(items.remove(i).drop_last() =~= items.drop_last().remove(i));
        assert(items.remove(i).last() == items.last());
        lemma_unpublished_project_excluded(items.drop_last(), i);
    }
}

/// A published project always contributes its record, and the published
/// records are nothing but the published projects' records.
pub proof fn lemma_published_projects_complete(items: Seq<(String, ProjectMetadata)>)
    ensures
        forall|i: int|
            0 <= i < items.len() && project_is_published(#[trigger] items[i].1@)
                ==> published_projects(items).contains(
                project_model_of(items[i].0@, items[i].1@),
            ),
        forall|j: int|
            0 <= j < published_projects(items).len() ==> exists|i: int|
                0 <= i < items.len() && project_is_published(#[trigger] items[i].1@) && (
                #[trigger] published_projects(items)[j]) == project_model_of(
                    items[i].0@,
                    items[i].1@,
                ),
    decreases items.len(),
{
    if items.len() > 0 {
        lemma_published_projects_complete(items.drop_last());
        let prefix = published_projects(items.drop_last());
        assert forall|i: int|
            0 <= i < items.len() && project_is_published(
                #[trigger] items[i].1@,
            ) implies published_projects(items).contains(
            project_model_of(items[i].0@, items[i].1@),
        ) by {
            if i < items.len() - 1 {
                assert(items.drop_last()[i] == items[i]);
                let mdl = project_model_of(items[i].0@, items[i].1@);
                let w = choose|w: int| 0 <= w < prefix.len() && prefix[w] == mdl;
                assert(published_projects(items)[w] == mdl);
            } else {
                assert(items.last() == items[i]);
                assert(published_projects(items).last() == project_model_of(
                    items[i].0@,
                    items[i].1@,
                ));
            }
        }
        assert forall|j: int| 0 <= j < published_projects(items).len() implies exists|i: int|
            0 <= i < items.len() && project_is_published(#[trigger] items[i].1@) && (
            #[trigger] published_projects(items)[j]) == project_model_of(
                items[i].0@,
                items[i].1@,
            ) by {
            if j < prefix.len() {
                let i = choose|i: int|
                    0 <= i < items.drop_last().len() && project_is_published(
                        #[trigger] items.drop_last()[i].1@,
                    ) && prefix[j] == project_model_of(
                        items.drop_last()[i].0@,
                        items.drop_last()[i].1@,
                    );
                assert(items.drop_last()[i] == items[i]);
                assert(published_projects(items)[j] == prefix[j]);
            } else {
                let i = items.len() - 1;
                assert(project_is_published(items[i].1@));
                assert(published_projects(items)[j] == project_model_of(
                    items[i].0@,
                    items[i].1@,
                ));
            }
        }
    }
}

} // verus!
