use sitegen::content::{
    collect_posts, collect_projects, Format, PostMetadata, ProjectMetadata,
};
use sitegen::renderer::RenderError;

fn post_meta(title: &str, date: &str, format: &str, publish: Option<bool>) -> PostMetadata {
    PostMetadata {
        title: String::from(title),
        date: String::from(date),
        format: String::from(format),
        publish,
    }
}

fn project_meta(title: &str, filename: &str, publish: Option<bool>) -> ProjectMetadata {
    ProjectMetadata {
        title: String::from(title),
        filename: String::from(filename),
        format: String::from("markdown"),
        publish,
        js_file: None,
    }
}

#[test]
fn posts_sorted_by_date_descending() {
    let mut items = vec![
        (String::from("a"), post_meta("A", "2020-01-01T08:00:00", "markdown", None)),
        (String::from("b"), post_meta("B", "2021-06-15T08:00:00", "markdown", None)),
        (String::from("c"), post_meta("C", "2019-12-31T08:00:00", "markdown", None)),
    ];
    let posts = collect_posts(&mut items).unwrap();
    let dates: Vec<&str> = posts.iter().map(|p| p.date.as_str()).collect();
    assert_eq!(dates, vec!["2021-06-15", "2020-01-01", "2019-12-31"]);
}

#[test]
fn unpublished_post_never_appears() {
    let mut items = vec![
        (String::from("kept"), post_meta("Kept", "2022-03-01T00:00:00", "markdown", None)),
        (String::from("dropped"), post_meta("Dropped", "2022-04-01T00:00:00", "markdown", Some(false))),
        (String::from("explicit"), post_meta("Explicit", "2022-02-01T00:00:00", "markdown", Some(true))),
    ];
    let posts = collect_posts(&mut items).unwrap();
    assert_eq!(posts.len(), 2);
    assert!(posts.iter().all(|p| p.slug != "dropped"));
    assert!(posts.iter().any(|p| p.slug == "kept"));
    assert!(posts.iter().any(|p| p.slug == "explicit"));
}

#[test]
fn post_url_is_prefix_slug_slash() {
    let mut items = vec![
        (String::from("my-post"), post_meta("T", "2022-03-01T00:00:00", "html", None)),
    ];
    let posts = collect_posts(&mut items).unwrap();
    assert_eq!(posts[0].url, "/blog/my-post/");
    assert_eq!(posts[0].date, "2022-03-01");
    assert_eq!(posts[0].format, Format::Html);
}

#[test]
fn post_unknown_format_aborts() {
    let mut items = vec![
        (String::from("bad"), post_meta("T", "2022-03-01T00:00:00", "latex", None)),
    ];
    match collect_posts(&mut items) {
        Err(RenderError::UnknownFormat(f)) => assert_eq!(f, "latex"),
        other => panic!("expected an unknown-format error, got ok={}", other.is_ok()),
    }
}

#[test]
fn unpublished_post_bad_format_is_ignored() {
    let mut items = vec![
        (String::from("dropped"), post_meta("T", "2022-03-01T00:00:00", "latex", Some(false))),
    ];
    let posts = collect_posts(&mut items).unwrap();
    assert_eq!(posts.len(), 0);
}

#[test]
fn projects_keep_discovery_order() {
    let mut items = vec![
        (String::from("one"), project_meta("One", "body.md", None)),
        (String::from("two"), project_meta("Two", "body.md", Some(false))),
        (String::from("three"), project_meta("Three", "index.html", Some(true))),
    ];
    let projects = collect_projects(&mut items).unwrap();
    let slugs: Vec<&str> = projects.iter().map(|p| p.slug.as_str()).collect();
    assert_eq!(slugs, vec!["one", "three"]);
    assert_eq!(projects[0].url, "/projects/one/");
    assert_eq!(projects[1].filename, "index.html");
}

#[test]
fn project_js_file_is_carried() {
    let mut items = vec![
        (
            String::from("app"),
            ProjectMetadata {
                title: String::from("App"),
                filename: String::from("app.md"),
                format: String::from("markdown"),
                publish: None,
                js_file: Some(String::from("bundle.js")),
            },
        ),
    ];
    let projects = collect_projects(&mut items).unwrap();
    assert_eq!(projects[0].js_file.as_deref(), Some("bundle.js"));
}

#[test]
fn format_parse_accepts_exactly_two() {
    assert_eq!(Format::parse("markdown"), Some(Format::Markdown));
    assert_eq!(Format::parse("html"), Some(Format::Html));
    assert_eq!(Format::parse("Markdown"), None);
    assert_eq!(Format::parse(""), None);
    assert_eq!(Format::Markdown.as_str(), "markdown");
    assert_eq!(Format::Html.as_str(), "html");
}
