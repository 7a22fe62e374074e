use sitegen::compose::{
    render_analytics_snippet, render_blog_index, render_index_page, render_post_page,
    render_project_page, render_projects_index, PageError,
};
use sitegen::content::{collect_posts, Format, Post, PostMetadata, Project};

#[test]
fn analytics_snippet_renders_tracking_id() {
    let out = render_analytics_snippet("ga('create', '{{google_analytics_tracking_id}}');", "UA-1")
        .unwrap();
    assert_eq!(out, "ga('create', 'UA-1');");
}

#[test]
fn index_page_splices_prerendered_partial() {
    let ga = render_analytics_snippet("<script>{{google_analytics_tracking_id}}</script>", "UA-2")
        .unwrap();
    let out = render_index_page("<img src='{{portrait_url}}'>{{{ga_partial}}}", "me.jpg", &ga)
        .unwrap();
    assert_eq!(out, "<img src='me.jpg'><script>UA-2</script>");
}

#[test]
fn post_page_renders_body_and_fields() {
    let post = Post {
        title: String::from("Hello"),
        date: String::from("2022-03-01"),
        url: String::from("/blog/hello/"),
        slug: String::from("hello"),
        format: Format::Markdown,
    };
    let body = String::from("a *b* c\n");
    let out = render_post_page(
        "<h1>{{title}}</h1><em>{{date}}</em>{{{content}}}{{{ga_partial}}}",
        &post,
        &body,
        "<!-- ga -->",
    )
    .unwrap();
    assert_eq!(
        out,
        "<h1>Hello</h1><em>2022-03-01</em><p>a <em>b</em> c</p>\n<!-- ga -->"
    );
}

#[test]
fn post_page_propagates_render_error() {
    let post = Post {
        title: String::from("Hello"),
        date: String::from("2022-03-01"),
        url: String::from("/blog/hello/"),
        slug: String::from("hello"),
        format: Format::Markdown,
    };
    let body = String::from("```zzz\nx\n```\n");
    match render_post_page("{{{content}}}", &post, &body, "") {
        Err(PageError::Render(e)) => {
            assert!(matches!(e, sitegen::renderer::RenderError::UnknownLanguage(_)));
        },
        _ => panic!("expected a render error"),
    }
}

#[test]
fn bad_template_is_a_template_error() {
    let post = Post {
        title: String::from("T"),
        date: String::from("2022-03-01"),
        url: String::from("/blog/t/"),
        slug: String::from("t"),
        format: Format::Html,
    };
    let body = String::from("<p>x</p>");
    match render_post_page("{{#unclosed}}", &post, &body, "") {
        Err(PageError::Template) => {},
        _ => panic!("expected a template error"),
    }
}

#[test]
fn project_page_renders() {
    let project = Project {
        title: String::from("Proj"),
        filename: String::from("body.md"),
        format: Format::Html,
        url: String::from("/projects/proj/"),
        slug: String::from("proj"),
        js_file: None,
    };
    let body = String::from("<p>done</p>");
    let out = render_project_page("{{title}}:{{{content}}}", &project, &body, "").unwrap();
    assert_eq!(out, "Proj:<p>done</p>");
}

#[test]
fn one_published_one_unpublished_gives_one_page() {
    // A content tree with one published and one unpublished post yields
    // exactly one index entry and exactly one rendered post page.
    let mut items = vec![
        (
            String::from("kept"),
            PostMetadata {
                title: String::from("Kept"),
                date: String::from("2022-03-01T09:00:00"),
                format: String::from("markdown"),
                publish: None,
            },
        ),
        (
            String::from("hidden"),
            PostMetadata {
                title: String::from("Hidden"),
                date: String::from("2022-05-01T09:00:00"),
                format: String::from("markdown"),
                publish: Some(false),
            },
        ),
    ];
    let posts = collect_posts(&mut items).unwrap();
    assert_eq!(posts.len(), 1);
    assert_eq!(posts[0].slug, "kept");
    assert_eq!(posts[0].date, "2022-03-01");
    assert_eq!(posts[0].url, "/blog/kept/");

    let ga = render_analytics_snippet("<!-- {{google_analytics_tracking_id}} -->", "UA-3").unwrap();
    let mut pages = Vec::new();
    for post in &posts {
        let body = String::from("the only body\n");
        pages.push(render_post_page("{{title}} {{{content}}}{{{ga_partial}}}", post, &body, &ga).unwrap());
    }
    assert_eq!(pages.len(), 1);
    assert_eq!(pages[0], "Kept <p>the only body</p>\n<!-- UA-3 -->");
}

#[test]
fn blog_index_lists_posts_in_order() {
    let posts = vec![
        Post {
            title: String::from("Newest"),
            date: String::from("2021-06-15"),
            url: String::from("/blog/new/"),
            slug: String::from("new"),
            format: Format::Markdown,
        },
        Post {
            title: String::from("Oldest"),
            date: String::from("2019-12-31"),
            url: String::from("/blog/old/"),
            slug: String::from("old"),
            format: Format::Markdown,
        },
    ];
    let out = render_blog_index(
        "{{#posts}}[{{title}}|{{date}}|{{url}}]{{/posts}}{{{ga_partial}}}",
        &posts,
        "<!-- ga -->",
    )
    .unwrap();
    assert_eq!(out, "[Newest|2021-06-15|/blog/new/][Oldest|2019-12-31|/blog/old/]<!-- ga -->");
}

#[test]
fn blog_index_of_no_posts_is_empty_listing() {
    let posts: Vec<Post> = Vec::new();
    let out = render_blog_index("<ul>{{#posts}}<li>{{title}}</li>{{/posts}}</ul>", &posts, "")
        .unwrap();
    assert_eq!(out, "<ul></ul>");
}

#[test]
fn projects_index_lists_projects_in_order() {
    let projects = vec![
        Project {
            title: String::from("One"),
            filename: String::from("one.md"),
            format: Format::Markdown,
            url: String::from("/projects/one/"),
            slug: String::from("one"),
            js_file: None,
        },
        Project {
            title: String::from("Two"),
            filename: String::from("two.md"),
            format: Format::Html,
            url: String::from("/projects/two/"),
            slug: String::from("two"),
            js_file: Some(String::from("bundle.js")),
        },
    ];
    let out = render_projects_index(
        "{{#projects}}<a href='{{url}}'>{{title}}</a>{{/projects}}{{{ga_partial}}}",
        &projects,
        "<!-- g -->",
    )
    .unwrap();
    assert_eq!(
        out,
        "<a href='/projects/one/'>One</a><a href='/projects/two/'>Two</a><!-- g -->"
    );
}

#[test]
fn implicit_top_tag_is_rejected_not_a_panic() {
    // Interpolating the implicit top value would hand the engine the whole
    // context map, on which it cannot interpolate; the composer refuses the
    // template instead.
    assert!(render_analytics_snippet("{{.}}", "UA-4").is_none());
    assert!(render_analytics_snippet("a {{ . }} b", "UA-4").is_none());
}

#[test]
fn partial_tag_is_rejected() {
    // A partial tag would make the engine read a file from disk; the
    // composer refuses such a template.
    assert!(render_index_page("{{>header}}{{portrait_url}}", "me.jpg", "").is_none());
    assert!(render_index_page("{{=< >=}}<portrait_url>", "me.jpg", "").is_none());
}

#[test]
fn interpolating_the_listing_key_is_rejected() {
    // The listing is a list, which a section iterates but a tag cannot
    // interpolate; the composer refuses a template that tries.
    let posts: Vec<Post> = Vec::new();
    assert!(render_blog_index("{{posts}}", &posts, "").is_none());
    assert!(render_blog_index("{{#posts}}{{title}}{{/posts}}", &posts, "").is_some());
}
