use sitegen::renderer::{render_to_html, RenderError, Renderer};

#[test]
fn bash_code_block_is_highlighted_once() {
    let doc = String::from("# Title\n\n```bash\necho hi\n```\n");
    let out = Renderer::new().render(&doc).unwrap();
    assert!(out.contains("<div class='code'>"));
    assert!(out.contains("</div>"));
    // The highlighted markup is derived from the buffered code text.
    assert!(out.contains("echo"));
    assert!(out.contains("<pre style="));
    // The raw, untransformed code text must not appear a second time.
    assert!(out.matches("echo hi").count() < 2);
    // The default escaped code rendering must not be present.
    assert!(!out.contains("<code>echo"));
}

#[test]
fn unknown_tag_fails_naming_it() {
    let doc = String::from("```zzz\nwhatever\n```\n");
    match Renderer::new().render(&doc) {
        Err(RenderError::UnknownLanguage(tag)) => assert_eq!(tag, "zzz"),
        other => panic!("expected an unknown-language error, got {:?}", other.is_ok()),
    }
}

#[test]
fn no_code_blocks_is_plain_conversion() {
    let doc = String::from("# Hello\n\nSome *emphasis* and a [link](https://example.com).\n");
    let out = Renderer::new().render(&doc).unwrap();
    let mut plain = String::new();
    pulldown_cmark::html::push_html(&mut plain, pulldown_cmark::Parser::new(&doc));
    assert_eq!(out, plain);
}

#[test]
fn untagged_block_uses_the_empty_mapping() {
    let doc = String::from("```\nplain text body\n```\n");
    let out = Renderer::new().render(&doc).unwrap();
    assert!(out.contains("<div class='code'>"));
    assert!(out.contains("</div>"));
}

#[test]
fn back_to_back_blocks_are_independent() {
    let doc = String::from("```bash\nfirst\n```\n\n```rust\nlet second = 2;\n```\n");
    let out = Renderer::new().render(&doc).unwrap();
    assert_eq!(out.matches("<div class='code'>").count(), 2);
    assert_eq!(out.matches("</div>").count(), 2);
    assert!(out.contains("first"));
    assert!(out.contains("second"));
}

#[test]
fn html_format_passes_through() {
    let body = String::from("<p>already html</p>");
    let out = render_to_html(&body, "html").unwrap();
    assert_eq!(out, "<p>already html</p>");
}

#[test]
fn markdown_format_renders() {
    let body = String::from("plain paragraph\n");
    let out = render_to_html(&body, "markdown").unwrap();
    assert_eq!(out, "<p>plain paragraph</p>\n");
}

#[test]
fn unknown_format_is_rejected() {
    let body = String::from("whatever");
    match render_to_html(&body, "latex") {
        Err(RenderError::UnknownFormat(f)) => assert_eq!(f, "latex"),
        other => panic!("expected an unknown-format error, got {:?}", other.is_ok()),
    }
}

#[test]
fn mapped_block_does_not_mask_the_unknown_tag() {
    let doc = String::from("```bash\necho ok\n```\n\n```zzz\nnope\n```\n");
    match Renderer::new().render(&doc) {
        Err(RenderError::UnknownLanguage(tag)) => assert_eq!(tag, "zzz"),
        other => panic!("expected an unknown-language error, got {:?}", other.is_ok()),
    }
}
