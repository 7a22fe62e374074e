//! The Markdown renderer: a two-state machine over the parsed event stream.
//!
//! In the `Normal` state every event passes through unchanged. A code-block
//! opener resolves its language tag through the language map, emits a
//! literal open tag for the code container and enters the `InCodeBlock`
//! state with an empty buffer. While inside a block, text is diverted into
//! the buffer and suppressed, so raw code never reaches the output twice.
//! The block terminator runs the buffer through the highlighter, emits the
//! highlighted markup followed by the container's close tag, and returns to
//! `Normal`. Event order is otherwise preserved exactly.

use vstd::prelude::*;
use crate::events::{
    EvModel, MdEvent, events_to_html, html_of, lemma_remove_front, lemma_views_of_push,
    lemma_views_of_skip, md_events_of, parse_markdown, views_of,
};
use crate::highlight::{bundled_grammar, highlight_code, highlighted_html_of};
use crate::langmap::{grammar_for, lookup_language};
use crate::strutil::str_eq;

verus! {

/// Why a build cannot continue: a code-block tag absent from the language
/// map, a grammar name the highlighting engine does not accept, or a content
/// format other than `markdown` / `html`. Each error carries the offending
/// tag, grammar or format so the build fails with its identity.
#[derive(Debug)]
pub enum RenderError {
    UnknownLanguage(String),
    GrammarUnavailable(String),
    UnknownFormat(String),
}

/// The model of a `RenderError`: the carried string as a character sequence.
pub enum RenderErrModel {
    UnknownLanguage(Seq<char>),
    GrammarUnavailable(Seq<char>),
    UnknownFormat(Seq<char>),
}

impl View for RenderError {
    type V = RenderErrModel;

    open spec fn view(&self) -> RenderErrModel {
        match self {
            RenderError::UnknownLanguage(t) => RenderErrModel::UnknownLanguage(t@),
            RenderError::GrammarUnavailable(g) => RenderErrModel::GrammarUnavailable(g@),
            RenderError::UnknownFormat(f) => RenderErrModel::UnknownFormat(f@),
        }
    }
}

/// The literal open tag of the code container.
pub open spec fn code_open() -> Seq<char> {
    "<div class='code'>"@
}

/// The literal close tag of the code container.
pub open spec fn code_close() -> Seq<char> {
    "</div>"@
}

/// Prefix the output of a successful run; an error passes through.
pub open spec fn prepend_ok(
    prefix: Seq<EvModel>,
    r: Result<Seq<EvModel>, RenderErrModel>,
) -> Result<Seq<EvModel>, RenderErrModel> {
    match r {
        Result::Ok(out) => Result::Ok(prefix + out),
        Result::Err(e) => Result::Err(e),
    }
}

/// The state machine over the event sequence. `in_code` tells whether a
/// code block is open; `grammar` is the grammar resolved for it; `buf` holds
/// the code text diverted so far. The buffer is non-empty only while
/// `in_code` holds and is consumed exactly once, at the block's end. For a
/// grammar of the bundled set the highlighter always succeeds (the
/// highlight wrapper's contract), so the block's end consumes the buffer
/// unconditionally there; the language map resolves only such grammars.
pub open spec fn machine(
    evs: Seq<EvModel>,
    in_code: bool,
    grammar: Seq<char>,
    buf: Seq<char>,
) -> Result<Seq<EvModel>, RenderErrModel>
    decreases evs.len(),
{
    if evs.len() == 0 {
        Result::Ok(Seq::empty())
    } else {
        let rest = evs.skip(1);
        match evs[0] {
            EvModel::CodeStart(tag) => match grammar_for(tag) {
                Option::Some(g) => prepend_ok(
                    seq![EvModel::HtmlLit(code_open())],
                    machine(rest, true, g, Seq::empty()),
                ),
                Option::None => Result::Err(RenderErrModel::UnknownLanguage(tag)),
            },
            EvModel::CodeEnd => if in_code {
                if bundled_grammar(grammar) {
                    prepend_ok(
                        seq![
                            EvModel::HtmlLit(
                                highlighted_html_of(buf, grammar)->Some_0 + code_close(),
                            ),
                        ],
                        machine(rest, false, grammar, Seq::empty()),
                    )
                } else {
                    match highlighted_html_of(buf, grammar) {
                        Option::Some(h) => prepend_ok(
                            seq![EvModel::HtmlLit(h + code_close())],
                            machine(rest, false, grammar, Seq::empty()),
                        ),
                        Option::None => Result::Err(RenderErrModel::GrammarUnavailable(grammar)),
                    }
                }
            } else {
                prepend_ok(seq![EvModel::CodeEnd], machine(rest, false, grammar, buf))
            },
            EvModel::Text(t) => if in_code {
                machine(rest, true, grammar, buf + t)
            } else {
                prepend_ok(seq![EvModel::Text(t)], machine(rest, false, grammar, buf))
            },
            ev => prepend_ok(seq![ev], machine(rest, in_code, grammar, buf)),
        }
    }
}

/// The machine started in the `Normal` state on a whole document.
pub open spec fn machine_run(evs: Seq<EvModel>) -> Result<Seq<EvModel>, RenderErrModel> {
    machine(evs, false, Seq::empty(), Seq::empty())
}

/// Every grammar the language map can return is one the bundled default
/// grammar set defines.
proof fn lemma_table_grammar_bundled(tag: Seq<char>)
    ensures
        grammar_for(tag) matches Option::Some(g) ==> bundled_grammar(g),
{
}

proof fn lemma_prepend_ok_assoc(
    a: Seq<EvModel>,
    b: Seq<EvModel>,
    r: Result<Seq<EvModel>, RenderErrModel>,
)
    ensures
        prepend_ok(a, prepend_ok(b, r)) == prepend_ok(a + b, r),
{
    match r {
        Result::Ok(out) => {
            assert(a + (b + out) =~= (a + b) + out);
        },
        Result::Err(_) => {},
    }
}

/// Run the state machine over a parsed event sequence.
#[verifier::loop_isolation(false)]
fn transform_events(events: &mut Vec<MdEvent>) -> (r: Result<Vec<MdEvent>, RenderError>)
    ensures
        match r {
            Result::Ok(out) => machine_run(views_of(old(events)@)) == Result::<_,
                RenderErrModel>::Ok(views_of(out@)),
            Result::Err(e) => machine_run(views_of(old(events)@)) == Result::<Seq<EvModel>,
                _>::Err(e@),
        },
        !has_unknown_tag(views_of(old(events)@)) ==> r is Ok,
{
    let ghost evs0 = views_of(events@);
    let mut out: Vec<MdEvent> = Vec::new();
    let mut in_code = false;
    let mut grammar = String::new();
    let mut buf = String::new();
    let ghost mut pos: int = 0;
    proof {
        assert(views_of(out@) =~= Seq::<EvModel>::empty());
        assert(Seq::<EvModel>::empty() + evs0 =~= evs0);
        match machine(evs0, false, Seq::empty(), Seq::empty()) {
            Result::Ok(o) => {
                assert(Seq::<EvModel>::empty() + o =~= o);
            },
            Result::Err(_) => {},
        }
    }
    while events.len() > 0
        invariant
            machine(evs0, false, Seq::empty(), Seq::empty()) == prepend_ok(
                views_of(out@),
                machine(views_of(events@), in_code, grammar@, buf@),
            ),
            0 <= pos <= evs0.len(),
            views_of(events@) == evs0.skip(pos),
            in_code ==> bundled_grammar(grammar@),
        decreases events.len(),
    {
        let ghost pre_events = events@;
        let ghost pre_out = views_of(out@);
        let ghost pre_in_code = in_code;
        let ghost pre_grammar = grammar@;
        let ghost pre_buf = buf@;
        let ev = events.remove(0);
        proof {
            lemma_remove_front(pre_events);
            lemma_views_of_skip(pre_events, 1);
            assert(views_of(pre_events)[0] == ev@);
            assert(views_of(pre_events).skip(1) == views_of(events@));
            assert(evs0.skip(pos)[0] == evs0[pos]);
            assert(evs0.skip(pos).skip(1) =~= evs0.skip(pos + 1));
        }
        match ev {
            MdEvent::CodeStart(tag) => {
                match lookup_language(tag.as_str()) {
                    Some(g) => {
                        let lit = String::from_str("<div class='code'>");
                        proof {
                            lemma_views_of_push(out@, MdEvent::HtmlLit(lit));
                            lemma_table_grammar_bundled(tag@);
                        }
                        out.push(MdEvent::HtmlLit(lit));
                        in_code = true;
                        grammar = g;
                        buf = String::new();
                        proof {
                            assert(machine(views_of(pre_events), pre_in_code, pre_grammar, pre_buf)
                                == prepend_ok(
                                seq![EvModel::HtmlLit(code_open())],
                                machine(views_of(events@), true, grammar@, buf@),
                            ));
                            lemma_prepend_ok_assoc(
                                pre_out,
                                seq![EvModel::HtmlLit(code_open())],
                                machine(views_of(events@), true, grammar@, buf@),
                            );
                            assert(pre_out + seq![EvModel::HtmlLit(code_open())] =~= views_of(
                                out@,
                            ));
                        }
                    },
                    None => {
                        proof {
                            assert(machine(views_of(pre_events), pre_in_code, pre_grammar, pre_buf)
                                == Result::<Seq<EvModel>, _>::Err(
                                RenderErrModel::UnknownLanguage(tag@),
                            ));
                            assert(evs0[pos] == ev@);
                            assert(0 <= pos < evs0.len() && ((#[trigger] evs0[pos])
                                matches EvModel::CodeStart(t) && grammar_for(t) is None));
                            assert(has_unknown_tag(evs0));
                        }
                        return Err(RenderError::UnknownLanguage(tag));
                    },
                }
            },
            MdEvent::CodeEnd => {
                if in_code {
                    match highlight_code(buf.as_str(), grammar.as_str()) {
                        Some(h) => {
                            let mut lit = h;
                            lit.append("</div>");
                            proof {
                                lemma_views_of_push(out@, MdEvent::HtmlLit(lit));
                            }
                            out.push(MdEvent::HtmlLit(lit));
                            in_code = false;
                            buf = String::new();
                            proof {
                                assert(machine(
                                    views_of(pre_events),
                                    pre_in_code,
                                    pre_grammar,
                                    pre_buf,
                                ) == prepend_ok(
                                    seq![EvModel::HtmlLit(lit@)],
                                    machine(views_of(events@), false, grammar@, buf@),
                                ));
                                lemma_prepend_ok_assoc(
                                    pre_out,
                                    seq![EvModel::HtmlLit(lit@)],
                                    machine(views_of(events@), false, grammar@, buf@),
                                );
                                assert(pre_out + seq![EvModel::HtmlLit(lit@)] =~= views_of(out@));
                            }
                        },
                        None => {
                            // Unreachable: the open transition only admits the
                            // table's grammars, which the engine accepts.
                            proof {
                                assert(bundled_grammar(grammar@));
                                assert(false);
                            }
                            return Err(RenderError::GrammarUnavailable(grammar));
                        },
                    }
                } else {
                    proof {
                        lemma_views_of_push(out@, MdEvent::CodeEnd);
                        lemma_prepend_ok_assoc(
                            pre_out,
                            seq![EvModel::CodeEnd],
                            machine(views_of(events@), in_code, grammar@, buf@),
                        );
                        assert(pre_out + seq![EvModel::CodeEnd] =~= pre_out.push(
                            EvModel::CodeEnd,
                        ));
                    }
                    out.push(MdEvent::CodeEnd);
                }
            },
            MdEvent::Text(t) => {
                if in_code {
                    buf.append(t.as_str());
                } else {
                    proof {
                        lemma_views_of_push(out@, MdEvent::Text(t));
                        lemma_prepend_ok_assoc(
                            pre_out,
                            seq![EvModel::Text(t@)],
                            machine(views_of(events@), in_code, grammar@, buf@),
                        );
                        assert(pre_out + seq![EvModel::Text(t@)] =~= pre_out.push(
                            EvModel::Text(t@),
                        ));
                    }
                    out.push(MdEvent::Text(t));
                }
            },
            MdEvent::HtmlLit(h) => {
                proof {
                    lemma_views_of_push(out@, MdEvent::HtmlLit(h));
                    lemma_prepend_ok_assoc(
                        pre_out,
                        seq![EvModel::HtmlLit(h@)],
                        machine(views_of(events@), in_code, grammar@, buf@),
                    );
                    assert(pre_out + seq![EvModel::HtmlLit(h@)] =~= pre_out.push(
                        EvModel::HtmlLit(h@),
                    ));
                }
                out.push(MdEvent::HtmlLit(h));
            },
            MdEvent::Other(e) => {
                proof {
                    lemma_views_of_push(out@, MdEvent::Other(e));
                    lemma_prepend_ok_assoc(
                        pre_out,
                        seq![EvModel::Other(e)],
                        machine(views_of(events@), in_code, grammar@, buf@),
                    );
                    assert(pre_out + seq![EvModel::Other(e)] =~= pre_out.push(EvModel::Other(e)));
                }
                out.push(MdEvent::Other(e));
            },
        }
        proof {
            pos = pos + 1;
        }
    }
    proof {
        assert(views_of(events@).len() == 0);
        assert(machine(views_of(events@), in_code, grammar@, buf@) == Result::<_,
            RenderErrModel>::Ok(Seq::<EvModel>::empty()));
        assert(views_of(out@) + Seq::<EvModel>::empty() =~= views_of(out@));
    }
    Ok(out)
}

/// What rendering a Markdown document produces: the serialized HTML of the
/// transformed event stream, or the first error the machine hits.
pub open spec fn markdown_result(text: Seq<char>) -> Result<Seq<char>, RenderErrModel> {
    match machine_run(md_events_of(text)) {
        Result::Ok(out) => Result::Ok(html_of(out)),
        Result::Err(e) => Result::Err(e),
    }
}

/// The Markdown renderer.
pub struct Renderer {}

impl Renderer {
    pub fn new() -> (r: Renderer) {
        Renderer {  }
    }

    /// Render a Markdown document to an HTML fragment, replacing each fenced
    /// code block by a code container holding syntax-highlighted markup.
    /// Rendering succeeds whenever every code block's language tag is in the
    /// language map; an unmapped tag always fails the render
    /// (`lemma_unknown_tag_render_fails`), and the error names the first
    /// unmapped tag (`lemma_first_unknown_tag_render`).
    pub fn render(self, markdown_text: &String) -> (r: Result<String, RenderError>)
        ensures
            match markdown_result(markdown_text@) {
                Result::Ok(h) => r matches Result::Ok(s) && s@ == h,
                Result::Err(e) => r matches Result::Err(err) && err@ == e,
            },
            !has_unknown_tag(md_events_of(markdown_text@)) ==> r is Ok,
    {
        let mut events = parse_markdown(markdown_text.as_str());
        match transform_events(&mut events) {
            Ok(out) => Ok(events_to_html(out)),
            Err(e) => Err(e),
        }
    }
}

/// What rendering a body in a given format produces: Markdown is rendered,
/// raw HTML is passed through unchanged, and any other format is rejected
/// with its name.
pub open spec fn render_result(content: Seq<char>, format: Seq<char>) -> Result<
    Seq<char>,
    RenderErrModel,
> {
    if format == "markdown"@ {
        markdown_result(content)
    } else if format == "html"@ {
        Result::Ok(content)
    } else {
        Result::Err(RenderErrModel::UnknownFormat(format))
    }
}

/// Render a content body according to its declared format.
pub fn render_to_html(content_string: &String, format: &str) -> (r: Result<String, RenderError>)
    ensures
        match render_result(content_string@, format@) {
            Result::Ok(h) => r matches Result::Ok(s) && s@ == h,
            Result::Err(e) => r matches Result::Err(err) && err@ == e,
        },
        format@ == "markdown"@ && !has_unknown_tag(md_events_of(content_string@)) ==> r is Ok,
{
    if str_eq(format, "markdown") {
        Renderer::new().render(content_string)
    } else if str_eq(format, "html") {
        Ok(content_string.clone())
    } else {
        Err(RenderError::UnknownFormat(format.to_owned()))
    }
}

/// No event of the stream opens or closes a code block.
pub open spec fn no_code_events(evs: Seq<EvModel>) -> bool {
    forall|i: int|
        0 <= i < evs.len() ==> !((#[trigger] evs[i]) matches EvModel::CodeStart(_)) && !(evs[i]
            matches EvModel::CodeEnd)
}

proof fn lemma_machine_identity_rec(evs: Seq<EvModel>, grammar: Seq<char>, buf: Seq<char>)
    requires
        no_code_events(evs),
    ensures
        machine(evs, false, grammar, buf) == Result::<_, RenderErrModel>::Ok(evs),
    decreases evs.len(),
{
    if evs.len() == 0 {
        assert(Seq::<EvModel>::empty() =~= evs);
    } else {
        let rest = evs.skip(1);
        assert forall|i: int| 0 <= i < rest.len() implies !((#[trigger] rest[i])
            matches EvModel::CodeStart(_)) && !(rest[i] matches EvModel::CodeEnd) by {
            assert(rest[i] == evs[i + 1]);
        }
        lemma_machine_identity_rec(rest, grammar, buf);
        assert(!(evs[0] matches EvModel::CodeStart(_)));
        assert(!(evs[0] matches EvModel::CodeEnd));
        assert(seq![evs[0]] + rest =~= evs);
    }
}

/// The code-block transformation is a no-op on a stream without code blocks:
/// the machine passes every event through unchanged and cannot fail.
pub proof fn lemma_machine_identity(evs: Seq<EvModel>)
    requires
        no_code_events(evs),
    ensures
        machine_run(evs) == Result::<_, RenderErrModel>::Ok(evs),
{
    lemma_machine_identity_rec(evs, Seq::empty(), Seq::empty());
}

/// Round trip: rendering a document whose event stream has no code blocks
/// yields exactly the plain Markdown-to-HTML serialization of that stream.
pub proof fn lemma_render_no_code_blocks(text: Seq<char>)
    requires
        no_code_events(md_events_of(text)),
    ensures
        markdown_result(text) == Result::<_, RenderErrModel>::Ok(html_of(md_events_of(text))),
{
    lemma_machine_identity(md_events_of(text));
}

/// Whether some event of the stream opens a code block whose tag is not in
/// the language map.
pub open spec fn has_unknown_tag(evs: Seq<EvModel>) -> bool {
    exists|i: int|
        0 <= i < evs.len() && ((#[trigger] evs[i]) matches EvModel::CodeStart(tag)
            && grammar_for(tag) is None)
}

proof fn lemma_unknown_tag_fails_rec(
    evs: Seq<EvModel>,
    in_code: bool,
    grammar: Seq<char>,
    buf: Seq<char>,
)
    requires
        has_unknown_tag(evs),
    ensures
        machine(evs, in_code, grammar, buf) is Err,
    decreases evs.len(),
{
    let i = choose|i: int|
        0 <= i < evs.len() && ((#[trigger] evs[i]) matches EvModel::CodeStart(tag)
            && grammar_for(tag) is None);
    if i == 0 {
    } else {
        let rest = evs.skip(1);
        assert(rest[i - 1] == evs[i]);
        assert(has_unknown_tag(rest));
        match evs[0] {
            EvModel::CodeStart(tag) => {
                match grammar_for(tag) {
                    Option::Some(g) => {
                        lemma_unknown_tag_fails_rec(rest, true, g, Seq::empty());
                    },
                    Option::None => {},
                }
            },
            EvModel::CodeEnd => {
                if in_code {
                    if bundled_grammar(grammar) {
                        lemma_unknown_tag_fails_rec(rest, false, grammar, Seq::empty());
                    } else {
                        match highlighted_html_of(buf, grammar) {
                            Option::Some(h) => {
                                lemma_unknown_tag_fails_rec(rest, false, grammar, Seq::empty());
                            },
                            Option::None => {},
                        }
                    }
                } else {
                    lemma_unknown_tag_fails_rec(rest, false, grammar, buf);
                }
            },
            EvModel::Text(t) => {
                if in_code {
                    lemma_unknown_tag_fails_rec(rest, true, grammar, buf + t);
                } else {
                    lemma_unknown_tag_fails_rec(rest, false, grammar, buf);
                }
            },
            _ => {
                lemma_unknown_tag_fails_rec(rest, in_code, grammar, buf);
            },
        }
    }
}

/// No silent fallback: a stream that opens a code block with a tag absent
/// from the language map never renders; the machine always fails on it.
pub proof fn lemma_unknown_tag_fails(evs: Seq<EvModel>)
    requires
        has_unknown_tag(evs),
    ensures
        machine_run(evs) is Err,
{
    lemma_unknown_tag_fails_rec(evs, false, Seq::empty(), Seq::empty());
}

/// No silent fallback, end to end: a document whose event stream opens a
/// code block with an unmapped tag never renders to HTML.
pub proof fn lemma_unknown_tag_render_fails(text: Seq<char>)
    requires
        has_unknown_tag(md_events_of(text)),
    ensures
        markdown_result(text) is Err,
{
    lemma_unknown_tag_fails(md_events_of(text));
}

proof fn lemma_first_unknown_tag_rec(
    evs: Seq<EvModel>,
    i: int,
    tag: Seq<char>,
    in_code: bool,
    grammar: Seq<char>,
    buf: Seq<char>,
)
    requires
        0 <= i < evs.len(),
        evs[i] == EvModel::CodeStart(tag),
        grammar_for(tag) is None,
        forall|j: int|
            0 <= j < i ==> ((#[trigger] evs[j]) matches EvModel::CodeStart(t) ==> grammar_for(
                t,
            ) is Some),
        in_code ==> bundled_grammar(grammar),
    ensures
        machine(evs, in_code, grammar, buf) == Result::<Seq<EvModel>, _>::Err(
            RenderErrModel::UnknownLanguage(tag),
        ),
    decreases evs.len(),
{
    if i == 0 {
    } else {
        let rest = evs.skip(1);
        assert(rest[i - 1] == evs[i]);
        assert forall|j: int|
            0 <= j < i - 1 implies ((#[trigger] rest[j]) matches EvModel::CodeStart(t)
            ==> grammar_for(t) is Some) by {
            assert(rest[j] == evs[j + 1]);
        }
        match evs[0] {
            EvModel::CodeStart(t0) => {
                assert(evs[0] matches EvModel::CodeStart(t) ==> grammar_for(t) is Some);
                let g = grammar_for(t0)->Some_0;
                lemma_table_grammar_bundled(t0);
                lemma_first_unknown_tag_rec(rest, i - 1, tag, true, g, Seq::empty());
            },
            EvModel::CodeEnd => {
                if in_code {
                    lemma_first_unknown_tag_rec(rest, i - 1, tag, false, grammar, Seq::empty());
                } else {
                    lemma_first_unknown_tag_rec(rest, i - 1, tag, false, grammar, buf);
                }
            },
            EvModel::Text(t) => {
                if in_code {
                    lemma_first_unknown_tag_rec(rest, i - 1, tag, true, grammar, buf + t);
                } else {
                    lemma_first_unknown_tag_rec(rest, i - 1, tag, false, grammar, buf);
                }
            },
            _ => {
                lemma_first_unknown_tag_rec(rest, i - 1, tag, in_code, grammar, buf);
            },
        }
    }
}

/// An identified failure: when every code-block opener before position `i`
/// carries a mapped tag and the opener at `i` does not, the machine fails
/// with an unknown-language error naming exactly that first unmapped tag.
/// Mapped blocks before it render and do not mask the error.
pub proof fn lemma_first_unknown_tag(evs: Seq<EvModel>, i: int, tag: Seq<char>)
    requires
        0 <= i < evs.len(),
        evs[i] == EvModel::CodeStart(tag),
        grammar_for(tag) is None,
        forall|j: int|
            0 <= j < i ==> ((#[trigger] evs[j]) matches EvModel::CodeStart(t) ==> grammar_for(
                t,
            ) is Some),
    ensures
        machine_run(evs) == Result::<Seq<EvModel>, _>::Err(RenderErrModel::UnknownLanguage(tag)),
{
    lemma_first_unknown_tag_rec(evs, i, tag, false, Seq::empty(), Seq::empty());
}

/// The same, end to end: rendering a document whose first unmapped
/// code-block tag stands at position `i` of its event stream fails with an
/// unknown-language error naming that tag.
pub proof fn lemma_first_unknown_tag_render(text: Seq<char>, i: int, tag: Seq<char>)
    requires
        0 <= i < md_events_of(text).len(),
        md_events_of(text)[i] == EvModel::CodeStart(tag),
        grammar_for(tag) is None,
        forall|j: int|
            0 <= j < i ==> ((#[trigger] md_events_of(text)[j]) matches EvModel::CodeStart(t)
                ==> grammar_for(t) is Some),
    ensures
        markdown_result(text) == Result::<Seq<char>, RenderErrModel>::Err(
            RenderErrModel::UnknownLanguage(tag),
        ),
{
    lemma_first_unknown_tag(md_events_of(text), i, tag);
}

/// One fenced code block with a known tag: the machine emits exactly the
/// container's open tag and then the highlighted markup with the close tag
/// appended. The raw code text is consumed by the highlighter and passes
/// through nowhere else, so it cannot appear a second time.
pub proof fn lemma_single_code_block(tag: Seq<char>, code: Seq<char>)
    requires
        grammar_for(tag) is Some,
    ensures
        machine_run(seq![EvModel::CodeStart(tag), EvModel::Text(code), EvModel::CodeEnd])
            == Result::<_, RenderErrModel>::Ok(
            seq![
                EvModel::HtmlLit(code_open()),
                EvModel::HtmlLit(
                    highlighted_html_of(code, grammar_for(tag)->Some_0)->Some_0 + code_close(),
                ),
            ],
        ),
{
    let g = grammar_for(tag)->Some_0;
    lemma_table_grammar_bundled(tag);
    let h = highlighted_html_of(code, g)->Some_0;
    let evs = seq![EvModel::CodeStart(tag), EvModel::Text(code), EvModel::CodeEnd];
    let s1 = seq![EvModel::Text(code), EvModel::CodeEnd];
    let s2 = seq![EvModel::CodeEnd];
    assert(evs.skip(1) =~= s1);
    assert(s1.skip(1) =~= s2);
    assert(s2.skip(1) =~= Seq::<EvModel>::empty());
    assert(Seq::<char>::empty() + code =~= code);
    assert(machine(s2, true, g, code) == prepend_ok(
        seq![EvModel::HtmlLit(h + code_close())],
        machine(Seq::<EvModel>::empty(), false, g, Seq::empty()),
    ));
    assert(seq![EvModel::HtmlLit(h + code_close())] + Seq::<EvModel>::empty() =~= seq![
        EvModel::HtmlLit(h + code_close()),
    ]);
    assert(machine(s1, true, g, Seq::empty()) == machine(s2, true, g, code));
    assert(machine_run(evs) == prepend_ok(
        seq![EvModel::HtmlLit(code_open())],
        machine(s1, true, g, Seq::empty()),
    ));
    assert(seq![EvModel::HtmlLit(code_open())] + seq![EvModel::HtmlLit(h + code_close())] =~= seq![
        EvModel::HtmlLit(code_open()),
        EvModel::HtmlLit(h + code_close()),
    ]);
}

} // verus!
