//! Markdown-aware incremental renderer.
//!
//! Text arrives in deltas that may split a multi-character marker (`**`,
//! ``` ``` ```, a heading run) anywhere. Classification is therefore based on
//! accumulated per-line state plus a short pending buffer of not-yet-classified
//! marker characters, never on per-call state: the same total text produces
//! the same styled output however it was cut into deltas.
use vstd::prelude::*;

use crate::json::lit_at;
use crate::json::spec_lit_at;
use crate::text::str_to_chars;

verus! {

/// Foreground color of one emitted character.
#[derive(Debug, Clone, Copy, PartialEq, Eq, Structural)]
pub enum Color {
    Reset,
    Magenta,
    DarkMagenta,
    Cyan,
    White,
    Yellow,
    Blue,
    DarkBlue,
    Green,
}

/// An active markup context on the renderer's stack.
#[derive(Debug, Clone, Copy, PartialEq, Eq, Structural)]
pub enum MarkdownState {
    Normal,
    Heading(u8),
    Bold,
    Italic,
    CodeBlock,
    InlineCode,
    UnorderedList,
    OrderedList,
    Link,
    LinkUrl,
    Blockquote,
}

/// Contexts that close at the end of the line they opened on.
pub open spec fn is_line_scoped(m: MarkdownState) -> bool {
    m is Heading || m is UnorderedList || m is OrderedList || m is Blockquote
}

fn is_line_scoped_exec(m: &MarkdownState) -> (r: bool)
    ensures
        r == is_line_scoped(*m),
{
    match m {
        MarkdownState::Heading(_) => true,
        MarkdownState::UnorderedList => true,
        MarkdownState::OrderedList => true,
        MarkdownState::Blockquote => true,
        _ => false,
    }
}

/// Color of a heading of the given level; levels beyond three share one style.
pub open spec fn heading_color(level: u8) -> Color {
    if level == 1 {
        Color::Magenta
    } else if level == 2 {
        Color::DarkMagenta
    } else if level == 3 {
        Color::Cyan
    } else {
        Color::White
    }
}

fn heading_color_exec(level: u8) -> (r: Color)
    ensures
        r == heading_color(level),
{
    if level == 1 {
        Color::Magenta
    } else if level == 2 {
        Color::DarkMagenta
    } else if level == 3 {
        Color::Cyan
    } else {
        Color::White
    }
}

/// Style of a context.
pub open spec fn style_of_state(m: MarkdownState) -> Color {
    match m {
        MarkdownState::Normal => Color::Reset,
        MarkdownState::Heading(level) => heading_color(level),
        MarkdownState::Bold => Color::Yellow,
        MarkdownState::Italic => Color::Blue,
        MarkdownState::CodeBlock => Color::Yellow,
        MarkdownState::InlineCode => Color::Yellow,
        MarkdownState::UnorderedList => Color::Green,
        MarkdownState::OrderedList => Color::Green,
        MarkdownState::Link => Color::Blue,
        MarkdownState::LinkUrl => Color::DarkBlue,
        MarkdownState::Blockquote => Color::Cyan,
    }
}

/// Style at the top of the stack; the base context when the stack is empty.
pub open spec fn style_of(stack: Seq<MarkdownState>) -> Color {
    if stack.len() == 0 {
        Color::Reset
    } else {
        style_of_state(stack.last())
    }
}

/// The renderer's classification state: the context stack, whether the
/// current line has held only whitespace so far, and the pending run of
/// marker characters not yet classified.
pub struct RenderStateView {
    pub stack: Seq<MarkdownState>,
    pub line_blank: bool,
    pub pending: Seq<char>,
}

/// Pop every line-scoped context off the top of the stack.
pub open spec fn pop_line_scoped(stack: Seq<MarkdownState>) -> Seq<MarkdownState>
    decreases stack.len(),
{
    if stack.len() > 0 && is_line_scoped(stack.last()) {
        pop_line_scoped(stack.drop_last())
    } else {
        stack
    }
}

/// Push the context, or pop it if it is already on top: markers toggle spans.
pub open spec fn toggle(stack: Seq<MarkdownState>, m: MarkdownState) -> Seq<MarkdownState> {
    if stack.len() > 0 && stack.last() == m {
        stack.drop_last()
    } else {
        stack.push(m)
    }
}

/// Step for a character that begins no deferred marker and has no pending run
/// to resolve.
pub open spec fn spec_dispatch(st: RenderStateView, c: char) -> (RenderStateView, Seq<
    (char, Color),
>) {
    let stack = st.stack;
    if c == '*' || c == '`' || c == ']' {
        (RenderStateView { pending: seq![c], ..st }, Seq::empty())
    } else if c == '#' && st.line_blank {
        (RenderStateView { pending: seq![c], ..st }, Seq::empty())
    } else if '1' <= c && c <= '9' && st.line_blank {
        (RenderStateView { pending: seq![c], ..st }, Seq::empty())
    } else if c == '[' {
        (
            RenderStateView { stack: stack.push(MarkdownState::Link), line_blank: false, ..st },
            seq![(c, Color::Blue)],
        )
    } else if c == '(' {
        if stack.len() > 0 && stack.last() is LinkUrl {
            (RenderStateView { line_blank: false, ..st }, seq![(c, Color::DarkBlue)])
        } else {
            (RenderStateView { line_blank: false, ..st }, seq![(c, style_of(stack))])
        }
    } else if c == ')' {
        if stack.len() > 0 && stack.last() is LinkUrl {
            (
                RenderStateView { stack: stack.drop_last(), line_blank: false, ..st },
                seq![(c, Color::DarkBlue)],
            )
        } else {
            (RenderStateView { line_blank: false, ..st }, seq![(c, style_of(stack))])
        }
    } else if c == '>' && st.line_blank {
        (
            RenderStateView {
                stack: stack.push(MarkdownState::Blockquote),
                line_blank: false,
                ..st
            },
            seq![(c, Color::Cyan)],
        )
    } else if c == '\n' {
        (
            RenderStateView { stack: pop_line_scoped(stack), line_blank: true, ..st },
            seq![(c, style_of(stack))],
        )
    } else if c == ' ' || c == '\t' || c == '\r' {
        (st, seq![(c, style_of(stack))])
    } else {
        (RenderStateView { line_blank: false, ..st }, seq![(c, style_of(stack))])
    }
}

/// Resolve the pending marker run using `c` as the lookahead, then classify
/// `c` itself; or extend the run when `c` continues it.
pub open spec fn spec_step(st: RenderStateView, c: char) -> (RenderStateView, Seq<(char, Color)>) {
    let p = st.pending;
    let cleared = RenderStateView { pending: Seq::empty(), ..st };
    if p.len() == 0 {
        spec_dispatch(st, c)
    } else if p[0] == '*' {
        if c == '*' {
            // a double marker toggles bold
            (
                RenderStateView {
                    stack: toggle(st.stack, MarkdownState::Bold),
                    line_blank: false,
                    pending: Seq::empty(),
                    ..st
                },
                seq![('*', Color::Yellow), ('*', Color::Yellow)],
            )
        } else if c == ' ' && st.line_blank {
            // a lone star at line start followed by a space opens a list
            let st1 = RenderStateView {
                stack: st.stack.push(MarkdownState::UnorderedList),
                line_blank: false,
                pending: Seq::empty(),
                ..st
            };
            let (st2, out) = spec_dispatch(st1, c);
            (st2, seq![('*', Color::Green)] + out)
        } else {
            // a lone star toggles italic
            let st1 = RenderStateView {
                stack: toggle(st.stack, MarkdownState::Italic),
                line_blank: false,
                pending: Seq::empty(),
                ..st
            };
            let (st2, out) = spec_dispatch(st1, c);
            (st2, seq![('*', Color::Blue)] + out)
        }
    } else if p[0] == '`' {
        if c == '`' {
            if p.len() == 1 {
                (RenderStateView { pending: seq!['`', '`'], ..st }, Seq::empty())
            } else {
                // three backticks toggle a fenced code block
                (
                    RenderStateView {
                        stack: toggle(st.stack, MarkdownState::CodeBlock),
                        line_blank: false,
                        pending: Seq::empty(),
                        ..st
                    },
                    seq![('`', Color::Yellow), ('`', Color::Yellow), ('`', Color::Yellow)],
                )
            }
        } else if p.len() == 1 {
            // a single backtick toggles inline code
            let st1 = RenderStateView {
                stack: toggle(st.stack, MarkdownState::InlineCode),
                line_blank: false,
                pending: Seq::empty(),
                ..st
            };
            let (st2, out) = spec_dispatch(st1, c);
            (st2, seq![('`', Color::Yellow)] + out)
        } else {
            // two backticks: inline code toggled on and off again
            let st1 = RenderStateView { line_blank: false, pending: Seq::empty(), ..st };
            let (st2, out) = spec_dispatch(st1, c);
            (st2, seq![('`', Color::Yellow), ('`', Color::Yellow)] + out)
        }
    } else if p[0] == ']' {
        // close the link text; an immediate '(' opens the link URL
        let stack1 = if st.stack.len() > 0 && st.stack.last() is Link {
            let popped = st.stack.drop_last();
            if c == '(' {
                popped.push(MarkdownState::LinkUrl)
            } else {
                popped
            }
        } else {
            st.stack
        };
        let st1 = RenderStateView { stack: stack1, line_blank: false, pending: Seq::empty(), ..st };
        let (st2, out) = spec_dispatch(st1, c);
        (st2, seq![(']', Color::Blue)] + out)
    } else if p[0] == '#' {
        if c == '#' {
            (RenderStateView { pending: p.push('#'), ..st }, Seq::empty())
        } else {
            // the run length is the heading level
            let level: u8 = if p.len() < 256 {
                p.len() as u8
            } else {
                255
            };
            let st1 = RenderStateView {
                stack: st.stack.push(MarkdownState::Heading(level)),
                line_blank: false,
                pending: Seq::empty(),
                ..st
            };
            let (st2, out) = spec_dispatch(st1, c);
            (st2, Seq::new(p.len(), |i: int| ('#', heading_color(level))) + out)
        }
    } else if '1' <= p[0] && p[0] <= '9' {
        if p.len() == 1 && c == '.' {
            (RenderStateView { pending: p.push('.'), ..st }, Seq::empty())
        } else if p.len() == 2 && c == ' ' {
            // digit, dot, space: an ordered-list item opens
            let st1 = RenderStateView {
                stack: st.stack.push(MarkdownState::OrderedList),
                line_blank: false,
                pending: Seq::empty(),
                ..st
            };
            let (st2, out) = spec_dispatch(st1, c);
            (st2, seq![(p[0], Color::Green), ('.', Color::Green)] + out)
        } else {
            // not a list marker after all: the digits were plain text
            let st1 = RenderStateView { line_blank: false, pending: Seq::empty(), ..st };
            let (st2, out) = spec_dispatch(st1, c);
            (st2, Seq::new(p.len(), |i: int| (p[i], style_of(st.stack))) + out)
        }
    } else {
        spec_dispatch(cleared, c)
    }
}

/// Fold [`spec_step`] over a text.
pub open spec fn spec_render_text(st: RenderStateView, text: Seq<char>) -> (RenderStateView, Seq<
    (char, Color),
>)
    decreases text.len(),
{
    if text.len() == 0 {
        (st, Seq::empty())
    } else {
        let (st1, out1) = spec_step(st, text[0]);
        let (st2, out2) = spec_render_text(st1, text.skip(1));
        (st2, out1 + out2)
    }
}

/// The state a fresh renderer starts in: one base context, at line start.
pub open spec fn spec_render_init() -> RenderStateView {
    RenderStateView {
        stack: seq![MarkdownState::Normal],
        line_blank: true,
        pending: Seq::empty(),
    }
}

/// State and cumulative output after rendering a whole text from the start.
pub open spec fn spec_render_all(text: Seq<char>) -> (RenderStateView, Seq<(char, Color)>) {
    spec_render_text(spec_render_init(), text)
}

/// Rendering distributes over concatenation: feeding `a` then `b` is feeding
/// `a + b`. This is why marker recognition survives delta boundaries.
pub proof fn lemma_render_text_append(st: RenderStateView, a: Seq<char>, b: Seq<char>)
    ensures
        spec_render_text(st, a + b).0 == spec_render_text(spec_render_text(st, a).0, b).0,
        spec_render_text(st, a + b).1 == spec_render_text(st, a).1 + spec_render_text(
            spec_render_text(st, a).0,
            b,
        ).1,
    decreases a.len(),
{
    if a.len() == 0 {
        assert(a + b =~= b);
        assert(spec_render_text(st, a).1 + spec_render_text(st, b).1 =~= spec_render_text(
            st,
            b,
        ).1);
    } else {
        assert((a + b)[0] == a[0]);
        let (st1, out1) = spec_step(st, a[0]);
        assert((a + b).skip(1) =~= a.skip(1) + b);
        lemma_render_text_append(st1, a.skip(1), b);
        let (st2, out2) = spec_render_text(st1, a.skip(1));
        let (st3, out3) = spec_render_text(st2, b);
        assert(out1 + (out2 + out3) =~= (out1 + out2) + out3);
    }
}

/// Where the extraction stage stands inside the accumulating document.
#[derive(Debug, Clone, Copy, PartialEq, Eq, Structural)]
pub enum ExtractPhase {
    /// Still searching for the response-field marker.
    Seeking,
    /// Marker found; waiting for the opening quote of the value.
    Starting,
    /// Inside the value, copying characters out.
    InValue,
    /// Inside the value, just after a backslash.
    InEscape,
}

/// Extraction state: the phase and the text searched so far for the marker.
pub struct ExtractStateView {
    pub phase: ExtractPhase,
    pub seek: Seq<char>,
}

/// Whether the searched text now ends with the response-field marker.
pub open spec fn seek_hit(s: Seq<char>) -> bool {
    s.len() >= "\"response\":"@.len() && spec_lit_at(
        s,
        s.len() - "\"response\":"@.len(),
        "\"response\":"@,
    )
}

/// One character of the extraction stage: find the marker, skip to the opening
/// quote, then copy the value out, resolving recognized escapes and ending at
/// the first unescaped quote.
pub open spec fn spec_extract_step(st: ExtractStateView, c: char) -> (ExtractStateView, Seq<char>) {
    match st.phase {
        ExtractPhase::Seeking => {
            let s2 = st.seek.push(c);
            if seek_hit(s2) {
                (ExtractStateView { phase: ExtractPhase::Starting, seek: Seq::empty() }, Seq::empty())
            } else {
                (ExtractStateView { phase: ExtractPhase::Seeking, seek: s2 }, Seq::empty())
            }
        },
        ExtractPhase::Starting => {
            if c == '"' {
                (ExtractStateView { phase: ExtractPhase::InValue, ..st }, Seq::empty())
            } else {
                (st, Seq::empty())
            }
        },
        ExtractPhase::InValue => {
            if c == '\\' {
                (ExtractStateView { phase: ExtractPhase::InEscape, ..st }, Seq::empty())
            } else if c == '"' {
                (ExtractStateView { phase: ExtractPhase::Seeking, seek: Seq::empty() }, Seq::empty())
            } else {
                (st, seq![c])
            }
        },
        ExtractPhase::InEscape => {
            let back = ExtractStateView { phase: ExtractPhase::InValue, ..st };
            if c == 'n' {
                (back, seq!['\n'])
            } else if c == '"' {
                (back, seq!['"'])
            } else if c == '\\' {
                (back, seq!['\\'])
            } else {
                (back, seq!['\\', c])
            }
        },
    }
}

/// Fold [`spec_extract_step`] over a chunk.
pub open spec fn spec_extract_text(st: ExtractStateView, text: Seq<char>) -> (ExtractStateView, Seq<
    char,
>)
    decreases text.len(),
{
    if text.len() == 0 {
        (st, Seq::empty())
    } else {
        let (st1, out1) = spec_extract_step(st, text[0]);
        let (st2, out2) = spec_extract_text(st1, text.skip(1));
        (st2, out1 + out2)
    }
}

/// The extraction stage of a fresh renderer.
pub open spec fn spec_extract_init() -> ExtractStateView {
    ExtractStateView { phase: ExtractPhase::Seeking, seek: Seq::empty() }
}

/// Extraction distributes over concatenation of chunks.
pub proof fn lemma_extract_text_append(st: ExtractStateView, a: Seq<char>, b: Seq<char>)
    ensures
        spec_extract_text(st, a + b).0 == spec_extract_text(spec_extract_text(st, a).0, b).0,
        spec_extract_text(st, a + b).1 == spec_extract_text(st, a).1 + spec_extract_text(
            spec_extract_text(st, a).0,
            b,
        ).1,
    decreases a.len(),
{
    if a.len() == 0 {
        assert(a + b =~= b);
        assert(spec_extract_text(st, a).1 + spec_extract_text(st, b).1 =~= spec_extract_text(
            st,
            b,
        ).1);
    } else {
        assert((a + b)[0] == a[0]);
        let (st1, out1) = spec_extract_step(st, a[0]);
        assert((a + b).skip(1) =~= a.skip(1) + b);
        lemma_extract_text_append(st1, a.skip(1), b);
        let (st2, out2) = spec_extract_text(st1, a.skip(1));
        let (st3, out3) = spec_extract_text(st2, b);
        assert(out1 + (out2 + out3) =~= (out1 + out2) + out3);
    }
}

fn emit(out: &mut Vec<(char, Color)>, c: char, col: Color)
    ensures
        final(out)@ == old(out)@.push((c, col)),
{
    out.push((c, col));
}

fn style_of_exec(stack: &Vec<MarkdownState>) -> (r: Color)
    ensures
        r == style_of(stack@),
{
    if stack.len() == 0 {
        Color::Reset
    } else {
        match stack[stack.len() - 1] {
            MarkdownState::Normal => Color::Reset,
            MarkdownState::Heading(level) => heading_color_exec(level),
            MarkdownState::Bold => Color::Yellow,
            MarkdownState::Italic => Color::Blue,
            MarkdownState::CodeBlock => Color::Yellow,
            MarkdownState::InlineCode => Color::Yellow,
            MarkdownState::UnorderedList => Color::Green,
            MarkdownState::OrderedList => Color::Green,
            MarkdownState::Link => Color::Blue,
            MarkdownState::LinkUrl => Color::DarkBlue,
            MarkdownState::Blockquote => Color::Cyan,
        }
    }
}

fn toggle_exec(stack: &mut Vec<MarkdownState>, m: MarkdownState)
    ensures
        final(stack)@ == toggle(old(stack)@, m),
{
    let n = stack.len();
    if n > 0 && stack[n - 1] == m {
        let _ = stack.pop();
        proof {
            assert(stack@ =~= old(stack)@.drop_last());
        }
    } else {
        stack.push(m);
    }
}

fn pop_line_scoped_exec(stack: &mut Vec<MarkdownState>)
    ensures
        final(stack)@ == pop_line_scoped(old(stack)@),
{
    loop
        invariant
            pop_line_scoped(old(stack)@) == pop_line_scoped(stack@),
        decreases stack@.len(),
    {
        let n = stack.len();
        if n > 0 && is_line_scoped_exec(&stack[n - 1]) {
            let ghost prev = stack@;
            let _ = stack.pop();
            proof {
                assert(stack@ =~= prev.drop_last());
            }
        } else {
            return ;
        }
    }
}

/// The view of the renderer's classification state held in separate fields.
pub open spec fn rs_view(stack: Seq<MarkdownState>, line_blank: bool, pending: Seq<char>) -> RenderStateView {
    RenderStateView { stack, line_blank, pending }
}

fn exec_dispatch(
    stack: &mut Vec<MarkdownState>,
    line_blank: &mut bool,
    pending: &mut Vec<char>,
    c: char,
    out: &mut Vec<(char, Color)>,
)
    requires
        old(pending)@.len() == 0,
    ensures
        ({
            let (st2, o) = spec_dispatch(
                rs_view(old(stack)@, *old(line_blank), old(pending)@),
                c,
            );
            rs_view(final(stack)@, *final(line_blank), final(pending)@) == st2 && final(out)@ == old(
                out,
            )@ + o
        }),
{
    let ghost st0 = rs_view(old(stack)@, *old(line_blank), old(pending)@);
    if c == '*' || c == '`' || c == ']' || (c == '#' && *line_blank) || ('1' <= c && c <= '9'
        && *line_blank) {
        pending.push(c);
        proof {
            assert(pending@ =~= seq![c]);
            assert(out@ =~= old(out)@ + Seq::<(char, Color)>::empty());
        }
    } else if c == '[' {
        emit(out, c, Color::Blue);
        stack.push(MarkdownState::Link);
        *line_blank = false;
        proof {
            assert(out@ =~= old(out)@ + seq![(c, Color::Blue)]);
        }
    } else if c == '(' {
        let n = stack.len();
        if n > 0 && matches!(stack[n - 1], MarkdownState::LinkUrl) {
            emit(out, c, Color::DarkBlue);
            proof {
                assert(out@ =~= old(out)@ + seq![(c, Color::DarkBlue)]);
            }
        } else {
            let col = style_of_exec(stack);
            emit(out, c, col);
            proof {
                assert(out@ =~= old(out)@ + seq![(c, style_of(stack@))]);
            }
        }
        *line_blank = false;
    } else if c == ')' {
        let n = stack.len();
        if n > 0 && matches!(stack[n - 1], MarkdownState::LinkUrl) {
            emit(out, c, Color::DarkBlue);
            let _ = stack.pop();
            proof {
                assert(stack@ =~= old(stack)@.drop_last());
                assert(out@ =~= old(out)@ + seq![(c, Color::DarkBlue)]);
            }
        } else {
            let col = style_of_exec(stack);
            emit(out, c, col);
            proof {
                assert(out@ =~= old(out)@ + seq![(c, style_of(stack@))]);
            }
        }
        *line_blank = false;
    } else if c == '>' && *line_blank {
        emit(out, c, Color::Cyan);
        stack.push(MarkdownState::Blockquote);
        *line_blank = false;
        proof {
            assert(out@ =~= old(out)@ + seq![(c, Color::Cyan)]);
        }
    } else if c == '\n' {
        let col = style_of_exec(stack);
        emit(out, c, col);
        pop_line_scoped_exec(stack);
        *line_blank = true;
        proof {
            assert(out@ =~= old(out)@ + seq![(c, style_of(old(stack)@))]);
        }
    } else {
        let col = style_of_exec(stack);
        emit(out, c, col);
        if !(c == ' ' || c == '\t' || c == '\r') {
            *line_blank = false;
        }
        proof {
            assert(out@ =~= old(out)@ + seq![(c, style_of(stack@))]);
        }
    }
}

#[verifier::spinoff_prover]
fn exec_step(
    stack: &mut Vec<MarkdownState>,
    line_blank: &mut bool,
    pending: &mut Vec<char>,
    c: char,
    out: &mut Vec<(char, Color)>,
)
    ensures
        ({
            let (st2, o) = spec_step(rs_view(old(stack)@, *old(line_blank), old(pending)@), c);
            rs_view(final(stack)@, *final(line_blank), final(pending)@) == st2 && final(out)@ == old(
                out,
            )@ + o
        }),
{
    let ghost st0 = rs_view(old(stack)@, *old(line_blank), old(pending)@);
    let plen = pending.len();
    if plen == 0 {
        exec_dispatch(stack, line_blank, pending, c, out);
        return ;
    }
    let p0 = pending[0];
    if p0 == '*' {
        if c == '*' {
            emit(out, '*', Color::Yellow);
            emit(out, '*', Color::Yellow);
            toggle_exec(stack, MarkdownState::Bold);
            *line_blank = false;
            pending.clear();
            proof {
                assert(pending@ =~= Seq::<char>::empty());
                assert(out@ =~= old(out)@ + seq![('*', Color::Yellow), ('*', Color::Yellow)]);
            }
        } else if c == ' ' && *line_blank {
            emit(out, '*', Color::Green);
            stack.push(MarkdownState::UnorderedList);
            *line_blank = false;
            pending.clear();
            proof {
                assert(pending@ =~= Seq::<char>::empty());
            }
            let ghost mid_out = out@;
            exec_dispatch(stack, line_blank, pending, c, out);
            proof {
                let (st1m, o) = spec_step(st0, c);
                assert(out@ =~= old(out)@ + o);
            }
        } else {
            toggle_exec(stack, MarkdownState::Italic);
            *line_blank = false;
            pending.clear();
            emit(out, '*', Color::Blue);
            proof {
                assert(pending@ =~= Seq::<char>::empty());
            }
            exec_dispatch(stack, line_blank, pending, c, out);
            proof {
                let (st1m, o) = spec_step(st0, c);
                assert(out@ =~= old(out)@ + o);
            }
        }
    } else if p0 == '`' {
        if c == '`' {
            if plen == 1 {
                pending.push('`');
                proof {
                    assert(pending@ =~= seq!['`', '`']);
                    assert(out@ =~= old(out)@ + Seq::<(char, Color)>::empty());
                }
            } else {
                emit(out, '`', Color::Yellow);
                emit(out, '`', Color::Yellow);
                emit(out, '`', Color::Yellow);
                toggle_exec(stack, MarkdownState::CodeBlock);
                *line_blank = false;
                pending.clear();
                proof {
                    assert(pending@ =~= Seq::<char>::empty());
                    assert(out@ =~= old(out)@ + seq![
                        ('`', Color::Yellow),
                        ('`', Color::Yellow),
                        ('`', Color::Yellow),
                    ]);
                }
            }
        } else if plen == 1 {
            toggle_exec(stack, MarkdownState::InlineCode);
            *line_blank = false;
            pending.clear();
            emit(out, '`', Color::Yellow);
            proof {
                assert(pending@ =~= Seq::<char>::empty());
            }
            exec_dispatch(stack, line_blank, pending, c, out);
            proof {
                let (st1m, o) = spec_step(st0, c);
                assert(out@ =~= old(out)@ + o);
            }
        } else {
            *line_blank = false;
            pending.clear();
            emit(out, '`', Color::Yellow);
            emit(out, '`', Color::Yellow);
            proof {
                assert(pending@ =~= Seq::<char>::empty());
            }
            exec_dispatch(stack, line_blank, pending, c, out);
            proof {
                let (st1m, o) = spec_step(st0, c);
                assert(out@ =~= old(out)@ + o);
            }
        }
    } else if p0 == ']' {
        let n = stack.len();
        if n > 0 && matches!(stack[n - 1], MarkdownState::Link) {
            let _ = stack.pop();
            proof {
                assert(stack@ =~= old(stack)@.drop_last());
            }
            if c == '(' {
                stack.push(MarkdownState::LinkUrl);
            }
        }
        *line_blank = false;
        pending.clear();
        emit(out, ']', Color::Blue);
        proof {
            assert(pending@ =~= Seq::<char>::empty());
        }
        exec_dispatch(stack, line_blank, pending, c, out);
        proof {
            let (st1m, o) = spec_step(st0, c);
            assert(out@ =~= old(out)@ + o);
        }
    } else if p0 == '#' {
        if c == '#' {
            pending.push('#');
            proof {
                assert(out@ =~= old(out)@ + Seq::<(char, Color)>::empty());
            }
        } else {
            let level: u8 = if plen < 256 {
                plen as u8
            } else {
                255
            };
            let col = heading_color_exec(level);
            let mut i: usize = 0;
            let ghost base = out@;
            while i < plen
                invariant
                    0 <= i <= plen,
                    col == heading_color(level),
                    out@ == base + Seq::new(i as nat, |j: int| ('#', heading_color(level))),
                decreases plen - i,
            {
                emit(out, '#', col);
                proof {
                    assert(out@ =~= base + Seq::new((i + 1) as nat, |j: int| ('#', heading_color(level))));
                }
                i += 1;
            }
            stack.push(MarkdownState::Heading(level));
            *line_blank = false;
            pending.clear();
            proof {
                assert(pending@ =~= Seq::<char>::empty());
                assert(Seq::new(plen as nat, |j: int| ('#', heading_color(level))) =~= Seq::new(
                    st0.pending.len(),
                    |j: int| ('#', heading_color(level)),
                ));
            }
            exec_dispatch(stack, line_blank, pending, c, out);
            proof {
                let (st1m, o) = spec_step(st0, c);
                assert(out@ =~= old(out)@ + o);
            }
        }
    } else if '1' <= p0 && p0 <= '9' {
        // a pending digit, alone or followed by its dot
        if plen == 1 && c == '.' {
            pending.push('.');
            proof {
                assert(pending@ =~= st0.pending.push('.'));
                assert(out@ =~= old(out)@ + Seq::<(char, Color)>::empty());
            }
        } else if plen == 2 && c == ' ' {
            emit(out, p0, Color::Green);
            emit(out, '.', Color::Green);
            stack.push(MarkdownState::OrderedList);
            *line_blank = false;
            pending.clear();
            proof {
                assert(pending@ =~= Seq::<char>::empty());
            }
            exec_dispatch(stack, line_blank, pending, c, out);
            proof {
                let (st1m, o) = spec_step(st0, c);
                assert(out@ =~= old(out)@ + o);
            }
        } else {
            let col = style_of_exec(stack);
            let mut i: usize = 0;
            let ghost base = out@;
            let ghost pv = st0.pending;
            while i < plen
                invariant
                    0 <= i <= plen,
                    plen == pending@.len(),
                    pending@ == pv,
                    col == style_of(stack@),
                    stack@ == st0.stack,
                    out@ == base + Seq::new(i as nat, |j: int| (pv[j], style_of(st0.stack))),
                decreases plen - i,
            {
                let pc = pending[i];
                emit(out, pc, col);
                proof {
                    assert(out@ =~= base + Seq::new((i + 1) as nat, |j: int| (pv[j], style_of(st0.stack))));
                }
                i += 1;
            }
            *line_blank = false;
            pending.clear();
            proof {
                assert(pending@ =~= Seq::<char>::empty());
            }
            exec_dispatch(stack, line_blank, pending, c, out);
            proof {
                let (st1m, o) = spec_step(st0, c);
                assert(Seq::new(pv.len(), |j: int| (pv[j], style_of(st0.stack))) =~= Seq::new(
                    st0.pending.len(),
                    |i: int| (st0.pending[i], style_of(st0.stack)),
                ));
                assert(out@ =~= old(out)@ + o);
            }
        }
    } else {
        pending.clear();
        proof {
            assert(pending@ =~= Seq::<char>::empty());
        }
        exec_dispatch(stack, line_blank, pending, c, out);
        proof {
            let (st1m, o) = spec_step(st0, c);
            assert(out@ =~= old(out)@ + o);
        }
    }
}

fn exec_extract_step(phase: &mut ExtractPhase, seek: &mut Vec<char>, c: char, ex: &mut Vec<char>)
    ensures
        ({
            let (st2, o) = spec_extract_step(
                ExtractStateView { phase: *old(phase), seek: old(seek)@ },
                c,
            );
            *final(phase) == st2.phase && final(seek)@ == st2.seek && final(ex)@ == old(ex)@ + o
        }),
{
    let ghost st0 = ExtractStateView { phase: *phase, seek: seek@ };
    match *phase {
        ExtractPhase::Seeking => {
            seek.push(c);
            let n = seek.len();
            let hit = if n >= 11 {
                proof {
                    reveal_strlit("\"response\":");
                }
                lit_at(seek, n - 11, "\"response\":")
            } else {
                proof {
                    reveal_strlit("\"response\":");
                }
                false
            };
            if hit {
                *phase = ExtractPhase::Starting;
                seek.clear();
                proof {
                    assert(seek@ =~= Seq::<char>::empty());
                }
            }
            proof {
                assert(ex@ =~= old(ex)@ + Seq::<char>::empty());
            }
        },
        ExtractPhase::Starting => {
            if c == '"' {
                *phase = ExtractPhase::InValue;
            }
            proof {
                assert(ex@ =~= old(ex)@ + Seq::<char>::empty());
            }
        },
        ExtractPhase::InValue => {
            if c == '\\' {
                *phase = ExtractPhase::InEscape;
                proof {
                    assert(ex@ =~= old(ex)@ + Seq::<char>::empty());
                }
            } else if c == '"' {
                *phase = ExtractPhase::Seeking;
                seek.clear();
                proof {
                    assert(seek@ =~= Seq::<char>::empty());
                    assert(ex@ =~= old(ex)@ + Seq::<char>::empty());
                }
            } else {
                ex.push(c);
                proof {
                    assert(ex@ =~= old(ex)@ + seq![c]);
                }
            }
        },
        ExtractPhase::InEscape => {
            *phase = ExtractPhase::InValue;
            if c == 'n' {
                ex.push('\n');
                proof {
                    assert(ex@ =~= old(ex)@ + seq!['\n']);
                }
            } else if c == '"' {
                ex.push('"');
                proof {
                    assert(ex@ =~= old(ex)@ + seq!['"']);
                }
            } else if c == '\\' {
                ex.push('\\');
                proof {
                    assert(ex@ =~= old(ex)@ + seq!['\\']);
                }
            } else {
                ex.push('\\');
                ex.push(c);
                proof {
                    assert(ex@ =~= old(ex)@ + seq!['\\', c]);
                }
            }
        },
    }
}

/// Incremental markdown renderer for one streaming session.
///
/// [`process`](Self::process) consumes plain-text deltas and returns styled
/// characters; [`process_chunk`](Self::process_chunk) additionally runs the
/// extraction stage first, pulling the response field's value out of an
/// accumulating document and rendering only that. State survives across calls,
/// so markers split between deltas are recognized; the styled output is a
/// function of the concatenated input alone.
pub struct MarkdownStreamRenderer {
    phase: ExtractPhase,
    seek: Vec<char>,
    stack: Vec<MarkdownState>,
    line_blank: bool,
    pending: Vec<char>,
    chunks: Ghost<Seq<char>>,
    fed: Ghost<Seq<char>>,
}

impl MarkdownStreamRenderer {
    /// Raw document characters handed to `process_chunk` so far.
    pub closed spec fn chunk_history(&self) -> Seq<char> {
        self.chunks@
    }

    /// Plain text that has reached the markdown stage so far.
    pub closed spec fn text_history(&self) -> Seq<char> {
        self.fed@
    }

    /// Everything the markdown stage has emitted.
    pub open spec fn emitted(&self) -> Seq<(char, Color)> {
        spec_render_all(self.text_history()).1
    }

    /// The state is exactly what folding the histories from a fresh start
    /// gives: nothing depends on how the input was cut into calls.
    pub closed spec fn wf(&self) -> bool {
        &&& ExtractStateView { phase: self.phase, seek: self.seek@ } == spec_extract_text(
            spec_extract_init(),
            self.chunks@,
        ).0
        &&& rs_view(self.stack@, self.line_blank, self.pending@) == spec_render_all(self.fed@).0
    }

    /// A fresh renderer at the base context.
    pub fn new() -> (r: Self)
        ensures
            r.wf(),
            r.chunk_history() == Seq::<char>::empty(),
            r.text_history() == Seq::<char>::empty(),
    {
        let mut stack: Vec<MarkdownState> = Vec::new();
        stack.push(MarkdownState::Normal);
        let r = MarkdownStreamRenderer {
            phase: ExtractPhase::Seeking,
            seek: Vec::new(),
            stack,
            line_blank: true,
            pending: Vec::new(),
            chunks: Ghost(Seq::empty()),
            fed: Ghost(Seq::empty()),
        };
        proof {
            assert(r.stack@ =~= seq![MarkdownState::Normal]);
        }
        r
    }

    /// Render one plain-text delta, returning the styled characters it
    /// produces. The cumulative output is exactly the rendering of the
    /// concatenated text fed so far.
    pub fn process(&mut self, text: &str) -> (r: Vec<(char, Color)>)
        requires
            old(self).wf(),
        ensures
            final(self).wf(),
            final(self).chunk_history() == old(self).chunk_history(),
            final(self).text_history() == old(self).text_history() + text@,
            final(self).emitted() == old(self).emitted() + r@,
    {
        let cs = str_to_chars(text);
        let mut out: Vec<(char, Color)> = Vec::new();
        let ghost fed0 = self.fed@;
        let ghost st0 = spec_render_all(fed0).0;
        let n = cs.len();
        let mut i: usize = 0;
        proof {
            assert(cs@.take(0) =~= Seq::<char>::empty());
            assert(spec_render_text(st0, Seq::<char>::empty()).1 =~= Seq::<(char, Color)>::empty());
            assert(out@ =~= Seq::<(char, Color)>::empty());
        }
        while i < n
            invariant
                0 <= i <= n,
                n == cs@.len(),
                spec_render_all(fed0).0 == st0,
                rs_view(self.stack@, self.line_blank, self.pending@) == spec_render_text(
                    st0,
                    cs@.take(i as int),
                ).0,
                out@ == spec_render_text(st0, cs@.take(i as int)).1,
                self.phase == old(self).phase,
                self.seek@ == old(self).seek@,
                self.chunks@ == old(self).chunks@,
                self.fed@ == fed0,
            decreases n - i,
        {
            let c = cs[i];
            let ghost pre = cs@.take(i as int);
            exec_step(&mut self.stack, &mut self.line_blank, &mut self.pending, c, &mut out);
            proof {
                assert(pre + seq![c] =~= cs@.take(i + 1));
                assert(seq![c].skip(1) =~= Seq::<char>::empty());
                reveal_with_fuel(spec_render_text, 3);
                lemma_render_text_append(st0, pre, seq![c]);
                assert(spec_render_text(spec_render_text(st0, pre).0, seq![c]).1
                    =~= spec_step(spec_render_text(st0, pre).0, c).1 + Seq::<(char, Color)>::empty());
                assert(spec_step(spec_render_text(st0, pre).0, c).1 + Seq::<
                    (char, Color),
                >::empty() =~= spec_step(spec_render_text(st0, pre).0, c).1);
                assert(rs_view(self.stack@, self.line_blank, self.pending@) == spec_render_text(
                    st0,
                    cs@.take(i + 1),
                ).0);
                assert(out@ == spec_render_text(st0, cs@.take(i + 1)).1);
            }
            i += 1;
        }
        proof {
            assert(cs@.take(n as int) =~= text@);
            lemma_render_text_append(spec_render_init(), fed0, text@);
        }
        self.fed = Ghost(fed0 + text@);
        out
    }

    /// Consume one raw document chunk: run the extraction stage over it and
    /// render whatever value text it yields. Returns the styled characters.
    pub fn process_chunk(&mut self, chunk: &str) -> (r: Vec<(char, Color)>)
        requires
            old(self).wf(),
        ensures
            final(self).wf(),
            final(self).chunk_history() == old(self).chunk_history() + chunk@,
            final(self).text_history() == old(self).text_history() + spec_extract_text(
                spec_extract_text(spec_extract_init(), old(self).chunk_history()).0,
                chunk@,
            ).1,
            final(self).emitted() == old(self).emitted() + r@,
    {
        let cs = str_to_chars(chunk);
        let ghost ch0 = self.chunks@;
        let ghost es0 = spec_extract_text(spec_extract_init(), ch0).0;
        let mut ex: Vec<char> = Vec::new();
        let n = cs.len();
        let mut i: usize = 0;
        proof {
            assert(cs@.take(0) =~= Seq::<char>::empty());
            assert(ex@ =~= Seq::<char>::empty());
        }
        while i < n
            invariant
                0 <= i <= n,
                n == cs@.len(),
                spec_extract_text(spec_extract_init(), ch0).0 == es0,
                (ExtractStateView { phase: self.phase, seek: self.seek@ }) == spec_extract_text(
                    es0,
                    cs@.take(i as int),
                ).0,
                ex@ == spec_extract_text(es0, cs@.take(i as int)).1,
                self.stack@ == old(self).stack@,
                self.line_blank == old(self).line_blank,
                self.pending@ == old(self).pending@,
                self.chunks@ == ch0,
                self.fed@ == old(self).fed@,
            decreases n - i,
        {
            let c = cs[i];
            let ghost pre = cs@.take(i as int);
            exec_extract_step(&mut self.phase, &mut self.seek, c, &mut ex);
            proof {
                assert(pre + seq![c] =~= cs@.take(i + 1));
                assert(seq![c].skip(1) =~= Seq::<char>::empty());
                reveal_with_fuel(spec_extract_text, 3);
                lemma_extract_text_append(es0, pre, seq![c]);
                assert(spec_extract_text(spec_extract_text(es0, pre).0, seq![c]).1
                    =~= spec_extract_step(spec_extract_text(es0, pre).0, c).1 + Seq::<
                    char,
                >::empty());
                assert(spec_extract_step(spec_extract_text(es0, pre).0, c).1 + Seq::<
                    char,
                >::empty() =~= spec_extract_step(spec_extract_text(es0, pre).0, c).1);
                assert((ExtractStateView { phase: self.phase, seek: self.seek@ })
                    == spec_extract_text(es0, cs@.take(i + 1)).0);
                assert(ex@ == spec_extract_text(es0, cs@.take(i + 1)).1);
            }
            i += 1;
        }
        proof {
            assert(cs@.take(n as int) =~= chunk@);
            lemma_extract_text_append(spec_extract_init(), ch0, chunk@);
        }
        self.chunks = Ghost(ch0 + chunk@);
        let delta = crate::text::chars_to_string(&ex);
        self.process(delta.as_str())
    }

    /// End the session: resolve and emit any pending marker run with no
    /// lookahead — a trailing lone star is an italic toggle, a trailing
    /// heading run opens its heading — and leave the renderer fresh. After
    /// this flush every character fed to the session has been emitted exactly
    /// once (see [`lemma_every_character_rendered_once`]).
    pub fn finish(&mut self) -> (r: Vec<(char, Color)>)
        requires
            old(self).wf(),
        ensures
            final(self).wf(),
            final(self).chunk_history() == Seq::<char>::empty(),
            final(self).text_history() == Seq::<char>::empty(),
            r@ == spec_flush(spec_render_all(old(self).text_history()).0).1,
    {
        proof {
            assert(pending_wf(spec_render_init().pending));
            lemma_render_text_conserves(spec_render_init(), self.fed@);
        }
        let ghost stv = spec_render_all(self.fed@).0;
        let mut out: Vec<(char, Color)> = Vec::new();
        let plen = self.pending.len();
        if plen == 0 {
            proof {
                assert(out@ =~= spec_flush(stv).1);
            }
        } else {
            let p0 = self.pending[0];
            if p0 == '*' {
                emit(&mut out, '*', Color::Blue);
                proof {
                    assert(out@ =~= spec_flush(stv).1);
                }
            } else if p0 == '`' {
                if plen == 1 {
                    emit(&mut out, '`', Color::Yellow);
                } else {
                    emit(&mut out, '`', Color::Yellow);
                    emit(&mut out, '`', Color::Yellow);
                }
                proof {
                    assert(out@ =~= spec_flush(stv).1);
                }
            } else if p0 == ']' {
                emit(&mut out, ']', Color::Blue);
                proof {
                    assert(out@ =~= spec_flush(stv).1);
                }
            } else if p0 == '#' {
                let level: u8 = if plen < 256 {
                    plen as u8
                } else {
                    255
                };
                let col = heading_color_exec(level);
                let mut i: usize = 0;
                while i < plen
                    invariant
                        0 <= i <= plen,
                        col == heading_color(level),
                        out@ == Seq::new(i as nat, |j: int| ('#', heading_color(level))),
                    decreases plen - i,
                {
                    emit(&mut out, '#', col);
                    proof {
                        assert(out@ =~= Seq::new(
                            (i + 1) as nat,
                            |j: int| ('#', heading_color(level)),
                        ));
                    }
                    i += 1;
                }
                proof {
                    assert(out@ =~= spec_flush(stv).1);
                }
            } else if '1' <= p0 && p0 <= '9' {
                let col = style_of_exec(&self.stack);
                let ghost pv = stv.pending;
                let mut i: usize = 0;
                while i < plen
                    invariant
                        0 <= i <= plen,
                        plen == self.pending@.len(),
                        self.pending@ == pv,
                        col == style_of(stv.stack),
                        out@ == Seq::new(i as nat, |j: int| (pv[j], style_of(stv.stack))),
                    decreases plen - i,
                {
                    let pc = self.pending[i];
                    emit(&mut out, pc, col);
                    proof {
                        assert(out@ =~= Seq::new(
                            (i + 1) as nat,
                            |j: int| (pv[j], style_of(stv.stack)),
                        ));
                    }
                    i += 1;
                }
                proof {
                    assert(out@ =~= spec_flush(stv).1);
                }
            } else {
                proof {
                    assert(out@ =~= spec_flush(stv).1);
                }
            }
        }
        self.phase = ExtractPhase::Seeking;
        self.seek = Vec::new();
        let mut fresh_stack: Vec<MarkdownState> = Vec::new();
        fresh_stack.push(MarkdownState::Normal);
        self.stack = fresh_stack;
        self.line_blank = true;
        self.pending = Vec::new();
        self.chunks = Ghost(Seq::empty());
        self.fed = Ghost(Seq::empty());
        proof {
            assert(self.stack@ =~= seq![MarkdownState::Normal]);
        }
        out
    }
}


/// Feeding the same total text in different deltas produces the same styled
/// output: a marker split across two calls — a bold `**` ending one delta and
/// opening the next — renders exactly as it would in one call.
pub proof fn lemma_render_depends_on_input_only(
    r1: &MarkdownStreamRenderer,
    r2: &MarkdownStreamRenderer,
)
    requires
        r1.wf(),
        r2.wf(),
        r1.text_history() == r2.text_history(),
    ensures
        r1.emitted() == r2.emitted(),
{
}

/// The newline at the end of a line pops every line-scoped context — heading,
/// list, blockquote — so the next line starts back in the enclosing context,
/// while spanning contexts (bold, italic, code block) persist.
pub proof fn lemma_newline_closes_line_scoped(st: RenderStateView)
    requires
        st.pending.len() == 0,
    ensures
        spec_step(st, '\n').0.line_blank,
        spec_step(st, '\n').0.stack.len() > 0 ==> !is_line_scoped(
            spec_step(st, '\n').0.stack.last(),
        ),
{
    lemma_pop_line_scoped_top(st.stack);
}

proof fn lemma_pop_line_scoped_top(stack: Seq<MarkdownState>)
    ensures
        pop_line_scoped(stack).len() > 0 ==> !is_line_scoped(pop_line_scoped(stack).last()),
    decreases stack.len(),
{
    if stack.len() > 0 && is_line_scoped(stack.last()) {
        lemma_pop_line_scoped_top(stack.drop_last());
    }
}

/// The shapes the pending buffer can take: empty, one deferrable marker, two
/// backticks, a heading run, or a leading digit with or without its dot.
pub open spec fn pending_wf(p: Seq<char>) -> bool {
    ||| p.len() == 0
    ||| (p.len() == 1 && (p[0] == '*' || p[0] == '`' || p[0] == ']'))
    ||| (p.len() == 2 && p[0] == '`' && p[1] == '`')
    ||| (p.len() >= 1 && forall|i: int| 0 <= i < p.len() ==> p[i] == '#')
    ||| (p.len() == 1 && '1' <= p[0] && p[0] <= '9')
    ||| (p.len() == 2 && '1' <= p[0] && p[0] <= '9' && p[1] == '.')
}

/// Resolve a pending marker run with no lookahead, as the end of the session
/// forces: a lone star is an italic toggle, a lone backtick an inline-code
/// toggle, two backticks a pair of toggles, a bracket closes its link text, a
/// heading run opens its heading, and deferred digits are plain text.
pub open spec fn spec_flush(st: RenderStateView) -> (RenderStateView, Seq<(char, Color)>) {
    let p = st.pending;
    if p.len() == 0 {
        (st, Seq::empty())
    } else if p[0] == '*' {
        (
            RenderStateView {
                stack: toggle(st.stack, MarkdownState::Italic),
                line_blank: false,
                pending: Seq::empty(),
            },
            seq![('*', Color::Blue)],
        )
    } else if p[0] == '`' {
        if p.len() == 1 {
            (
                RenderStateView {
                    stack: toggle(st.stack, MarkdownState::InlineCode),
                    line_blank: false,
                    pending: Seq::empty(),
                },
                seq![('`', Color::Yellow)],
            )
        } else {
            (
                RenderStateView { line_blank: false, pending: Seq::empty(), ..st },
                seq![('`', Color::Yellow), ('`', Color::Yellow)],
            )
        }
    } else if p[0] == ']' {
        let stack1 = if st.stack.len() > 0 && st.stack.last() is Link {
            st.stack.drop_last()
        } else {
            st.stack
        };
        (
            RenderStateView { stack: stack1, line_blank: false, pending: Seq::empty() },
            seq![(']', Color::Blue)],
        )
    } else if p[0] == '#' {
        let level: u8 = if p.len() < 256 {
            p.len() as u8
        } else {
            255
        };
        (
            RenderStateView {
                stack: st.stack.push(MarkdownState::Heading(level)),
                line_blank: false,
                pending: Seq::empty(),
            },
            Seq::new(p.len(), |i: int| ('#', heading_color(level))),
        )
    } else if '1' <= p[0] && p[0] <= '9' {
        (
            RenderStateView { line_blank: false, pending: Seq::empty(), ..st },
            Seq::new(p.len(), |i: int| (p[i], style_of(st.stack))),
        )
    } else {
        (RenderStateView { pending: Seq::empty(), ..st }, Seq::empty())
    }
}

/// The characters of a styled output, without their styles.
pub open spec fn chars_of(out: Seq<(char, Color)>) -> Seq<char> {
    out.map_values(|p: (char, Color)| p.0)
}

proof fn lemma_dispatch_conserves(st: RenderStateView, c: char)
    requires
        st.pending.len() == 0,
    ensures
        seq![c] == chars_of(spec_dispatch(st, c).1) + spec_dispatch(st, c).0.pending,
        pending_wf(spec_dispatch(st, c).0.pending),
{
    let (st2, o) = spec_dispatch(st, c);
    assert(seq![c] =~= chars_of(o) + st2.pending);
}

#[verifier::spinoff_prover]
proof fn lemma_step_conserves(st: RenderStateView, c: char)
    requires
        pending_wf(st.pending),
    ensures
        st.pending + seq![c] == chars_of(spec_step(st, c).1) + spec_step(st, c).0.pending,
        pending_wf(spec_step(st, c).0.pending),
{
    let p = st.pending;
    let (st2, o) = spec_step(st, c);
    if p.len() == 0 {
        lemma_dispatch_conserves(st, c);
        assert(p + seq![c] =~= seq![c]);
    } else if p[0] == '*' {
        if c == '*' {
            assert(p + seq![c] =~= chars_of(o) + st2.pending);
        } else if c == ' ' && st.line_blank {
            let st1 = RenderStateView {
                stack: st.stack.push(MarkdownState::UnorderedList),
                line_blank: false,
                pending: Seq::empty(),
                ..st
            };
            lemma_dispatch_conserves(st1, c);
            assert(p + seq![c] =~= chars_of(seq![('*', Color::Green)]) + (chars_of(
                spec_dispatch(st1, c).1,
            ) + spec_dispatch(st1, c).0.pending));
            assert(chars_of(seq![('*', Color::Green)] + spec_dispatch(st1, c).1) =~= chars_of(
                seq![('*', Color::Green)],
            ) + chars_of(spec_dispatch(st1, c).1));
        } else {
            let st1 = RenderStateView {
                stack: toggle(st.stack, MarkdownState::Italic),
                line_blank: false,
                pending: Seq::empty(),
                ..st
            };
            lemma_dispatch_conserves(st1, c);
            assert(p + seq![c] =~= chars_of(seq![('*', Color::Blue)]) + (chars_of(
                spec_dispatch(st1, c).1,
            ) + spec_dispatch(st1, c).0.pending));
            assert(chars_of(seq![('*', Color::Blue)] + spec_dispatch(st1, c).1) =~= chars_of(
                seq![('*', Color::Blue)],
            ) + chars_of(spec_dispatch(st1, c).1));
        }
    } else if p[0] == '`' {
        if c == '`' {
            if p.len() == 1 {
                assert(p + seq![c] =~= chars_of(o) + st2.pending);
            } else {
                assert(p + seq![c] =~= chars_of(o) + st2.pending);
            }
        } else {
            let marker: Seq<(char, Color)> = if p.len() == 1 {
                seq![('`', Color::Yellow)]
            } else {
                seq![('`', Color::Yellow), ('`', Color::Yellow)]
            };
            let st1 = if p.len() == 1 {
                RenderStateView {
                    stack: toggle(st.stack, MarkdownState::InlineCode),
                    line_blank: false,
                    pending: Seq::empty(),
                    ..st
                }
            } else {
                RenderStateView { line_blank: false, pending: Seq::empty(), ..st }
            };
            lemma_dispatch_conserves(st1, c);
            assert(chars_of(marker + spec_dispatch(st1, c).1) =~= chars_of(marker) + chars_of(
                spec_dispatch(st1, c).1,
            ));
            assert(p + seq![c] =~= chars_of(marker) + (chars_of(spec_dispatch(st1, c).1)
                + spec_dispatch(st1, c).0.pending));
        }
    } else if p[0] == ']' {
        let stack1 = if st.stack.len() > 0 && st.stack.last() is Link {
            let popped = st.stack.drop_last();
            if c == '(' {
                popped.push(MarkdownState::LinkUrl)
            } else {
                popped
            }
        } else {
            st.stack
        };
        let st1 = RenderStateView { stack: stack1, line_blank: false, pending: Seq::empty(), ..st };
        lemma_dispatch_conserves(st1, c);
        assert(chars_of(seq![(']', Color::Blue)] + spec_dispatch(st1, c).1) =~= chars_of(
            seq![(']', Color::Blue)],
        ) + chars_of(spec_dispatch(st1, c).1));
        assert(p + seq![c] =~= chars_of(seq![(']', Color::Blue)]) + (chars_of(
            spec_dispatch(st1, c).1,
        ) + spec_dispatch(st1, c).0.pending));
    } else if p[0] == '#' {
        if c == '#' {
            assert(p + seq![c] =~= chars_of(o) + st2.pending);
        } else {
            let level: u8 = if p.len() < 256 {
                p.len() as u8
            } else {
                255
            };
            let marker = Seq::new(p.len(), |i: int| ('#', heading_color(level)));
            let st1 = RenderStateView {
                stack: st.stack.push(MarkdownState::Heading(level)),
                line_blank: false,
                pending: Seq::empty(),
                ..st
            };
            lemma_dispatch_conserves(st1, c);
            assert(chars_of(marker + spec_dispatch(st1, c).1) =~= chars_of(marker) + chars_of(
                spec_dispatch(st1, c).1,
            ));
            assert(p + seq![c] =~= chars_of(marker) + (chars_of(spec_dispatch(st1, c).1)
                + spec_dispatch(st1, c).0.pending));
        }
    } else if '1' <= p[0] && p[0] <= '9' {
        if p.len() == 1 && c == '.' {
            assert(p + seq![c] =~= chars_of(o) + st2.pending);
        } else if p.len() == 2 && c == ' ' {
            let st1 = RenderStateView {
                stack: st.stack.push(MarkdownState::OrderedList),
                line_blank: false,
                pending: Seq::empty(),
                ..st
            };
            lemma_dispatch_conserves(st1, c);
            let marker = seq![(p[0], Color::Green), ('.', Color::Green)];
            assert(chars_of(marker + spec_dispatch(st1, c).1) =~= chars_of(marker) + chars_of(
                spec_dispatch(st1, c).1,
            ));
            assert(p + seq![c] =~= chars_of(marker) + (chars_of(spec_dispatch(st1, c).1)
                + spec_dispatch(st1, c).0.pending));
        } else {
            let st1 = RenderStateView { line_blank: false, pending: Seq::empty(), ..st };
            lemma_dispatch_conserves(st1, c);
            let marker = Seq::new(p.len(), |i: int| (p[i], style_of(st.stack)));
            assert(chars_of(marker + spec_dispatch(st1, c).1) =~= chars_of(marker) + chars_of(
                spec_dispatch(st1, c).1,
            ));
            assert(p + seq![c] =~= chars_of(marker) + (chars_of(spec_dispatch(st1, c).1)
                + spec_dispatch(st1, c).0.pending));
        }
    } else {
        assert(false);
    }
}

proof fn lemma_render_text_conserves(st: RenderStateView, t: Seq<char>)
    requires
        pending_wf(st.pending),
    ensures
        st.pending + t == chars_of(spec_render_text(st, t).1) + spec_render_text(st, t).0.pending,
        pending_wf(spec_render_text(st, t).0.pending),
    decreases t.len(),
{
    if t.len() == 0 {
        assert(st.pending + t =~= st.pending);
        assert(chars_of(Seq::<(char, Color)>::empty()) + st.pending =~= st.pending);
    } else {
        let c = t[0];
        lemma_step_conserves(st, c);
        let (st1, out1) = spec_step(st, c);
        lemma_render_text_conserves(st1, t.skip(1));
        let (st2, out2) = spec_render_text(st1, t.skip(1));
        assert(chars_of(out1 + out2) =~= chars_of(out1) + chars_of(out2));
        assert(st.pending + t =~= (st.pending + seq![c]) + t.skip(1));
        assert((chars_of(out1) + st1.pending) + t.skip(1) =~= chars_of(out1) + (st1.pending
            + t.skip(1)));
        assert(chars_of(out1) + (chars_of(out2) + st2.pending) =~= (chars_of(out1) + chars_of(
            out2,
        )) + st2.pending);
    }
}

proof fn lemma_flush_conserves(st: RenderStateView)
    requires
        pending_wf(st.pending),
    ensures
        chars_of(spec_flush(st).1) == st.pending,
        spec_flush(st).0.pending.len() == 0,
{
    assert(chars_of(spec_flush(st).1) =~= st.pending);
}

/// Every character fed to the markdown stage of a session is emitted exactly
/// once, in input order: after the final flush, the characters of the styled
/// output are the input text itself — markers included, only their styles
/// added. Malformed or unterminated markup is never an error.
pub proof fn lemma_every_character_rendered_once(text: Seq<char>)
    ensures
        chars_of(spec_render_all(text).1) + chars_of(spec_flush(spec_render_all(text).0).1)
            == text,
{
    assert(pending_wf(spec_render_init().pending));
    lemma_render_text_conserves(spec_render_init(), text);
    lemma_flush_conserves(spec_render_all(text).0);
    assert(spec_render_init().pending + text =~= text);
}

} // verus!
