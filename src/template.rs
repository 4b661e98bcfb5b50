//! A small template language: literal text, variables (`$name`, `${name}`),
//! optional groups `( ... )` and styled groups `[ ... ](style)`, with `\` to
//! take the next character literally.
use vstd::prelude::*;
use crate::text::{chars_of, string_of, owned, opt_view};

verus! {

broadcast use vstd::std_specs::vec::axiom_vec_decreases_to_view;

/// One element of a parsed template.
pub enum Node {
    /// Literal text.
    Text(String),
    /// A reference to a variable by name.
    Variable(String),
    /// An optional group: shown only where every variable directly in it is bound.
    Group(Vec<Node>),
    /// A styled group: its body, and the template of its style.
    Styled(Vec<Node>, Vec<Node>),
}

/// A parsed template element as plain values.
pub enum SNode {
    Text(Seq<char>),
    Variable(Seq<char>),
    Group(Seq<SNode>),
    Styled(Seq<SNode>, Seq<SNode>),
}

/// The first `n` nodes of `nodes` as plain values.
pub open spec fn view_seq(nodes: Seq<Node>, n: int) -> Seq<SNode>
    decreases nodes, n,
{
    if n <= 0 || n > nodes.len() {
        Seq::empty()
    } else {
        view_seq(nodes, n - 1).push(
            match nodes[n - 1] {
                Node::Text(t) => SNode::Text(t@),
                Node::Variable(v) => SNode::Variable(v@),
                Node::Group(ch) => SNode::Group(view_seq(ch@, ch@.len() as int)),
                Node::Styled(b, st) => SNode::Styled(
                    view_seq(b@, b@.len() as int),
                    view_seq(st@, st@.len() as int),
                ),
            },
        )
    }
}

/// Parsed nodes as plain values.
pub open spec fn view_nodes(nodes: Seq<Node>) -> Seq<SNode> {
    view_seq(nodes, nodes.len() as int)
}

/// One parsed node as a plain value.
pub open spec fn node_view(x: Node) -> SNode {
    match x {
        Node::Text(t) => SNode::Text(t@),
        Node::Variable(v) => SNode::Variable(v@),
        Node::Group(ch) => SNode::Group(view_nodes(ch@)),
        Node::Styled(b, st) => SNode::Styled(view_nodes(b@), view_nodes(st@)),
    }
}

proof fn lemma_view_index(a: Seq<Node>, m: int)
    requires
        0 <= m <= a.len(),
    ensures
        view_seq(a, m).len() == m,
        forall|k: int| 0 <= k < m ==> #[trigger] view_seq(a, m)[k] == node_view(a[k]),
    decreases m,
{
    if m > 0 {
        lemma_view_index(a, m - 1);
    }
}

proof fn lemma_view_push(a: Seq<Node>, x: Node)
    ensures
        view_nodes(a.push(x)) == view_nodes(a).push(node_view(x)),
{
    let b = a.push(x);
    lemma_view_index(a, a.len() as int);
    lemma_view_index(b, b.len() as int);
    assert(view_nodes(b) =~= view_nodes(a).push(node_view(x)));
}

/// Why a template could not be parsed.
#[derive(Debug, PartialEq, Eq, Structural, Clone, Copy)]
pub enum TemplateError {
    /// A group is opened and never closed.
    Unclosed,
    /// A `)` or `]` closes no group of its kind.
    UnexpectedCloser,
    /// A styled group's `]` is not followed by `(`.
    MissingStyle,
    /// A `$` is not followed by a variable name.
    BadVariable,
    /// The template ends with `\`.
    TrailingEscape,
}

/// One rendered piece of text and the style it is shown in.
pub struct Segment {
    pub text: String,
    pub style: Option<String>,
}

/// A segment as plain text.
pub open spec fn segment_view(s: Segment) -> (Seq<char>, Option<Seq<char>>) {
    (s.text@, opt_view(s.style))
}

/// Segments as plain text.
pub open spec fn segments_view(v: Seq<Segment>) -> Seq<(Seq<char>, Option<Seq<char>>)> {
    v.map_values(|s: Segment| segment_view(s))
}

/// The variables that a template may reference and their values; the first
/// entry of a name counts. A name that is not listed is unbound.
pub struct Bindings {
    pub vars: Vec<(String, String)>,
}

/// The value of the first entry of `vars` named `v`, if any.
pub open spec fn lookup_in(vars: Seq<(String, String)>, v: Seq<char>) -> Option<Seq<char>>
    decreases vars.len(),
{
    if vars.len() == 0 {
        None
    } else if vars[0].0@ == v {
        Some(vars[0].1@)
    } else {
        lookup_in(vars.drop_first(), v)
    }
}

/// The value bound to variable `v`, if any.
pub open spec fn lookup(b: Bindings, v: Seq<char>) -> Option<Seq<char>> {
    lookup_in(b.vars@, v)
}

/// What a template's variables are bound to, as a function of their names.
pub type Env = spec_fn(Seq<char>) -> Option<Seq<char>>;

/// The bindings as a function of variable names.
pub open spec fn env_of(b: Bindings) -> Env {
    |v: Seq<char>| lookup(b, v)
}

/// Every variable that stands directly in `nodes` (not in a nested group) is bound.
pub open spec fn all_bound(nodes: Seq<SNode>, env: Env) -> bool {
    forall|i: int|
        0 <= i < nodes.len() ==> match #[trigger] nodes[i] {
            SNode::Variable(v) => env(v) is Some,
            _ => true,
        }
}

/// The text of a run of segments, joined.
pub open spec fn joined(segs: Seq<(Seq<char>, Option<Seq<char>>)>) -> Seq<char>
    decreases segs.len(),
{
    if segs.len() == 0 {
        Seq::empty()
    } else {
        joined(segs.drop_last()) + segs.last().0
    }
}

/// What the first `n` nodes of `nodes` render to under `env`, in style `style`.
pub open spec fn rendered(
    nodes: Seq<SNode>,
    n: int,
    env: Env,
    style: Option<Seq<char>>,
) -> Seq<(Seq<char>, Option<Seq<char>>)>
    decreases nodes, n,
{
    if n <= 0 || n > nodes.len() {
        Seq::empty()
    } else {
        rendered(nodes, n - 1, env, style) + match nodes[n - 1] {
            SNode::Text(t) => seq![(t, style)],
            SNode::Variable(v) => match env(v) {
                Some(x) => seq![(x, style)],
                None => Seq::empty(),
            },
            SNode::Group(ch) => if all_bound(ch, env) {
                rendered(ch, ch.len() as int, env, style)
            } else {
                Seq::empty()
            },
            SNode::Styled(body, st) => rendered(
                body,
                body.len() as int,
                env,
                Some(joined(rendered(st, st.len() as int, env, None))),
            ),
        }
    }
}

/// A template's nodes rendered under `env`.
pub open spec fn render_spec(nodes: Seq<SNode>, env: Env) -> Seq<(Seq<char>, Option<Seq<char>>)> {
    rendered(nodes, nodes.len() as int, env, None)
}

/// The value bound to variable `v`, if any.
pub fn resolve(b: &Bindings, v: &String) -> (r: Option<String>)
    ensures
        opt_view(r) == lookup(*b, v@),
{
    let n = b.vars.len();
    let mut i: usize = 0;
    assert(b.vars@.subrange(0, n as int) =~= b.vars@);
    while i < n
        invariant
            n == b.vars@.len(),
            i <= n,
            lookup_in(b.vars@.subrange(i as int, n as int), v@) == lookup(*b, v@),
        decreases n - i,
    {
        let ghost rest = b.vars@.subrange(i as int, n as int);
        assert(rest.drop_first() =~= b.vars@.subrange(i + 1, n as int));
        if b.vars[i].0 == *v {
            return Some(b.vars[i].1.clone());
        }
        i = i + 1;
    }
    None
}

/// Whether every variable directly in `nodes` is bound.
pub fn bound(nodes: &Vec<Node>, b: &Bindings) -> (r: bool)
    ensures
        r == all_bound(view_nodes(nodes@), env_of(*b)),
{
    proof {
        lemma_view_index(nodes@, nodes@.len() as int);
    }
    let mut i: usize = 0;
    while i < nodes.len()
        invariant
            i <= nodes@.len(),
            view_nodes(nodes@).len() == nodes@.len(),
            forall|k: int| 0 <= k < nodes@.len() ==> #[trigger] view_nodes(nodes@)[k] == node_view(nodes@[k]),
            forall|k: int|
                0 <= k < i ==> match #[trigger] nodes@[k] {
                    Node::Variable(v) => env_of(*b)(v@) is Some,
                    _ => true,
                },
        decreases nodes@.len() - i,
    {
        if let Node::Variable(v) = &nodes[i] {
            if resolve(b, v).is_none() {
                assert(view_nodes(nodes@)[i as int] == node_view(nodes@[i as int]));
                return false;
            }
        }
        i = i + 1;
    }
    true
}

/// The text of `segs`, joined.
pub fn join(segs: &Vec<Segment>) -> (r: String)
    ensures
        r@ == joined(segments_view(segs@)),
{
    let ghost v = segments_view(segs@);
    let mut out: Vec<char> = Vec::new();
    let mut i: usize = 0;
    while i < segs.len()
        invariant
            i <= segs@.len(),
            v == segments_view(segs@),
            out@ == joined(v.subrange(0, i as int)),
        decreases segs@.len() - i,
    {
        let mut t = chars_of(segs[i].text.as_str());
        out.append(&mut t);
        assert(v.subrange(0, i + 1).drop_last() =~= v.subrange(0, i as int));
        i = i + 1;
    }
    assert(v.subrange(0, segs@.len() as int) =~= v);
    string_of(out.as_slice())
}

/// Renders `nodes` under `b`, in style `style`.
pub fn render_nodes(nodes: &Vec<Node>, b: &Bindings, style: &Option<String>) -> (r: Vec<Segment>)
    ensures
        segments_view(r@) == rendered(view_nodes(nodes@), view_nodes(nodes@).len() as int, env_of(*b), opt_view(*style)),
    decreases nodes@,
{
    let ghost sv = opt_view(*style);
    let ghost vn = view_nodes(nodes@);
    proof {
        lemma_view_index(nodes@, nodes@.len() as int);
    }
    let mut out: Vec<Segment> = Vec::new();
    let mut i: usize = 0;
    while i < nodes.len()
        invariant
            i <= nodes@.len(),
            sv == opt_view(*style),
            vn == view_nodes(nodes@),
            vn.len() == nodes@.len(),
            forall|k: int| 0 <= k < nodes@.len() ==> #[trigger] vn[k] == node_view(nodes@[k]),
            segments_view(out@) == rendered(vn, i as int, env_of(*b), sv),
        decreases nodes@.len() - i,
    {
        let ghost before = out@;
        assert(vn[i as int] == node_view(nodes@[i as int]));
        match &nodes[i] {
            Node::Text(t) => {
                out.push(Segment { text: t.clone(), style: style.clone() });
                assert(segments_view(out@) =~= segments_view(before) + seq![(t@, sv)]);
            },
            Node::Variable(v) => {
                match resolve(b, v) {
                    Some(x) => {
                        let ghost xv = x@;
                        out.push(Segment { text: x, style: style.clone() });
                        assert(segments_view(out@) =~= segments_view(before) + seq![(xv, sv)]);
                    },
                    None => {
                        assert(segments_view(out@) =~= segments_view(before) + Seq::empty());
                    },
                }
            },
            Node::Group(ch) => {
                if bound(ch, b) {
                    let mut inner = render_nodes(ch, b, style);
                    out.append(&mut inner);
                } else {
                    assert(segments_view(out@) =~= segments_view(before) + Seq::empty());
                }
            },
            Node::Styled(body, st) => {
                let st_segs = render_nodes(st, b, &None);
                let st_text = join(&st_segs);
                let mut inner = render_nodes(body, b, &Some(st_text));
                out.append(&mut inner);
            },
        }
        proof {
            assert(segments_view(out@) == rendered(vn, i + 1, env_of(*b), sv));
        }
        i = i + 1;
    }
    out
}

/// Renders a parsed template under `b`.
pub fn render(nodes: &Vec<Node>, b: &Bindings) -> (r: Vec<Segment>)
    ensures
        segments_view(r@) == render_spec(view_nodes(nodes@), env_of(*b)),
{
    render_nodes(nodes, b, &None)
}

/// Variable `v` is referenced among the first `n` nodes of `nodes`, at any depth.
pub open spec fn mentions(nodes: Seq<SNode>, n: int, v: Seq<char>) -> bool
    decreases nodes, n,
{
    if n <= 0 || n > nodes.len() {
        false
    } else {
        mentions(nodes, n - 1, v) || match nodes[n - 1] {
            SNode::Text(_) => false,
            SNode::Variable(x) => x == v,
            SNode::Group(ch) => mentions(ch, ch.len() as int, v),
            SNode::Styled(body, st) => mentions(body, body.len() as int, v) || mentions(
                st,
                st.len() as int,
                v,
            ),
        }
    }
}

/// The template references variable `v` somewhere.
pub open spec fn references(nodes: Seq<SNode>, v: Seq<char>) -> bool {
    mentions(nodes, nodes.len() as int, v)
}

proof fn lemma_mentions_grows(nodes: Seq<SNode>, k: int, m: int, v: Seq<char>)
    requires
        0 <= k <= m <= nodes.len(),
        mentions(nodes, k, v),
    ensures
        mentions(nodes, m, v),
    decreases m - k,
{
    if k < m {
        lemma_mentions_grows(nodes, k, m - 1, v);
    }
}

/// Whether `nodes` references variable `v` at any depth.
pub fn mentions_variable(nodes: &Vec<Node>, v: &String) -> (r: bool)
    ensures
        r == references(view_nodes(nodes@), v@),
    decreases nodes@,
{
    let ghost vn = view_nodes(nodes@);
    proof {
        lemma_view_index(nodes@, nodes@.len() as int);
    }
    let mut i: usize = 0;
    while i < nodes.len()
        invariant
            i <= nodes@.len(),
            vn == view_nodes(nodes@),
            vn.len() == nodes@.len(),
            forall|k: int| 0 <= k < nodes@.len() ==> #[trigger] vn[k] == node_view(nodes@[k]),
            !mentions(vn, i as int, v@),
        decreases nodes@.len() - i,
    {
        assert(vn[i as int] == node_view(nodes@[i as int]));
        let found = match &nodes[i] {
            Node::Text(_) => false,
            Node::Variable(x) => *x == *v,
            Node::Group(ch) => mentions_variable(ch, v),
            Node::Styled(body, st) => mentions_variable(body, v) || mentions_variable(st, v),
        };
        if found {
            assert(mentions(vn, i + 1, v@));
            proof {
                lemma_mentions_grows(vn, i + 1, nodes@.len() as int, v@);
            }
            return true;
        }
        i = i + 1;
    }
    false
}

/// A character that may stand in a variable name written without braces.
pub open spec fn is_name_char(c: char) -> bool {
    ('a' <= c <= 'z') || ('A' <= c <= 'Z') || ('0' <= c <= '9') || c == '_'
}

fn name_char(c: char) -> (r: bool)
    ensures
        r == is_name_char(c),
{
    ('a' <= c && c <= 'z') || ('A' <= c && c <= 'Z') || ('0' <= c && c <= '9') || c == '_'
}

/// The end of the run of name characters of `t` that begins at `j`.
pub open spec fn name_end(t: Seq<char>, j: int) -> int
    decreases t.len() - j,
{
    if j < 0 || j >= t.len() || !is_name_char(t[j]) {
        j
    } else {
        name_end(t, j + 1)
    }
}

/// The first `}` of `t` at or after `j`, if any.
pub open spec fn brace_end(t: Seq<char>, j: int) -> Option<int>
    decreases t.len() - j,
{
    if j < 0 || j >= t.len() {
        None
    } else if t[j] == '}' {
        Some(j)
    } else {
        brace_end(t, j + 1)
    }
}

/// Pending literal text as nodes: none, or one text node.
pub open spec fn flushed(buf: Seq<char>) -> Seq<SNode> {
    if buf.len() == 0 {
        Seq::empty()
    } else {
        seq![SNode::Text(buf)]
    }
}

/// `r` with `d` put before its nodes.
pub open spec fn after(d: Seq<SNode>, r: Result<(Seq<SNode>, int), TemplateError>) -> Result<
    (Seq<SNode>, int),
    TemplateError,
> {
    match r {
        Ok((s, e)) => Ok((d + s, e)),
        Err(x) => Err(x),
    }
}

/// The template `t` read from `i`, with literal text `buf` pending, up to
/// `closer` (or to the end, where there is none): the nodes and the position
/// after the closer, or the first error met from the left. Adjacent literal
/// characters form one text node.
pub open spec fn parse_spec(t: Seq<char>, i: int, closer: Option<char>, buf: Seq<char>) -> Result<
    (Seq<SNode>, int),
    TemplateError,
>
    decreases t.len() - i,
{
    if i < 0 || i >= t.len() {
        if closer is None {
            Ok((flushed(buf), t.len() as int))
        } else {
            Err(TemplateError::Unclosed)
        }
    } else if t[i] == '\\' {
        if i + 1 == t.len() {
            Err(TemplateError::TrailingEscape)
        } else {
            parse_spec(t, i + 2, closer, buf.push(t[i + 1]))
        }
    } else if t[i] == '$' {
        if i + 1 < t.len() && t[i + 1] == '{' {
            match brace_end(t, i + 2) {
                Some(j) => if i + 2 < j < t.len() {
                    after(
                        flushed(buf).push(SNode::Variable(t.subrange(i + 2, j))),
                        parse_spec(t, j + 1, closer, Seq::empty()),
                    )
                } else {
                    Err(TemplateError::BadVariable)
                },
                None => Err(TemplateError::BadVariable),
            }
        } else {
            let j = name_end(t, i + 1);
            if j <= i + 1 || j > t.len() {
                Err(TemplateError::BadVariable)
            } else {
                after(
                    flushed(buf).push(SNode::Variable(t.subrange(i + 1, j))),
                    parse_spec(t, j, closer, Seq::empty()),
                )
            }
        }
    } else if t[i] == '(' {
        match parse_spec(t, i + 1, Some(')'), Seq::empty()) {
            Ok((ch, e)) => if i < e <= t.len() {
                after(flushed(buf).push(SNode::Group(ch)), parse_spec(t, e, closer, Seq::empty()))
            } else {
                Err(TemplateError::Unclosed)
            },
            Err(x) => Err(x),
        }
    } else if t[i] == '[' {
        match parse_spec(t, i + 1, Some(']'), Seq::empty()) {
            Ok((body, a)) => if i < a < t.len() && t[a] == '(' {
                match parse_spec(t, a + 1, Some(')'), Seq::empty()) {
                    Ok((st, e)) => if a < e <= t.len() {
                        after(
                            flushed(buf).push(SNode::Styled(body, st)),
                            parse_spec(t, e, closer, Seq::empty()),
                        )
                    } else {
                        Err(TemplateError::Unclosed)
                    },
                    Err(x) => Err(x),
                }
            } else {
                Err(TemplateError::MissingStyle)
            },
            Err(x) => Err(x),
        }
    } else if t[i] == ')' || t[i] == ']' {
        if closer == Some(t[i]) {
            Ok((flushed(buf), i + 1))
        } else {
            Err(TemplateError::UnexpectedCloser)
        }
    } else {
        parse_spec(t, i + 1, closer, buf.push(t[i]))
    }
}

/// The error that parsing the template `t` meets, if any.
pub open spec fn template_error(t: Seq<char>) -> Option<TemplateError> {
    match parse_spec(t, 0, None, Seq::empty()) {
        Ok(_) => None,
        Err(e) => Some(e),
    }
}

/// The nodes of a well-formed template `t` (none where it is malformed).
pub open spec fn template_nodes(t: Seq<char>) -> Seq<SNode> {
    match parse_spec(t, 0, None, Seq::empty()) {
        Ok((nodes, _)) => nodes,
        Err(_) => Seq::empty(),
    }
}

/// The template `t` references variable `v` (never where it is malformed).
pub open spec fn text_references(t: Seq<char>, v: Seq<char>) -> bool {
    references(template_nodes(t), v)
}

proof fn lemma_after_after(d1: Seq<SNode>, d2: Seq<SNode>, r: Result<(Seq<SNode>, int), TemplateError>)
    ensures
        after(d1, after(d2, r)) == after(d1 + d2, r),
{
    if let Ok((s, e)) = r {
        assert(d1 + (d2 + s) =~= (d1 + d2) + s);
    }
}

proof fn lemma_after_empty(r: Result<(Seq<SNode>, int), TemplateError>)
    ensures
        after(Seq::empty(), r) == r,
{
    if let Ok((s, e)) = r {
        assert(Seq::<SNode>::empty() + s =~= s);
    }
}

/// Moves pending literal text, if any, into `nodes` as a text node.
fn flush(buf: &mut Vec<char>, nodes: &mut Vec<Node>)
    ensures
        final(buf)@.len() == 0,
        view_nodes(final(nodes)@) == view_nodes(old(nodes)@) + flushed(old(buf)@),
{
    if buf.len() > 0 {
        let text = string_of(buf.as_slice());
        proof {
            lemma_view_push(nodes@, Node::Text(text));
        }
        nodes.push(Node::Text(text));
        buf.clear();
        assert(view_nodes(nodes@) =~= view_nodes(old(nodes)@) + flushed(old(buf)@));
    } else {
        assert(view_nodes(nodes@) =~= view_nodes(nodes@) + flushed(buf@));
    }
}

/// Records that a node `x` was added after pending text `b` was flushed, at
/// the point where the rest of the template reads `rest`.
proof fn lemma_emit(
    whole: Result<(Seq<SNode>, int), TemplateError>,
    before: Seq<SNode>,
    b: Seq<char>,
    x: SNode,
    rest: Result<(Seq<SNode>, int), TemplateError>,
    now: Seq<SNode>,
)
    requires
        whole == after(before, after(flushed(b).push(x), rest)),
        now == (before + flushed(b)).push(x),
    ensures
        whole == after(now, rest),
{
    lemma_after_after(before, flushed(b).push(x), rest);
    assert(before + flushed(b).push(x) =~= now);
}

/// Parses `t` from `pos` up to the `closer` that ends the current group (or
/// up to the end where there is none), and returns the nodes and the
/// position after the closer.
fn parse_from(t: &Vec<char>, pos: usize, closer: Option<char>) -> (r: Result<(Vec<Node>, usize), TemplateError>)
    requires
        pos <= t@.len(),
    ensures
        r matches Ok((_, end)) ==> pos <= end <= t@.len() && (closer is None ==> end == t@.len())
            && (closer is Some ==> end > pos),
        match r {
            Ok((nodes, end)) => parse_spec(t@, pos as int, closer, Seq::empty()) == Ok::<
                (Seq<SNode>, int),
                TemplateError,
            >((view_nodes(nodes@), end as int)),
            Err(e) => parse_spec(t@, pos as int, closer, Seq::empty()) == Err::<
                (Seq<SNode>, int),
                TemplateError,
            >(e),
        },
    decreases t@.len() - pos,
{
    let ghost whole = parse_spec(t@, pos as int, closer, Seq::empty());
    let n = t.len();
    let mut nodes: Vec<Node> = Vec::new();
    let mut buf: Vec<char> = Vec::new();
    let mut i: usize = pos;
    proof {
        lemma_after_empty(whole);
        assert(view_nodes(nodes@) =~= Seq::<SNode>::empty());
        assert(buf@ =~= Seq::<char>::empty());
    }
    while i < n
        invariant
            n == t@.len(),
            pos <= i <= n,
            whole == parse_spec(t@, pos as int, closer, Seq::empty()),
            whole == after(view_nodes(nodes@), parse_spec(t@, i as int, closer, buf@)),
        decreases n - i,
    {
        let c = t[i];
        let ghost before = view_nodes(nodes@);
        let ghost b = buf@;
        if c == '\\' {
            if i + 1 == n {
                return Err(TemplateError::TrailingEscape);
            }
            buf.push(t[i + 1]);
            i = i + 2;
        } else if c == '$' {
            flush(&mut buf, &mut nodes);
            if i + 1 < n && t[i + 1] == '{' {
                let mut j: usize = i + 2;
                while j < n && t[j] != '}'
                    invariant
                        n == t@.len(),
                        i + 2 <= j <= n,
                        brace_end(t@, i + 2) == brace_end(t@, j as int),
                    decreases n - j,
                {
                    j = j + 1;
                }
                if j == n || j == i + 2 {
                    return Err(TemplateError::BadVariable);
                }
                let name = string_of(vstd::slice::slice_subrange(t.as_slice(), i + 2, j));
                proof {
                    lemma_view_push(nodes@, Node::Variable(name));
                }
                nodes.push(Node::Variable(name));
                proof {
                    lemma_emit(
                        whole,
                        before,
                        b,
                        SNode::Variable(t@.subrange(i + 2, j as int)),
                        parse_spec(t@, j + 1, closer, Seq::empty()),
                        view_nodes(nodes@),
                    );
                }
                buf.clear();
                assert(buf@ =~= Seq::<char>::empty());
                i = j + 1;
            } else {
                let mut j: usize = i + 1;
                while j < n && name_char(t[j])
                    invariant
                        n == t@.len(),
                        i + 1 <= j <= n,
                        name_end(t@, i + 1) == name_end(t@, j as int),
                    decreases n - j,
                {
                    j = j + 1;
                }
                if j == i + 1 {
                    return Err(TemplateError::BadVariable);
                }
                let name = string_of(vstd::slice::slice_subrange(t.as_slice(), i + 1, j));
                proof {
                    lemma_view_push(nodes@, Node::Variable(name));
                }
                nodes.push(Node::Variable(name));
                proof {
                    lemma_emit(
                        whole,
                        before,
                        b,
                        SNode::Variable(t@.subrange(i + 1, j as int)),
                        parse_spec(t@, j as int, closer, Seq::empty()),
                        view_nodes(nodes@),
                    );
                }
                buf.clear();
                assert(buf@ =~= Seq::<char>::empty());
                i = j;
            }
        } else if c == '(' {
            flush(&mut buf, &mut nodes);
            let (children, end) = parse_from(t, i + 1, Some(')'))?;
            let ghost cv = view_nodes(children@);
            proof {
                lemma_view_push(nodes@, Node::Group(children));
            }
            nodes.push(Node::Group(children));
            proof {
                lemma_emit(
                    whole,
                    before,
                    b,
                    SNode::Group(cv),
                    parse_spec(t@, end as int, closer, Seq::empty()),
                    view_nodes(nodes@),
                );
            }
            assert(buf@ =~= Seq::<char>::empty());
            i = end;
        } else if c == '[' {
            flush(&mut buf, &mut nodes);
            let (body, after_body) = parse_from(t, i + 1, Some(']'))?;
            if after_body < n && t[after_body] == '(' {
                let (st, end) = parse_from(t, after_body + 1, Some(')'))?;
                let ghost bv = view_nodes(body@);
                let ghost sv = view_nodes(st@);
                proof {
                    lemma_view_push(nodes@, Node::Styled(body, st));
                }
                nodes.push(Node::Styled(body, st));
                proof {
                    lemma_emit(
                        whole,
                        before,
                        b,
                        SNode::Styled(bv, sv),
                        parse_spec(t@, end as int, closer, Seq::empty()),
                        view_nodes(nodes@),
                    );
                }
                assert(buf@ =~= Seq::<char>::empty());
                i = end;
            } else {
                return Err(TemplateError::MissingStyle);
            }
        } else if c == ')' || c == ']' {
            match closer {
                Some(k) if k == c => {
                    flush(&mut buf, &mut nodes);
                    return Ok((nodes, i + 1));
                },
                _ => {
                    return Err(TemplateError::UnexpectedCloser);
                },
            }
        } else {
            buf.push(c);
            i = i + 1;
        }
    }
    if closer.is_some() {
        return Err(TemplateError::Unclosed);
    }
    flush(&mut buf, &mut nodes);
    Ok((nodes, n))
}

/// Parses a template.
pub fn parse(template: &str) -> (r: Result<Vec<Node>, TemplateError>)
    ensures
        match r {
            Ok(nodes) => template_error(template@) is None && view_nodes(nodes@) == template_nodes(
                template@,
            ),
            Err(e) => template_error(template@) == Some(e),
        },
{
    let t = chars_of(template);
    match parse_from(&t, 0, None) {
        Ok((nodes, _)) => Ok(nodes),
        Err(e) => Err(e),
    }
}

} // verus!
