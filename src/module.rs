//! One render pass of one subject: detection, at most one probe of the
//! compiler, and rendering of the template.
use vstd::prelude::*;
use crate::config::{CcConfig, CConfig, CppConfig, LangConfig};
use crate::detect::{DirContents, is_cc_project, signals_present};
use crate::facts::{find_compiler, find_version, identify, version_token};
use crate::template::{
    Bindings, Env, Node, SNode, view_nodes, lookup_in, Segment, TemplateError, env_of, joined, join, parse, references, template_error, template_nodes,
    text_references,
    mentions_variable, render, render_spec, segments_view,
};
use crate::text::{chars_of, owned, opt_view, views};

verus! {

/// The subjects that this module renders.
#[derive(Debug, PartialEq, Eq, Structural, Clone, Copy)]
pub enum Lang {
    C,
    Cpp,
}

/// What a compiler invocation printed on its standard output.
pub struct CommandOutput {
    pub stdout: String,
}

/// The bindings of a version template: `raw` only.
pub open spec fn raw_env(raw: Seq<char>) -> Env {
    |v: Seq<char>| if v == "raw"@ { Some(raw) } else { None }
}

/// The bindings of a subject's template: the descriptor's `symbol` and
/// `style`, and the facts `name` and `version` where they are known.
pub open spec fn fact_env(config: CcConfig, name: Option<Seq<char>>, version: Option<Seq<char>>) -> Env {
    |v: Seq<char>|
        if v == "symbol"@ {
            Some(config.symbol@)
        } else if v == "style"@ {
            Some(config.style@)
        } else if v == "name"@ {
            name
        } else if v == "version"@ {
            version
        } else {
            None
        }
}

/// The compiler's name, learned from its output.
pub open spec fn name_fact(out: Option<Seq<char>>, compilers: Seq<(String, String)>) -> Option<Seq<char>> {
    match out {
        Some(t) => identify(t, compilers),
        None => None,
    }
}

/// The compiler's version, learned from its output and shown through the version template.
pub open spec fn version_fact(out: Option<Seq<char>>, version_nodes: Seq<SNode>) -> Option<Seq<char>> {
    match out {
        Some(t) => match version_token(t) {
            Some(raw) => Some(joined(render_spec(version_nodes, raw_env(raw)))),
            None => None,
        },
        None => None,
    }
}

/// The fragment of a subject whose compiler printed `out` (`None`: no
/// candidate command could be started, or none was needed).
pub open spec fn fragment(
    config: CcConfig,
    nodes: Seq<SNode>,
    version_nodes: Seq<SNode>,
    compilers: Seq<(String, String)>,
    out: Option<Seq<char>>,
) -> Seq<(Seq<char>, Option<Seq<char>>)> {
    render_spec(
        nodes,
        fact_env(config, name_fact(out, compilers), version_fact(out, version_nodes)),
    )
}

/// The standard output of a command, as plain text.
pub open spec fn output_view(out: Option<CommandOutput>) -> Option<Seq<char>> {
    match out {
        Some(o) => Some(o.stdout@),
        None => None,
    }
}

/// Shows a raw version through a parsed version template.
pub fn format_version(version_nodes: &Vec<Node>, raw: String) -> (r: String)
    ensures
        r@ == joined(render_spec(view_nodes(version_nodes@), raw_env(raw@))),
{
    let ghost rv = raw@;
    let b = Bindings { vars: vec![(owned("raw"), raw)] };
    assert(env_of(b) =~= raw_env(rv)) by {
        assert forall|v: Seq<char>| #[trigger] env_of(b)(v) == raw_env(rv)(v) by {
            reveal_with_fuel(crate::template::lookup_in, 2);
            assert(b.vars@[0].0@ == "raw"@ && b.vars@[0].1@ == rv);
            assert(b.vars@.drop_first().len() == 0);
        }
    }
    join(&render(version_nodes, &b))
}

/// Renders a subject's template, with the facts learned from `out`.
pub fn render_fragment(
    config: &CcConfig,
    nodes: &Vec<Node>,
    version_nodes: &Vec<Node>,
    compilers: &Vec<(String, String)>,
    out: &Option<CommandOutput>,
) -> (r: Vec<Segment>)
    ensures
        segments_view(r@) == fragment(
            *config,
            view_nodes(nodes@),
            view_nodes(version_nodes@),
            compilers@,
            output_view(*out),
        ),
{
    let (name, version) = match out {
        Some(o) => {
            let text = chars_of(o.stdout.as_str());
            let name = find_compiler(&text, compilers);
            let version = match find_version(&text) {
                Some(raw) => Some(format_version(version_nodes, raw)),
                None => None,
            };
            (name, version)
        },
        None => (None, None),
    };
    let ghost nv = opt_view(name);
    let ghost vv = opt_view(version);
    assert(nv == name_fact(output_view(*out), compilers@));
    assert(vv == version_fact(output_view(*out), view_nodes(version_nodes@)));
    let mut vars: Vec<(String, String)> = vec![
        (owned("symbol"), config.symbol.clone()),
        (owned("style"), config.style.clone()),
    ];
    let ghost base = vars@;
    match name {
        Some(n) => vars.push((owned("name"), n)),
        None => {},
    }
    let ghost mid = vars@;
    match version {
        Some(v) => vars.push((owned("version"), v)),
        None => {},
    }
    let b = Bindings { vars };
    proof {
        reveal_strlit("symbol");
        reveal_strlit("style");
        reveal_strlit("name");
        reveal_strlit("version");
        let env = fact_env(*config, nv, vv);
        let s0 = b.vars@;
        assert(s0[0].0@ == "symbol"@ && s0[0].1@ == config.symbol@);
        assert(s0[1].0@ == "style"@ && s0[1].1@ == config.style@);
        let tail = s0.drop_first().drop_first();
        assert(mid.len() == 2 + if nv is Some { 1int } else { 0int });
        assert(s0.len() == mid.len() + if vv is Some { 1int } else { 0int });
        assert forall|v: Seq<char>| #[trigger] env_of(b)(v) == env(v) by {
            assert(lookup_in(s0, v) == if v == "symbol"@ {
                Some(config.symbol@)
            } else {
                lookup_in(s0.drop_first(), v)
            });
            assert(lookup_in(s0.drop_first(), v) == if v == "style"@ {
                Some(config.style@)
            } else {
                lookup_in(tail, v)
            });
            if nv is Some {
                assert(tail[0].0@ == "name"@ && Some(tail[0].1@) == nv);
                let t2 = tail.drop_first();
                if vv is Some {
                    assert(t2[0].0@ == "version"@ && Some(t2[0].1@) == vv);
                    assert(t2.drop_first().len() == 0);
                    assert(lookup_in(t2.drop_first(), v) is None);
                } else {
                    assert(t2.len() == 0);
                }
                assert(lookup_in(t2, v) == if v == "version"@ { vv } else { None });
            } else {
                if vv is Some {
                    assert(tail[0].0@ == "version"@ && Some(tail[0].1@) == vv);
                    assert(tail.drop_first().len() == 0);
                    assert(lookup_in(tail.drop_first(), v) is None);
                } else {
                    assert(tail.len() == 0);
                }
            }
        }
        assert(env_of(b) =~= env);
    }
    render(nodes, &b)
}

/// Why a subject's fragment could not be rendered.
#[derive(Debug, PartialEq, Eq, Structural, Clone, Copy)]
pub enum RenderError {
    /// The subject's template is malformed.
    Template(TemplateError),
    /// The version template is malformed.
    VersionTemplate(TemplateError),
}

/// How a pass ends.
pub enum Outcome {
    /// The fragment to show.
    Rendered(Vec<Segment>),
    /// Nothing to show: the subject is disabled or not present.
    Absent,
    /// Nothing to show, and the error is to be reported once as a warning.
    Failed(RenderError),
}

/// What the caller reports back to a pass.
pub enum Event {
    /// The working directory was listed (`None`: it could not be read).
    Listed(Option<DirContents>),
    /// The requested command ran (`None`: it could not be started).
    Ran(Option<CommandOutput>),
}

/// What a pass asks the caller to do next.
pub enum Action {
    /// List the working directory and report it with `Event::Listed`.
    ListDirectory,
    /// Run this command and report it with `Event::Ran`.
    Run(Vec<String>),
    /// The pass is over.
    Finish(Outcome),
}

/// Where a pass stands.
#[derive(Debug, PartialEq, Eq, Structural, Clone, Copy)]
pub enum Phase {
    /// Nothing done yet.
    Start,
    /// Waiting for the directory listing.
    Scanning,
    /// Waiting for the outcome of the candidate command of this index.
    Probing(usize),
    /// Over.
    Done,
}

/// One render pass of one subject.
pub struct Pass {
    pub config: CcConfig,
    /// The compilers that can be told apart, each with a text that only its banner holds.
    pub compilers: Vec<(String, String)>,
    pub phase: Phase,
    /// The parsed template, once the subject was found.
    pub nodes: Vec<Node>,
    /// The parsed version template, where the template shows the version.
    pub version_nodes: Vec<Node>,
}

/// The compilers of each subject, with the text that reveals each in its banner, in the order tried.
pub open spec fn hints_of(lang: Lang) -> Seq<(Seq<char>, Seq<char>)> {
    match lang {
        Lang::C => seq![("clang"@, "clang"@), ("gcc"@, "Free Software Foundation"@)],
        Lang::Cpp => seq![("clang++"@, "clang"@), ("g++"@, "Free Software Foundation"@)],
    }
}

/// Pairs of strings as plain text.
pub open spec fn pair_views(v: Seq<(String, String)>) -> Seq<(Seq<char>, Seq<char>)> {
    v.map_values(|p: (String, String)| (p.0@, p.1@))
}

/// The compilers of a subject.
pub fn compilers_for(lang: Lang) -> (r: Vec<(String, String)>)
    ensures
        pair_views(r@) == hints_of(lang),
{
    let r = match lang {
        Lang::C => vec![
            (owned("clang"), owned("clang")),
            (owned("gcc"), owned("Free Software Foundation")),
        ],
        Lang::Cpp => vec![
            (owned("clang++"), owned("clang")),
            (owned("g++"), owned("Free Software Foundation")),
        ],
    };
    assert(pair_views(r@) =~= hints_of(lang));
    r
}

/// The default descriptor of a subject.
pub fn default_config(lang: Lang) -> (r: CcConfig)
    ensures
        lang == Lang::C ==> crate::config::is_default_c(r),
        lang == Lang::Cpp ==> crate::config::is_default_cpp(r),
{
    match lang {
        Lang::C => {
            let c: CConfig = CConfig::default();
            c.0
        },
        Lang::Cpp => {
            let c: CppConfig = CppConfig::default();
            c.0.0
        },
    }
}

/// A new pass over the subject `lang`, described by `config`.
pub fn module(lang: Lang, config: CcConfig) -> (r: Pass)
    ensures
        r.config == config,
        pair_views(r.compilers@) == hints_of(lang),
        r.phase == Phase::Start,
        r.wf(),
{
    Pass {
        config,
        compilers: compilers_for(lang),
        phase: Phase::Start,
        nodes: Vec::new(),
        version_nodes: Vec::new(),
    }
}

/// The template shows a fact that only the compiler can tell.
pub open spec fn needs_facts(nodes: Seq<SNode>) -> bool {
    references(nodes, "name"@) || references(nodes, "version"@)
}

/// `a` runs the command `argv`.
pub open spec fn runs(a: Action, argv: Seq<Seq<char>>) -> bool {
    a matches Action::Run(v) && views(v@) == argv
}

/// `a` ends the pass showing a fragment of these segments.
pub open spec fn renders(a: Action, segs: Seq<(Seq<char>, Option<Seq<char>>)>) -> bool {
    a matches Action::Finish(Outcome::Rendered(v)) && segments_view(v@) == segs
}

/// `a` ends the pass with nothing to show and nothing to report.
pub open spec fn absent(a: Action) -> bool {
    a matches Action::Finish(Outcome::Absent)
}

/// `a` ends the pass with an error to report.
pub open spec fn failed(a: Action) -> bool {
    a matches Action::Finish(Outcome::Failed(_))
}

/// `a` ends the pass with error `e` to report.
pub open spec fn fails_with(a: Action, e: RenderError) -> bool {
    a matches Action::Finish(Outcome::Failed(x)) && x == e
}

/// `a` asks for a command to be run.
pub open spec fn is_run(a: Action) -> bool {
    a is Run
}

/// What a step of a pass does: from `p`, on `event`, the pass becomes `q` and asks for `a`.
pub open spec fn step_post(p: Pass, event: Event, q: Pass, a: Action) -> bool {
    let commands = argv_list(p.config);
    &&& q.config == p.config
    &&& q.compilers == p.compilers
    &&& q.wf()
    &&& match (p.phase, event) {
        (Phase::Scanning, Event::Listed(None)) => absent(a) && q.phase == Phase::Done,
        (Phase::Scanning, Event::Listed(Some(d))) => if !signals_present(p.config, d) {
            absent(a) && q.phase == Phase::Done
        } else {
            found_post(p, q, a)
        },
        (Phase::Probing(i), Event::Ran(None)) => {
            &&& q.nodes == p.nodes
            &&& q.version_nodes == p.version_nodes
            &&& if i + 1 < commands.len() {
                runs(a, commands[i + 1]) && q.phase == Phase::Probing((i + 1) as usize)
            } else {
                renders(a, config_fragment(p.config, p.compilers@, None)) && q.phase == Phase::Done
            }
        },
        (Phase::Probing(i), Event::Ran(Some(o))) => {
            renders(a, config_fragment(p.config, p.compilers@, Some(o.stdout@))) && q.phase
                == Phase::Done
        },
        _ => absent(a) && q.phase == Phase::Done,
    }
}

/// What a pass does once its subject is found: report a malformed template,
/// or run the first candidate command where the template shows a fact that
/// needs it, or else render the template at once.
pub open spec fn found_post(p: Pass, q: Pass, a: Action) -> bool {
    let format = p.config.format@;
    let commands = argv_list(p.config);
    if template_error(format) is Some {
        fails_with(a, RenderError::Template(template_error(format)->0)) && q.phase == Phase::Done
    } else if text_references(format, "version"@) && template_error(p.config.version_format@) is Some {
        fails_with(a, RenderError::VersionTemplate(template_error(p.config.version_format@)->0))
            && q.phase == Phase::Done
    } else if needs_facts(template_nodes(format)) && commands.len() > 0 {
        runs(a, commands[0]) && q.phase == Phase::Probing(0)
    } else {
        renders(a, config_fragment(p.config, p.compilers@, None)) && q.phase == Phase::Done
    }
}

/// The nodes of the version template, where the template shows the version.
pub open spec fn version_template_nodes(c: CcConfig) -> Seq<SNode> {
    if text_references(c.format@, "version"@) {
        template_nodes(c.version_format@)
    } else {
        Seq::empty()
    }
}

/// The fragment of a subject described by `c` when its compiler printed `out`.
pub open spec fn config_fragment(
    c: CcConfig,
    compilers: Seq<(String, String)>,
    out: Option<Seq<char>>,
) -> Seq<(Seq<char>, Option<Seq<char>>)> {
    fragment(c, template_nodes(c.format@), version_template_nodes(c), compilers, out)
}

/// The pass holds its descriptor's parsed templates.
pub open spec fn holds_templates(p: Pass) -> bool {
    &&& template_error(p.config.format@) is None
    &&& view_nodes(p.nodes@) == template_nodes(p.config.format@)
    &&& view_nodes(p.version_nodes@) == version_template_nodes(p.config)
}

/// The candidate commands of a descriptor, as plain text.
pub open spec fn argv_list(c: CcConfig) -> Seq<Seq<Seq<char>>> {
    crate::config::argv_views(c.commands@)
}

/// The fragment of pass `p` when its compiler printed `out`.
pub open spec fn fragment_of(p: Pass, out: Option<Seq<char>>) -> Seq<(Seq<char>, Option<Seq<char>>)> {
    fragment(p.config, view_nodes(p.nodes@), view_nodes(p.version_nodes@), p.compilers@, out)
}

fn copy_argv(a: &Vec<String>) -> (r: Vec<String>)
    ensures
        views(r@) == views(a@),
{
    let mut r: Vec<String> = Vec::new();
    let mut i: usize = 0;
    while i < a.len()
        invariant
            i <= a@.len(),
            r@.len() == i,
            forall|k: int| 0 <= k < i ==> #[trigger] r@[k]@ == a@[k]@,
        decreases a@.len() - i,
    {
        let c = a[i].clone();
        r.push(c);
        i = i + 1;
    }
    assert(views(r@) =~= views(a@));
    r
}

impl Pass {
    /// A pass only waits for a command that exists.
    pub open spec fn wf(&self) -> bool {
        self.phase matches Phase::Probing(i) ==> i < self.config.commands@.len() && holds_templates(
            *self,
        )
    }

    /// Begins the pass: a disabled subject ends it at once, with nothing to
    /// show; otherwise the directory is to be listed.
    pub fn start(&mut self) -> (r: Action)
        ensures
            final(self).config == old(self).config,
            final(self).compilers == old(self).compilers,
            final(self).wf(),
            old(self).phase == Phase::Start && old(self).config.disabled ==> absent(r)
                && final(self).phase == Phase::Done,
            old(self).phase == Phase::Start && !old(self).config.disabled ==> r is ListDirectory
                && final(self).phase == Phase::Scanning,
            old(self).phase != Phase::Start ==> absent(r) && final(self).phase == Phase::Done,
    {
        if self.phase == Phase::Start && !self.config.disabled {
            self.phase = Phase::Scanning;
            Action::ListDirectory
        } else {
            self.phase = Phase::Done;
            Action::Finish(Outcome::Absent)
        }
    }

    fn finish(&mut self, out: &Option<CommandOutput>) -> (r: Action)
        ensures
            final(self).config == old(self).config,
            final(self).compilers == old(self).compilers,
            final(self).nodes == old(self).nodes,
            final(self).version_nodes == old(self).version_nodes,
            final(self).phase == Phase::Done,
            renders(r, fragment_of(*old(self), output_view(*out))),
    {
        let segs = render_fragment(&self.config, &self.nodes, &self.version_nodes, &self.compilers, out);
        self.phase = Phase::Done;
        Action::Finish(Outcome::Rendered(segs))
    }

    fn found(&mut self) -> (r: Action)
        requires
            old(self).phase == Phase::Scanning,
        ensures
            final(self).config == old(self).config,
            final(self).compilers == old(self).compilers,
            final(self).wf(),
            found_post(*old(self), *final(self), r),
    {
        let nodes = match parse(self.config.format.as_str()) {
            Ok(n) => n,
            Err(e) => {
                self.phase = Phase::Done;
                return Action::Finish(Outcome::Failed(RenderError::Template(e)));
            },
        };
        let uses_version = mentions_variable(&nodes, &owned("version"));
        let uses_name = mentions_variable(&nodes, &owned("name"));
        self.nodes = nodes;
        self.version_nodes = Vec::new();
        assert(view_nodes(self.version_nodes@) =~= Seq::empty());
        if uses_version {
            match parse(self.config.version_format.as_str()) {
                Ok(v) => {
                    self.version_nodes = v;
                },
                Err(e) => {
                    self.phase = Phase::Done;
                    return Action::Finish(Outcome::Failed(RenderError::VersionTemplate(e)));
                },
            }
        }
        if (uses_name || uses_version) && self.config.commands.len() > 0 {
            self.phase = Phase::Probing(0);
            Action::Run(copy_argv(&self.config.commands[0]))
        } else {
            self.finish(&None)
        }
    }

    /// Advances the pass by one reported event.
    pub fn step(&mut self, event: Event) -> (r: Action)
        requires
            old(self).wf(),
        ensures
            step_post(*old(self), event, *final(self), r),
    {
        match (self.phase, event) {
            (Phase::Scanning, Event::Listed(None)) => {
                self.phase = Phase::Done;
                Action::Finish(Outcome::Absent)
            },
            (Phase::Scanning, Event::Listed(Some(d))) => {
                if !is_cc_project(&self.config, &d) {
                    self.phase = Phase::Done;
                    Action::Finish(Outcome::Absent)
                } else {
                    self.found()
                }
            },
            (Phase::Probing(i), Event::Ran(None)) => {
                assert(i < self.config.commands@.len());
                if i < self.config.commands.len() - 1 {
                    self.phase = Phase::Probing(i + 1);
                    Action::Run(copy_argv(&self.config.commands[i + 1]))
                } else {
                    self.finish(&None)
                }
            },
            (Phase::Probing(_), Event::Ran(Some(o))) => {
                let out = Some(o);
                self.finish(&out)
            },
            _ => {
                self.phase = Phase::Done;
                Action::Finish(Outcome::Absent)
            },
        }
    }
}

} // verus!
