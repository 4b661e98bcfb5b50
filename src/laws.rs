//! Properties of a render pass that span several steps.
use vstd::prelude::*;
use crate::detect::{DirContents, signals_present};
use crate::module::{
    Action, CommandOutput, Event, Outcome, Pass, Phase, RenderError, absent, argv_list,
    config_fragment, failed, fails_with, is_run, needs_facts, renders, runs, step_post,
};
use crate::template::{segments_view, template_error, template_nodes};
use crate::text::views;

verus! {

/// Once a command has started, no later step of the pass runs another: the
/// compiler is probed at most once per pass.
pub proof fn lemma_single_probe(
    p0: Pass,
    o: CommandOutput,
    p1: Pass,
    a1: Action,
    e: Event,
    p2: Pass,
    a2: Action,
)
    requires
        p0.phase is Probing,
        step_post(p0, Event::Ran(Some(o)), p1, a1),
        step_post(p1, e, p2, a2),
    ensures
        !is_run(a1),
        !is_run(a2),
{
}

/// When the subject is found and its template shows the compiler's name or
/// version, the first candidate command is run (unless a template is
/// malformed); when it shows neither, no command is run and the fragment is
/// rendered at once.
pub proof fn lemma_probe_iff_needed(p0: Pass, d: DirContents, p1: Pass, a1: Action)
    requires
        p0.phase == Phase::Scanning,
        signals_present(p0.config, d),
        step_post(p0, Event::Listed(Some(d)), p1, a1),
        !failed(a1),
    ensures
        needs_facts(template_nodes(p0.config.format@)) && p0.config.commands@.len() > 0 ==> runs(
            a1,
            argv_list(p0.config)[0],
        ),
        !needs_facts(template_nodes(p0.config.format@)) ==> !is_run(a1) && renders(
            a1,
            config_fragment(p0.config, p0.compilers@, None),
        ),
{
}

/// Candidates are tried in order: when the one at `i` cannot be started and
/// the next one can, the next one's output is what is rendered, and nothing
/// after it is tried.
pub proof fn lemma_fallback_order(
    p0: Pass,
    i: usize,
    p1: Pass,
    a1: Action,
    o: CommandOutput,
    p2: Pass,
    a2: Action,
    e: Event,
    p3: Pass,
    a3: Action,
)
    requires
        p0.phase == Phase::Probing(i),
        i + 1 < p0.config.commands@.len(),
        step_post(p0, Event::Ran(None), p1, a1),
        step_post(p1, Event::Ran(Some(o)), p2, a2),
        step_post(p2, e, p3, a3),
    ensures
        runs(a1, argv_list(p0.config)[i + 1]),
        renders(a2, config_fragment(p0.config, p0.compilers@, Some(o.stdout@))),
        !is_run(a3),
{
}

/// A step is repeatable: the same pass, given the same event (the same
/// directory listing, or the same outcome of a command), asks for the same
/// thing, renders the same fragment, or reports the same error.
pub proof fn lemma_step_repeatable(p: Pass, e: Event, q1: Pass, a1: Action, q2: Pass, a2: Action)
    requires
        step_post(p, e, q1, a1),
        step_post(p, e, q2, a2),
    ensures
        q1.phase == q2.phase,
        is_run(a1) == is_run(a2),
        absent(a1) == absent(a2),
        a1 matches Action::Finish(Outcome::Rendered(s1)) ==> a2 matches Action::Finish(
            Outcome::Rendered(s2),
        ) && segments_view(s1@) == segments_view(s2@),
        a1 matches Action::Run(c1) ==> a2 matches Action::Run(c2) && views(c1@) == views(c2@),
        a1 matches Action::Finish(Outcome::Failed(x1)) ==> a2 matches Action::Finish(
            Outcome::Failed(x2),
        ) && x1 == x2,
{
}

/// A malformed template ends the pass of a present subject with that one
/// error to report: no command is run, and no later step reports anything.
pub proof fn lemma_malformed_template_fails_once(
    p0: Pass,
    d: DirContents,
    p1: Pass,
    a1: Action,
    e: Event,
    p2: Pass,
    a2: Action,
)
    requires
        p0.phase == Phase::Scanning,
        signals_present(p0.config, d),
        template_error(p0.config.format@) is Some,
        step_post(p0, Event::Listed(Some(d)), p1, a1),
        step_post(p1, e, p2, a2),
    ensures
        fails_with(a1, RenderError::Template(template_error(p0.config.format@)->0)),
        !is_run(a2),
        !failed(a2),
{
}

} // verus!
