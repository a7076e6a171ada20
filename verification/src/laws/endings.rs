//! What holds of the endings that the rules of conjugation give.

use crate::conjugate::{chain_suffix, first_of, RenderError};
use crate::root::{RootKind, RootView, Step};
use vstd::prelude::*;

verus! {

/// `tail` behind what `ending` holds, or the error that `ending` holds.
pub open spec fn followed(ending: Result<Seq<char>, RenderError>, tail: Seq<char>) -> Result<
    Seq<char>,
    RenderError,
> {
    match ending {
        Ok(text) => Ok(text + tail),
        Err(e) => Err(e),
    }
}

/// A question particle behind a chain of steps adds か and changes nothing
/// in front of it: the step before it closes the word as if it were the
/// last.
pub proof fn lemma_question_adds_ka(acting: Option<RootKind>, steps: Seq<Step>)
    ensures
        chain_suffix(acting, steps.push(Step::Ka)) == followed(chain_suffix(acting, steps), "か"@),
    decreases steps.len(),
{
    let asked = steps.push(Step::Ka);
    if steps.len() == 0 {
        assert(asked.drop_first() =~= Seq::<Step>::empty());
        assert(chain_suffix(Step::Ka.acting_after(acting, None), asked.drop_first()) == Ok::<
            Seq<char>,
            RenderError,
        >(Seq::empty()));
        assert("か"@ + Seq::<char>::empty() =~= Seq::<char>::empty() + "か"@);
    } else {
        let step = steps.first();
        let rest = steps.drop_first();
        assert(asked.first() == step);
        assert(asked.drop_first() =~= rest.push(Step::Ka));
        let next = first_of(rest);
        let next_asked = first_of(rest.push(Step::Ka));
        assert(step.rendering(acting, next_asked) == step.rendering(acting, next));
        assert(step.acting_after(acting, next_asked) == step.acting_after(acting, next));
        lemma_question_adds_ka(step.acting_after(acting, next), rest);
        match step.rendering(acting, next) {
            Ok(form) => {
                let behind = chain_suffix(step.acting_after(acting, next), rest);
                if behind is Ok {
                    assert(form + (behind->Ok_0 + "か"@) =~= (form + behind->Ok_0) + "か"@);
                }
            },
            Err(_) => {},
        }
    }
}

/// The same of a root: where it has a step at all, a question particle
/// behind its steps adds か to its ending.
pub proof fn lemma_question_adds_ka_to_root(root: RootView)
    requires
        root.steps.len() > 0,
    ensures
        (RootView { steps: root.steps.push(Step::Ka), ..root }).conjugation_suffix() == followed(
            root.conjugation_suffix(),
            "か"@,
        ),
{
    lemma_question_adds_ka(Some(root.kind), root.steps);
}

/// The pairs of kind and step for which the rules are known to hold no
/// form: the causative and the passive of a な adjective, and the
/// potential of a する verb. They are reported as such wherever they stand
/// in a chain.
pub proof fn lemma_known_gaps_are_unsupported(next: Option<Step>)
    ensures
        Step::Causative.rendering(Some(RootKind::NaAdjective), next) == Err::<
            Seq<char>,
            RenderError,
        >(RenderError::Unsupported { kind: RootKind::NaAdjective, step: Step::Causative }),
        Step::Passive.rendering(Some(RootKind::NaAdjective), next) == Err::<
            Seq<char>,
            RenderError,
        >(RenderError::Unsupported { kind: RootKind::NaAdjective, step: Step::Passive }),
        Step::Potential.rendering(Some(RootKind::Suru), next) == Err::<Seq<char>, RenderError>(
            RenderError::Unsupported { kind: RootKind::Suru, step: Step::Potential },
        ),
        Step::Potential.rendering(Some(RootKind::SpecialSuru), next) == Err::<
            Seq<char>,
            RenderError,
        >(RenderError::Unsupported { kind: RootKind::SpecialSuru, step: Step::Potential }),
{
}

/// A chain whose first step has no form for the kind it is applied to has
/// no ending, whatever follows.
pub proof fn lemma_first_gap_decides(kind: RootKind, steps: Seq<Step>)
    requires
        steps.len() > 0,
        steps[0].form_for(kind, first_of(steps.drop_first())) is None,
    ensures
        chain_suffix(Some(kind), steps) == Err::<Seq<char>, RenderError>(
            RenderError::Unsupported { kind, step: steps[0] },
        ),
{
}

} // verus!
