//! The steps found so far stay at the end of every chain.
//!
//! The grammar puts each step that it recognises in front of the steps
//! that it recognised in what stood behind, and takes none away. So
//! whatever it makes of what is left of a word, the steps found so far
//! close the chain of every root. This is shown for its functions one by
//! one.

use crate::grammar::{
    after_ru, before, causative_roots, continuous_roots, da_ending_roots, da_stem_roots,
    de_ending_roots, de_stem_roots, e_stem_roots, ending_roots, expression_roots,
    i_adjective_roots, i_ending_roots, ichidan_ending_roots, ichidan_roots, kereba_roots,
    masu_stem_roots, negative_roots, other_negative_roots, passive_roots, potential_roots,
    ra_ending_roots, ri_ending_roots, short_ending_roots, small_ya_roots, ta_ending_roots,
    ta_stem_roots, te_ending_roots, te_stem_roots, u_ending_roots, without,
};
use crate::root::{RootView, Step};
use vstd::prelude::*;

verus! {

/// Whether `chain` ends with `steps`.
pub open spec fn closes_with(chain: Seq<Step>, steps: Seq<Step>) -> bool {
    steps.len() <= chain.len() && chain.skip(chain.len() - steps.len()) == steps
}

/// Whether the chain of every one of `roots` ends with `steps`.
pub open spec fn all_keep(roots: Seq<RootView>, steps: Seq<Step>) -> bool {
    forall|i: int| 0 <= i < roots.len() ==> closes_with((#[trigger] roots[i]).steps, steps)
}

/// A chain ends with itself, and still ends with it when steps are put in
/// front.
proof fn lemma_longer_chains_keep(steps: Seq<Step>)
    ensures
        closes_with(steps, steps),
        closes_with(after_ru(steps), steps),
        forall|s: Step| closes_with(#[trigger] before(s, steps), steps),
{
    assert(steps.skip(0) =~= steps);
    let handed = after_ru(steps);
    assert(handed.skip(handed.len() - steps.len()) =~= steps);
    assert forall|s: Step| closes_with(#[trigger] before(s, steps), steps) by {
        assert(before(s, steps).skip(1) =~= steps);
    }
}

/// Roots that keep a longer chain keep what the longer chain ends with.
proof fn lemma_keep_end(roots: Seq<RootView>, longer: Seq<Step>, steps: Seq<Step>)
    requires
        all_keep(roots, longer),
        closes_with(longer, steps),
    ensures
        all_keep(roots, steps),
{
    assert forall|i: int| 0 <= i < roots.len() implies closes_with(
        (#[trigger] roots[i]).steps,
        steps,
    ) by {
        let chain = roots[i].steps;
        assert(closes_with(chain, longer));
        let kept = chain.skip(chain.len() - longer.len());
        assert(chain.skip(chain.len() - steps.len()) =~= kept.skip(longer.len() - steps.len()));
    }
}

/// Roots that keep the steps with one more in front keep the steps.
proof fn lemma_keep_behind(roots: Seq<RootView>, step: Step, steps: Seq<Step>)
    requires
        all_keep(roots, before(step, steps)),
    ensures
        all_keep(roots, steps),
{
    lemma_longer_chains_keep(steps);
    lemma_keep_end(roots, before(step, steps), steps);
}

proof fn lemma_masu_stem_roots_keep(chars: Seq<char>, steps: Seq<Step>)
    ensures
        all_keep(masu_stem_roots(chars, steps), steps),
{
    lemma_longer_chains_keep(steps);
}

proof fn lemma_de_stem_roots_keep(chars: Seq<char>, steps: Seq<Step>)
    ensures
        all_keep(de_stem_roots(chars, steps), steps),
{
    lemma_longer_chains_keep(steps);
}

proof fn lemma_da_stem_roots_keep(chars: Seq<char>, steps: Seq<Step>)
    ensures
        all_keep(da_stem_roots(chars, steps), steps),
{
    lemma_longer_chains_keep(steps);
}

proof fn lemma_te_stem_roots_keep(chars: Seq<char>, steps: Seq<Step>)
    ensures
        all_keep(te_stem_roots(chars, steps), steps),
    decreases chars.len(), 0nat,
{
    lemma_longer_chains_keep(steps);
    if chars.len() > 0 && chars.last() == 'れ' {
        lemma_passive_roots_keep(chars.drop_last(), steps);
    }
}

proof fn lemma_te_ending_roots_keep(chars: Seq<char>, steps: Seq<Step>)
    ensures
        all_keep(te_ending_roots(chars, steps), steps),
    decreases chars.len(), 1nat,
{
    lemma_longer_chains_keep(steps);
    lemma_te_stem_roots_keep(chars, before(Step::Te, steps));
    lemma_keep_behind(te_stem_roots(chars, before(Step::Te, steps)), Step::Te, steps);
}

proof fn lemma_small_ya_roots_keep(chars: Seq<char>, steps: Seq<Step>)
    ensures
        all_keep(small_ya_roots(chars, steps), steps),
{
    if chars.len() > 0 {
        let rest = chars.drop_last();
        let chau = before(Step::Chau, steps);
        lemma_te_stem_roots_keep(rest, chau);
        lemma_de_stem_roots_keep(rest, chau);
        lemma_keep_behind(te_stem_roots(rest, chau), Step::Chau, steps);
        lemma_keep_behind(de_stem_roots(rest, chau), Step::Chau, steps);
    }
}

proof fn lemma_i_adjective_roots_keep(chars: Seq<char>, steps: Seq<Step>)
    ensures
        all_keep(i_adjective_roots(chars, steps), steps),
    decreases chars.len(), 0nat,
{
    lemma_longer_chains_keep(steps);
    if chars.len() > 0 {
        let rest = chars.drop_last();
        let nai = before(Step::Nai, steps);
        let tai = before(Step::Tai, steps);
        lemma_negative_roots_keep(rest, nai);
        lemma_masu_stem_roots_keep(rest, tai);
        lemma_keep_behind(negative_roots(rest, nai), Step::Nai, steps);
        lemma_keep_behind(masu_stem_roots(rest, tai), Step::Tai, steps);
    }
}

proof fn lemma_negative_roots_keep(chars: Seq<char>, steps: Seq<Step>)
    ensures
        all_keep(negative_roots(chars, steps), steps),
    decreases chars.len(), 3nat,
{
    lemma_other_negative_roots_keep(chars, steps);
    lemma_ichidan_roots_keep(chars, steps, false);
}

proof fn lemma_other_negative_roots_keep(chars: Seq<char>, steps: Seq<Step>)
    ensures
        all_keep(other_negative_roots(chars, steps), steps),
    decreases chars.len(), 0nat,
{
    lemma_longer_chains_keep(steps);
    if chars.len() > 0 {
        let rest = chars.drop_last();
        let ku = before(Step::AdverbialKu, steps);
        lemma_causative_roots_keep(rest, steps);
        lemma_i_adjective_roots_keep(rest, ku);
        lemma_keep_behind(i_adjective_roots(rest, ku), Step::AdverbialKu, steps);
    }
}

proof fn lemma_causative_roots_keep(chars: Seq<char>, steps: Seq<Step>)
    ensures
        all_keep(causative_roots(chars, steps), steps),
    decreases chars.len(), 1nat,
{
    let causative = before(Step::Causative, steps);
    lemma_other_negative_roots_keep(chars, causative);
    lemma_keep_behind(other_negative_roots(chars, causative), Step::Causative, steps);
    if chars.len() > 0 {
        let rest = chars.drop_last();
        lemma_ichidan_roots_keep(rest, causative, true);
        lemma_keep_behind(ichidan_roots(rest, causative, true), Step::Causative, steps);
    }
}

proof fn lemma_passive_roots_keep(chars: Seq<char>, steps: Seq<Step>)
    ensures
        all_keep(passive_roots(chars, steps), steps),
    decreases chars.len(), 1nat,
{
    let passive = before(Step::Passive, steps);
    lemma_other_negative_roots_keep(chars, passive);
    lemma_keep_behind(other_negative_roots(chars, passive), Step::Passive, steps);
    if chars.len() > 0 {
        let rest = chars.drop_last();
        lemma_ichidan_roots_keep(rest, passive, false);
        lemma_causative_roots_keep(rest, passive);
        lemma_keep_behind(ichidan_roots(rest, passive, false), Step::Passive, steps);
        lemma_keep_behind(causative_roots(rest, passive), Step::Passive, steps);
    }
}

proof fn lemma_continuous_roots_keep(chars: Seq<char>, steps: Seq<Step>)
    ensures
        all_keep(continuous_roots(chars, steps), steps),
    decreases chars.len(), 0nat,
{
    if chars.len() > 0 {
        let rest = chars.drop_last();
        let continuous = before(Step::Continuous, steps);
        lemma_te_ending_roots_keep(rest, continuous);
        lemma_de_ending_roots_keep(rest, continuous);
        lemma_keep_behind(te_ending_roots(rest, continuous), Step::Continuous, steps);
        lemma_keep_behind(de_ending_roots(rest, continuous), Step::Continuous, steps);
    }
}

proof fn lemma_de_ending_roots_keep(chars: Seq<char>, steps: Seq<Step>)
    ensures
        all_keep(de_ending_roots(chars, steps), steps),
    decreases chars.len(), 0nat,
{
    let te = before(Step::Te, steps);
    lemma_de_stem_roots_keep(chars, te);
    lemma_keep_behind(de_stem_roots(chars, te), Step::Te, steps);
    if chars.len() >= 2 {
        let rest = without(chars, 2);
        let naide = before(Step::Naide, steps);
        lemma_negative_roots_keep(rest, naide);
        lemma_keep_behind(negative_roots(rest, naide), Step::Naide, steps);
    }
}

proof fn lemma_potential_roots_keep(chars: Seq<char>, steps: Seq<Step>)
    ensures
        all_keep(potential_roots(chars, steps), steps),
    decreases chars.len(), 1nat,
{
    let potential = before(Step::Potential, steps);
    lemma_e_stem_roots_keep(chars, potential, false);
    lemma_keep_behind(e_stem_roots(chars, potential, false), Step::Potential, steps);
}

proof fn lemma_ichidan_ending_roots_keep(chars: Seq<char>, steps: Seq<Step>)
    ensures
        all_keep(ichidan_ending_roots(chars, steps), steps),
    decreases chars.len(), 1nat,
{
    lemma_longer_chains_keep(steps);
    if chars.len() > 0 {
        let rest = chars.drop_last();
        let handed = after_ru(steps);
        lemma_te_ending_roots_keep(rest, handed);
        lemma_de_ending_roots_keep(rest, handed);
        lemma_keep_end(te_ending_roots(rest, handed), handed, steps);
        lemma_keep_end(de_ending_roots(rest, handed), handed, steps);
        lemma_continuous_roots_keep(rest, steps);
        lemma_causative_roots_keep(rest, steps);
        lemma_passive_roots_keep(rest, steps);
    }
}

proof fn lemma_ichidan_roots_keep(chars: Seq<char>, steps: Seq<Step>, suru_possible: bool)
    ensures
        all_keep(ichidan_roots(chars, steps, suru_possible), steps),
    decreases chars.len(), 2nat,
{
    lemma_longer_chains_keep(steps);
    lemma_potential_roots_keep(chars, steps);
    lemma_ichidan_ending_roots_keep(chars, steps);
}

proof fn lemma_e_stem_roots_keep(chars: Seq<char>, steps: Seq<Step>, conditional: bool)
    ensures
        all_keep(e_stem_roots(chars, steps, conditional), steps),
    decreases chars.len(), 0nat,
{
    lemma_longer_chains_keep(steps);
    if chars.len() > 0 {
        let rest = chars.drop_last();
        lemma_ichidan_roots_keep(rest, steps, false);
        if rest.len() > 0 {
            lemma_ichidan_roots_keep(rest.drop_last(), steps, false);
        }
    }
}

proof fn lemma_ta_stem_roots_keep(chars: Seq<char>, steps: Seq<Step>)
    ensures
        all_keep(ta_stem_roots(chars, steps), steps),
{
    lemma_longer_chains_keep(steps);
    let potential = before(Step::Potential, steps);
    lemma_e_stem_roots_keep(chars, potential, false);
    lemma_keep_behind(e_stem_roots(chars, potential, false), Step::Potential, steps);
    if chars.len() > 1 {
        let stem = chars.drop_last().drop_last();
        let masu = before(Step::Masu, steps);
        lemma_masu_stem_roots_keep(stem, masu);
        lemma_keep_behind(masu_stem_roots(stem, masu), Step::Masu, steps);
    }
}

proof fn lemma_ta_ending_roots_keep(chars: Seq<char>, steps: Seq<Step>)
    ensures
        all_keep(ta_ending_roots(chars, steps), steps),
{
    lemma_longer_chains_keep(steps);
    let past = before(Step::Ta, steps);
    lemma_ta_stem_roots_keep(chars, past);
    lemma_keep_behind(ta_stem_roots(chars, past), Step::Ta, steps);
    if chars.len() > 0 {
        let rest = chars.drop_last();
        let abbreviated = before(Step::ContRuAbbrev, past);
        lemma_continuous_roots_keep(rest, past);
        lemma_passive_roots_keep(rest, past);
        lemma_keep_behind(continuous_roots(rest, past), Step::Ta, steps);
        lemma_keep_behind(passive_roots(rest, past), Step::Ta, steps);
        lemma_te_ending_roots_keep(rest, abbreviated);
        lemma_de_ending_roots_keep(rest, abbreviated);
        lemma_keep_behind(te_ending_roots(rest, abbreviated), Step::ContRuAbbrev, past);
        lemma_keep_behind(de_ending_roots(rest, abbreviated), Step::ContRuAbbrev, past);
        lemma_keep_behind(te_ending_roots(rest, abbreviated), Step::Ta, steps);
        lemma_keep_behind(de_ending_roots(rest, abbreviated), Step::Ta, steps);
        if rest.len() > 0 {
            let stem = rest.drop_last();
            lemma_small_ya_roots_keep(stem, past);
            lemma_keep_behind(small_ya_roots(stem, past), Step::Ta, steps);
            if stem.len() > 0 {
                let inner = stem.drop_last();
                let nakatta = before(Step::Nakatta, steps);
                lemma_negative_roots_keep(inner, nakatta);
                lemma_keep_behind(negative_roots(inner, nakatta), Step::Nakatta, steps);
            }
        }
    }
}

proof fn lemma_i_ending_roots_keep(chars: Seq<char>, steps: Seq<Step>)
    ensures
        all_keep(i_ending_roots(chars, steps), steps),
{
    lemma_longer_chains_keep(steps);
    if chars.len() > 0 {
        let rest = chars.drop_last();
        let nai = before(Step::Nai, steps);
        let tai = before(Step::Tai, steps);
        lemma_negative_roots_keep(rest, nai);
        lemma_masu_stem_roots_keep(rest, tai);
        lemma_keep_behind(negative_roots(rest, nai), Step::Nai, steps);
        lemma_keep_behind(masu_stem_roots(rest, tai), Step::Tai, steps);
        if rest.len() > 0 {
            let stem = rest.drop_last();
            let nasai = before(Step::Nasai, steps);
            lemma_masu_stem_roots_keep(stem, nasai);
            lemma_keep_behind(masu_stem_roots(stem, nasai), Step::Nasai, steps);
        }
    }
}

proof fn lemma_u_ending_roots_keep(chars: Seq<char>, steps: Seq<Step>)
    ensures
        all_keep(u_ending_roots(chars, steps), steps),
{
    lemma_longer_chains_keep(steps);
    if chars.len() > 0 {
        let rest = chars.drop_last();
        lemma_small_ya_roots_keep(rest, steps);
        if rest.len() >= 2 {
            let stem = without(rest, 2);
            let invitational = before(Step::Invitational, steps);
            lemma_masu_stem_roots_keep(stem, invitational);
            lemma_keep_behind(masu_stem_roots(stem, invitational), Step::Invitational, steps);
        }
    }
}

proof fn lemma_ra_ending_roots_keep(chars: Seq<char>, steps: Seq<Step>)
    ensures
        all_keep(ra_ending_roots(chars, steps), steps),
{
    if chars.len() > 0 {
        let rest = chars.drop_last();
        let tara = before(Step::Tara, steps);
        lemma_ta_stem_roots_keep(rest, tara);
        lemma_da_stem_roots_keep(rest, tara);
        lemma_keep_behind(ta_stem_roots(rest, tara), Step::Tara, steps);
        lemma_keep_behind(da_stem_roots(rest, tara), Step::Tara, steps);
        if rest.len() > 0 {
            let stem = rest.drop_last();
            let nagara = before(Step::Nagara, steps);
            lemma_masu_stem_roots_keep(stem, nagara);
            lemma_keep_behind(masu_stem_roots(stem, nagara), Step::Nagara, steps);
        }
    }
}

proof fn lemma_ri_ending_roots_keep(chars: Seq<char>, steps: Seq<Step>)
    ensures
        all_keep(ri_ending_roots(chars, steps), steps),
{
    lemma_longer_chains_keep(steps);
    if chars.len() > 0 {
        let rest = chars.drop_last();
        let tari = before(Step::Tari, steps);
        lemma_ta_stem_roots_keep(rest, tari);
        lemma_da_stem_roots_keep(rest, tari);
        lemma_keep_behind(ta_stem_roots(rest, tari), Step::Tari, steps);
        lemma_keep_behind(da_stem_roots(rest, tari), Step::Tari, steps);
    }
}

proof fn lemma_kereba_roots_keep(chars: Seq<char>, steps: Seq<Step>)
    ensures
        all_keep(kereba_roots(chars, steps), steps),
{
    if chars.len() >= 3 {
        let rest = without(chars, 3);
        let kereba = before(Step::Kereba, steps);
        lemma_i_adjective_roots_keep(rest, kereba);
        lemma_keep_behind(i_adjective_roots(rest, kereba), Step::Kereba, steps);
    }
}

proof fn lemma_short_ending_roots_keep(chars: Seq<char>, steps: Seq<Step>)
    ensures
        all_keep(short_ending_roots(chars, steps), steps),
    decreases chars.len(), 0nat,
{
    if chars.len() >= 2 {
        let rest = without(chars, 2);
        let teku = before(Step::Teku, steps);
        lemma_te_stem_roots_keep(rest, teku);
        lemma_keep_behind(te_stem_roots(rest, teku), Step::Teku, steps);
    }
    if chars.len() > 0 {
        lemma_ending_roots_keep(chars.drop_last(), chars.last(), steps);
    }
}

proof fn lemma_expression_roots_keep(chars: Seq<char>, steps: Seq<Step>)
    ensures
        all_keep(expression_roots(chars, steps), steps),
    decreases chars.len(), 1nat,
{
    lemma_longer_chains_keep(steps);
    lemma_kereba_roots_keep(chars, steps);
    lemma_short_ending_roots_keep(chars, steps);
    if chars.len() >= 3 {
        let rest = without(chars, 3);
        let nakya = before(Step::Nakya, steps);
        let masen = before(Step::Masen, steps);
        lemma_negative_roots_keep(rest, nakya);
        lemma_masu_stem_roots_keep(rest, masen);
        lemma_keep_behind(negative_roots(rest, nakya), Step::Nakya, steps);
        lemma_keep_behind(masu_stem_roots(rest, masen), Step::Masen, steps);
    }
    if chars.len() >= 2 {
        let rest = without(chars, 2);
        let masu = before(Step::Masu, steps);
        lemma_masu_stem_roots_keep(rest, masu);
        lemma_keep_behind(masu_stem_roots(rest, masu), Step::Masu, steps);
    }
}

proof fn lemma_da_ending_roots_keep(chars: Seq<char>, steps: Seq<Step>)
    ensures
        all_keep(da_ending_roots(chars, steps), steps),
    decreases chars.len(), 0nat,
{
    let past = before(Step::Ta, steps);
    lemma_da_stem_roots_keep(chars, past);
    lemma_keep_behind(da_stem_roots(chars, past), Step::Ta, steps);
    if chars.len() > 0 {
        let rest = chars.drop_last();
        let nda = before(Step::Nda, steps);
        lemma_expression_roots_keep(rest, nda);
        lemma_keep_behind(expression_roots(rest, nda), Step::Nda, steps);
    }
}

proof fn lemma_ending_roots_keep(chars: Seq<char>, last: char, steps: Seq<Step>)
    ensures
        all_keep(ending_roots(chars, last, steps), steps),
    decreases chars.len(), 2nat,
{
    lemma_longer_chains_keep(steps);
    match last {
        'て' => lemma_te_ending_roots_keep(chars, steps),
        'で' => lemma_de_ending_roots_keep(chars, steps),
        'た' => lemma_ta_ending_roots_keep(chars, steps),
        'だ' => lemma_da_ending_roots_keep(chars, steps),
        'い' => lemma_i_ending_roots_keep(chars, steps),
        'う' => lemma_u_ending_roots_keep(chars, steps),
        'ら' => lemma_ra_ending_roots_keep(chars, steps),
        'り' => lemma_ri_ending_roots_keep(chars, steps),
        'る' => lemma_ichidan_roots_keep(chars, steps, false),
        'か' => {
            let ka = before(Step::Ka, steps);
            lemma_expression_roots_keep(chars, ka);
            lemma_keep_behind(expression_roots(chars, ka), Step::Ka, steps);
        },
        'く' => {
            let ku = before(Step::AdverbialKu, steps);
            lemma_i_adjective_roots_keep(chars, ku);
            lemma_keep_behind(i_adjective_roots(chars, ku), Step::AdverbialKu, steps);
        },
        'ず' => {
            let zu = before(Step::Zu, steps);
            lemma_negative_roots_keep(chars, zu);
            lemma_keep_behind(negative_roots(chars, zu), Step::Zu, steps);
        },
        'ぬ' => {
            let nu = before(Step::Nu, steps);
            lemma_negative_roots_keep(chars, nu);
            lemma_keep_behind(negative_roots(chars, nu), Step::Nu, steps);
        },
        'ば' => {
            let ba = before(Step::Ba, steps);
            lemma_e_stem_roots_keep(chars, ba, true);
            lemma_keep_behind(e_stem_roots(chars, ba, true), Step::Ba, steps);
        },
        'せ' => {
            let stem = before(Step::Stem, steps);
            lemma_causative_roots_keep(chars, stem);
            lemma_keep_behind(causative_roots(chars, stem), Step::Stem, steps);
        },
        _ => {},
    }
}

/// Whatever is made of what is left of a word, the steps found so far
/// close the chain of every root: new steps are put in front of them, and
/// none is taken away.
pub proof fn lemma_roots_keep_steps(chars: Seq<char>, steps: Seq<Step>, i: int)
    requires
        0 <= i < expression_roots(chars, steps).len(),
    ensures
        closes_with(expression_roots(chars, steps)[i].steps, steps),
{
    lemma_expression_roots_keep(chars, steps);
}

} // verus!
