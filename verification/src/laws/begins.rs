//! The text of a root is the beginning of the word it was found in.
//!
//! The grammar only ever takes characters off the end of a word, so this
//! holds of each of its functions, and it is shown for them one by one.

use crate::grammar::{
    after_ru, before, causative_roots, continuous_roots, da_ending_roots, da_stem_roots,
    de_ending_roots, de_stem_roots, e_stem_roots, ending_roots, expression_roots,
    i_adjective_roots, i_ending_roots, ichidan_ending_roots, ichidan_roots, kereba_roots,
    masu_stem_roots,
    negative_roots, other_negative_roots, passive_roots, potential_roots, ra_ending_roots,
    ri_ending_roots, roots_of, short_ending_roots, small_ya_roots, ta_ending_roots, ta_stem_roots, te_ending_roots,
    te_stem_roots, u_ending_roots, without,
};
use crate::root::{RootView, Step};
use vstd::prelude::*;

verus! {

/// Whether every one of `roots` has a text that `chars` begins with.
pub open spec fn all_begin(roots: Seq<RootView>, chars: Seq<char>) -> bool {
    forall|i: int| 0 <= i < roots.len() ==> (#[trigger] roots[i]).text.is_prefix_of(chars)
}

/// What begins a part of a word begins the word.
proof fn lemma_begin_longer(roots: Seq<RootView>, part: Seq<char>, chars: Seq<char>)
    requires
        all_begin(roots, part),
        part.is_prefix_of(chars),
    ensures
        all_begin(roots, chars),
{
    assert forall|i: int| 0 <= i < roots.len() implies (#[trigger] roots[i]).text.is_prefix_of(
        chars,
    ) by {
        let text = roots[i].text;
        assert(text.is_prefix_of(part));
        assert(text =~= chars.subrange(0, text.len() as int));
    }
}

/// `chars` without some of its last characters begins `chars`.
proof fn lemma_without_begins(chars: Seq<char>, count: nat)
    requires
        count <= chars.len(),
    ensures
        without(chars, count).is_prefix_of(chars),
        chars.is_prefix_of(chars),
{
}

proof fn lemma_masu_stem_roots_begin(chars: Seq<char>, steps: Seq<Step>)
    ensures
        all_begin(masu_stem_roots(chars, steps), chars),
{
}

proof fn lemma_de_stem_roots_begin(chars: Seq<char>, steps: Seq<Step>)
    ensures
        all_begin(de_stem_roots(chars, steps), chars),
{
}

proof fn lemma_da_stem_roots_begin(chars: Seq<char>, steps: Seq<Step>)
    ensures
        all_begin(da_stem_roots(chars, steps), chars),
{
}

proof fn lemma_te_stem_roots_begin(chars: Seq<char>, steps: Seq<Step>)
    ensures
        all_begin(te_stem_roots(chars, steps), chars),
    decreases chars.len(), 0nat,
{
    if chars.len() > 0 && chars.last() == 'れ' {
        let rest = chars.drop_last();
        lemma_passive_roots_begin(rest, steps);
        lemma_begin_longer(passive_roots(rest, steps), rest, chars);
    }
}

proof fn lemma_te_ending_roots_begin(chars: Seq<char>, steps: Seq<Step>)
    ensures
        all_begin(te_ending_roots(chars, steps), chars),
    decreases chars.len(), 1nat,
{
    lemma_te_stem_roots_begin(chars, before(Step::Te, steps));
}

proof fn lemma_small_ya_roots_begin(chars: Seq<char>, steps: Seq<Step>)
    ensures
        all_begin(small_ya_roots(chars, steps), chars),
{
    if chars.len() > 0 {
        let rest = chars.drop_last();
        let chau = before(Step::Chau, steps);
        lemma_te_stem_roots_begin(rest, chau);
        lemma_de_stem_roots_begin(rest, chau);
        lemma_begin_longer(te_stem_roots(rest, chau), rest, chars);
        lemma_begin_longer(de_stem_roots(rest, chau), rest, chars);
    }
}

proof fn lemma_i_adjective_roots_begin(chars: Seq<char>, steps: Seq<Step>)
    ensures
        all_begin(i_adjective_roots(chars, steps), chars),
    decreases chars.len(), 0nat,
{
    if chars.len() > 0 {
        let rest = chars.drop_last();
        let nai = before(Step::Nai, steps);
        let tai = before(Step::Tai, steps);
        lemma_negative_roots_begin(rest, nai);
        lemma_masu_stem_roots_begin(rest, tai);
        lemma_begin_longer(negative_roots(rest, nai), rest, chars);
        lemma_begin_longer(masu_stem_roots(rest, tai), rest, chars);
    }
}

proof fn lemma_negative_roots_begin(chars: Seq<char>, steps: Seq<Step>)
    ensures
        all_begin(negative_roots(chars, steps), chars),
    decreases chars.len(), 3nat,
{
    lemma_other_negative_roots_begin(chars, steps);
    lemma_ichidan_roots_begin(chars, steps, false);
}

proof fn lemma_other_negative_roots_begin(chars: Seq<char>, steps: Seq<Step>)
    ensures
        all_begin(other_negative_roots(chars, steps), chars),
    decreases chars.len(), 0nat,
{
    if chars.len() > 0 {
        let rest = chars.drop_last();
        let ku = before(Step::AdverbialKu, steps);
        lemma_causative_roots_begin(rest, steps);
        lemma_i_adjective_roots_begin(rest, ku);
        lemma_begin_longer(causative_roots(rest, steps), rest, chars);
        lemma_begin_longer(i_adjective_roots(rest, ku), rest, chars);
    }
}

proof fn lemma_causative_roots_begin(chars: Seq<char>, steps: Seq<Step>)
    ensures
        all_begin(causative_roots(chars, steps), chars),
    decreases chars.len(), 1nat,
{
    let causative = before(Step::Causative, steps);
    lemma_other_negative_roots_begin(chars, causative);
    if chars.len() > 0 {
        let rest = chars.drop_last();
        lemma_ichidan_roots_begin(rest, causative, true);
        lemma_begin_longer(ichidan_roots(rest, causative, true), rest, chars);
    }
}

proof fn lemma_passive_roots_begin(chars: Seq<char>, steps: Seq<Step>)
    ensures
        all_begin(passive_roots(chars, steps), chars),
    decreases chars.len(), 1nat,
{
    let passive = before(Step::Passive, steps);
    lemma_other_negative_roots_begin(chars, passive);
    if chars.len() > 0 {
        let rest = chars.drop_last();
        lemma_ichidan_roots_begin(rest, passive, false);
        lemma_causative_roots_begin(rest, passive);
        lemma_begin_longer(ichidan_roots(rest, passive, false), rest, chars);
        lemma_begin_longer(causative_roots(rest, passive), rest, chars);
    }
}

proof fn lemma_continuous_roots_begin(chars: Seq<char>, steps: Seq<Step>)
    ensures
        all_begin(continuous_roots(chars, steps), chars),
    decreases chars.len(), 0nat,
{
    if chars.len() > 0 {
        let rest = chars.drop_last();
        let continuous = before(Step::Continuous, steps);
        lemma_te_ending_roots_begin(rest, continuous);
        lemma_de_ending_roots_begin(rest, continuous);
        lemma_begin_longer(te_ending_roots(rest, continuous), rest, chars);
        lemma_begin_longer(de_ending_roots(rest, continuous), rest, chars);
    }
}

proof fn lemma_de_ending_roots_begin(chars: Seq<char>, steps: Seq<Step>)
    ensures
        all_begin(de_ending_roots(chars, steps), chars),
    decreases chars.len(), 0nat,
{
    lemma_de_stem_roots_begin(chars, before(Step::Te, steps));
    if chars.len() >= 2 {
        let rest = without(chars, 2);
        let naide = before(Step::Naide, steps);
        lemma_negative_roots_begin(rest, naide);
        lemma_without_begins(chars, 2);
        lemma_begin_longer(negative_roots(rest, naide), rest, chars);
    }
}

proof fn lemma_potential_roots_begin(chars: Seq<char>, steps: Seq<Step>)
    ensures
        all_begin(potential_roots(chars, steps), chars),
    decreases chars.len(), 1nat,
{
    lemma_e_stem_roots_begin(chars, before(Step::Potential, steps), false);
}

proof fn lemma_ichidan_ending_roots_begin(chars: Seq<char>, steps: Seq<Step>)
    ensures
        all_begin(ichidan_ending_roots(chars, steps), chars),
    decreases chars.len(), 1nat,
{
    if chars.len() > 0 {
        let rest = chars.drop_last();
        let handed = after_ru(steps);
        lemma_te_ending_roots_begin(rest, handed);
        lemma_de_ending_roots_begin(rest, handed);
        lemma_continuous_roots_begin(rest, steps);
        lemma_causative_roots_begin(rest, steps);
        lemma_passive_roots_begin(rest, steps);
        lemma_begin_longer(te_ending_roots(rest, handed), rest, chars);
        lemma_begin_longer(de_ending_roots(rest, handed), rest, chars);
        lemma_begin_longer(continuous_roots(rest, steps), rest, chars);
        lemma_begin_longer(causative_roots(rest, steps), rest, chars);
        lemma_begin_longer(passive_roots(rest, steps), rest, chars);
    }
}

proof fn lemma_ichidan_roots_begin(chars: Seq<char>, steps: Seq<Step>, suru_possible: bool)
    ensures
        all_begin(ichidan_roots(chars, steps, suru_possible), chars),
    decreases chars.len(), 2nat,
{
    lemma_potential_roots_begin(chars, steps);
    lemma_ichidan_ending_roots_begin(chars, steps);
}

proof fn lemma_e_stem_roots_begin(chars: Seq<char>, steps: Seq<Step>, conditional: bool)
    ensures
        all_begin(e_stem_roots(chars, steps, conditional), chars),
    decreases chars.len(), 0nat,
{
    if chars.len() > 0 {
        let rest = chars.drop_last();
        lemma_ichidan_roots_begin(rest, steps, false);
        lemma_begin_longer(ichidan_roots(rest, steps, false), rest, chars);
        if rest.len() > 0 {
            let stem = rest.drop_last();
            lemma_ichidan_roots_begin(stem, steps, false);
            lemma_begin_longer(ichidan_roots(stem, steps, false), stem, chars);
        }
    }
}

proof fn lemma_ta_stem_roots_begin(chars: Seq<char>, steps: Seq<Step>)
    ensures
        all_begin(ta_stem_roots(chars, steps), chars),
{
    lemma_e_stem_roots_begin(chars, before(Step::Potential, steps), false);
    if chars.len() > 1 {
        let stem = chars.drop_last().drop_last();
        let masu = before(Step::Masu, steps);
        lemma_masu_stem_roots_begin(stem, masu);
        lemma_begin_longer(masu_stem_roots(stem, masu), stem, chars);
    }
}

proof fn lemma_ta_ending_roots_begin(chars: Seq<char>, steps: Seq<Step>)
    ensures
        all_begin(ta_ending_roots(chars, steps), chars),
{
    let past = before(Step::Ta, steps);
    lemma_ta_stem_roots_begin(chars, past);
    if chars.len() > 0 {
        let rest = chars.drop_last();
        let abbreviated = before(Step::ContRuAbbrev, past);
        lemma_continuous_roots_begin(rest, past);
        lemma_passive_roots_begin(rest, past);
        lemma_te_ending_roots_begin(rest, abbreviated);
        lemma_de_ending_roots_begin(rest, abbreviated);
        lemma_begin_longer(continuous_roots(rest, past), rest, chars);
        lemma_begin_longer(passive_roots(rest, past), rest, chars);
        lemma_begin_longer(te_ending_roots(rest, abbreviated), rest, chars);
        lemma_begin_longer(de_ending_roots(rest, abbreviated), rest, chars);
        if rest.len() > 0 {
            let stem = rest.drop_last();
            lemma_small_ya_roots_begin(stem, past);
            lemma_begin_longer(small_ya_roots(stem, past), stem, chars);
            if stem.len() > 0 {
                let inner = stem.drop_last();
                let nakatta = before(Step::Nakatta, steps);
                lemma_negative_roots_begin(inner, nakatta);
                lemma_begin_longer(negative_roots(inner, nakatta), inner, chars);
            }
        }
    }
}

proof fn lemma_i_ending_roots_begin(chars: Seq<char>, steps: Seq<Step>)
    ensures
        all_begin(i_ending_roots(chars, steps), chars),
{
    if chars.len() > 0 {
        let rest = chars.drop_last();
        let nai = before(Step::Nai, steps);
        let tai = before(Step::Tai, steps);
        lemma_negative_roots_begin(rest, nai);
        lemma_masu_stem_roots_begin(rest, tai);
        lemma_begin_longer(negative_roots(rest, nai), rest, chars);
        lemma_begin_longer(masu_stem_roots(rest, tai), rest, chars);
        if rest.len() > 0 {
            let stem = rest.drop_last();
            let nasai = before(Step::Nasai, steps);
            lemma_masu_stem_roots_begin(stem, nasai);
            lemma_begin_longer(masu_stem_roots(stem, nasai), stem, chars);
        }
    }
}

proof fn lemma_u_ending_roots_begin(chars: Seq<char>, steps: Seq<Step>)
    ensures
        all_begin(u_ending_roots(chars, steps), chars),
{
    if chars.len() > 0 {
        let rest = chars.drop_last();
        lemma_small_ya_roots_begin(rest, steps);
        lemma_begin_longer(small_ya_roots(rest, steps), rest, chars);
        if rest.len() >= 2 {
            let stem = without(rest, 2);
            let invitational = before(Step::Invitational, steps);
            lemma_masu_stem_roots_begin(stem, invitational);
            lemma_begin_longer(masu_stem_roots(stem, invitational), stem, chars);
        }
    }
}

proof fn lemma_ra_ending_roots_begin(chars: Seq<char>, steps: Seq<Step>)
    ensures
        all_begin(ra_ending_roots(chars, steps), chars),
{
    if chars.len() > 0 {
        let rest = chars.drop_last();
        let tara = before(Step::Tara, steps);
        lemma_ta_stem_roots_begin(rest, tara);
        lemma_da_stem_roots_begin(rest, tara);
        lemma_begin_longer(ta_stem_roots(rest, tara), rest, chars);
        lemma_begin_longer(da_stem_roots(rest, tara), rest, chars);
        if rest.len() > 0 {
            let stem = rest.drop_last();
            let nagara = before(Step::Nagara, steps);
            lemma_masu_stem_roots_begin(stem, nagara);
            lemma_begin_longer(masu_stem_roots(stem, nagara), stem, chars);
        }
    }
}

proof fn lemma_ri_ending_roots_begin(chars: Seq<char>, steps: Seq<Step>)
    ensures
        all_begin(ri_ending_roots(chars, steps), chars),
{
    if chars.len() > 0 {
        let rest = chars.drop_last();
        let tari = before(Step::Tari, steps);
        lemma_ta_stem_roots_begin(rest, tari);
        lemma_da_stem_roots_begin(rest, tari);
        lemma_begin_longer(ta_stem_roots(rest, tari), rest, chars);
        lemma_begin_longer(da_stem_roots(rest, tari), rest, chars);
    }
}

proof fn lemma_kereba_roots_begin(chars: Seq<char>, steps: Seq<Step>)
    ensures
        all_begin(kereba_roots(chars, steps), chars),
{
    if chars.len() >= 3 {
        let rest = without(chars, 3);
        let kereba = before(Step::Kereba, steps);
        lemma_without_begins(chars, 3);
        lemma_i_adjective_roots_begin(rest, kereba);
        lemma_begin_longer(i_adjective_roots(rest, kereba), rest, chars);
    }
}

proof fn lemma_short_ending_roots_begin(chars: Seq<char>, steps: Seq<Step>)
    ensures
        all_begin(short_ending_roots(chars, steps), chars),
    decreases chars.len(), 0nat,
{
    if chars.len() >= 2 {
        let rest = without(chars, 2);
        let teku = before(Step::Teku, steps);
        lemma_without_begins(chars, 2);
        lemma_te_stem_roots_begin(rest, teku);
        lemma_begin_longer(te_stem_roots(rest, teku), rest, chars);
    }
    if chars.len() > 0 {
        let rest = chars.drop_last();
        lemma_ending_roots_begin(rest, chars.last(), steps);
        lemma_begin_longer(ending_roots(rest, chars.last(), steps), rest, chars);
    }
}

proof fn lemma_expression_roots_begin(chars: Seq<char>, steps: Seq<Step>)
    ensures
        all_begin(expression_roots(chars, steps), chars),
    decreases chars.len(), 1nat,
{
    lemma_kereba_roots_begin(chars, steps);
    lemma_short_ending_roots_begin(chars, steps);
    if chars.len() >= 3 {
        let rest = without(chars, 3);
        let nakya = before(Step::Nakya, steps);
        let masen = before(Step::Masen, steps);
        lemma_without_begins(chars, 3);
        lemma_negative_roots_begin(rest, nakya);
        lemma_masu_stem_roots_begin(rest, masen);
        lemma_begin_longer(negative_roots(rest, nakya), rest, chars);
        lemma_begin_longer(masu_stem_roots(rest, masen), rest, chars);
    }
    if chars.len() >= 2 {
        let rest = without(chars, 2);
        let masu = before(Step::Masu, steps);
        lemma_without_begins(chars, 2);
        lemma_masu_stem_roots_begin(rest, masu);
        lemma_begin_longer(masu_stem_roots(rest, masu), rest, chars);
    }
}

proof fn lemma_da_ending_roots_begin(chars: Seq<char>, steps: Seq<Step>)
    ensures
        all_begin(da_ending_roots(chars, steps), chars),
    decreases chars.len(), 0nat,
{
    lemma_da_stem_roots_begin(chars, before(Step::Ta, steps));
    if chars.len() > 0 {
        let rest = chars.drop_last();
        let nda = before(Step::Nda, steps);
        lemma_expression_roots_begin(rest, nda);
        lemma_begin_longer(expression_roots(rest, nda), rest, chars);
    }
}

proof fn lemma_ending_roots_begin(chars: Seq<char>, last: char, steps: Seq<Step>)
    ensures
        all_begin(ending_roots(chars, last, steps), chars),
    decreases chars.len(), 2nat,
{
    match last {
        'て' => lemma_te_ending_roots_begin(chars, steps),
        'で' => lemma_de_ending_roots_begin(chars, steps),
        'た' => lemma_ta_ending_roots_begin(chars, steps),
        'だ' => lemma_da_ending_roots_begin(chars, steps),
        'い' => lemma_i_ending_roots_begin(chars, steps),
        'う' => lemma_u_ending_roots_begin(chars, steps),
        'ら' => lemma_ra_ending_roots_begin(chars, steps),
        'り' => lemma_ri_ending_roots_begin(chars, steps),
        'る' => lemma_ichidan_roots_begin(chars, steps, false),
        'か' => lemma_expression_roots_begin(chars, before(Step::Ka, steps)),
        'く' => lemma_i_adjective_roots_begin(
            chars,
            before(Step::AdverbialKu, steps),
        ),
        'ず' => lemma_negative_roots_begin(chars, before(Step::Zu, steps)),
        'ぬ' => lemma_negative_roots_begin(chars, before(Step::Nu, steps)),
        'ば' => lemma_e_stem_roots_begin(chars, before(Step::Ba, steps), true),
        'せ' => lemma_causative_roots_begin(chars, before(Step::Stem, steps)),
        _ => {},
    }
}

/// Whatever is made of what is left of a word, the text of every root
/// begins what is left: characters are only ever taken off the end.
pub proof fn lemma_roots_begin_what_is_left(chars: Seq<char>, steps: Seq<Step>, i: int)
    requires
        0 <= i < expression_roots(chars, steps).len(),
    ensures
        expression_roots(chars, steps)[i].text.is_prefix_of(chars),
{
    lemma_expression_roots_begin(chars, steps);
}

/// The text of every root that is found in a word begins the word: a root
/// is the word with an ending taken off, and nothing else is changed.
pub proof fn lemma_root_text_begins_word(word: Seq<char>, i: int)
    requires
        0 <= i < roots_of(word).len(),
    ensures
        roots_of(word)[i].text.is_prefix_of(word),
{
    lemma_expression_roots_begin(word, Seq::empty());
}

/// Whether every one of `roots` has a text shorter than `chars`.
pub open spec fn all_shorter(roots: Seq<RootView>, chars: Seq<char>) -> bool {
    forall|i: int| 0 <= i < roots.len() ==> (#[trigger] roots[i]).text.len() < chars.len()
}

/// What begins a shorter part of a word is shorter than the word.
proof fn lemma_begin_shorter(roots: Seq<RootView>, part: Seq<char>, chars: Seq<char>)
    requires
        all_begin(roots, part),
        part.len() < chars.len(),
    ensures
        all_shorter(roots, chars),
{
    assert forall|i: int| 0 <= i < roots.len() implies (#[trigger] roots[i]).text.len()
        < chars.len() by {
        assert(roots[i].text.is_prefix_of(part));
    }
}

/// All that is made of what is left of a word, but for the two plain
/// roots, has had an ending taken off.
proof fn lemma_expression_roots_shorter(chars: Seq<char>, steps: Seq<Step>)
    ensures
        expression_roots(chars, steps).len() >= 2,
        all_shorter(expression_roots(chars, steps).skip(2), chars),
{
    if chars.len() >= 3 {
        let rest = without(chars, 3);
        let kereba = before(Step::Kereba, steps);
        let nakya = before(Step::Nakya, steps);
        let masen = before(Step::Masen, steps);
        lemma_i_adjective_roots_begin(rest, kereba);
        lemma_negative_roots_begin(rest, nakya);
        lemma_masu_stem_roots_begin(rest, masen);
        lemma_begin_shorter(i_adjective_roots(rest, kereba), rest, chars);
        lemma_begin_shorter(negative_roots(rest, nakya), rest, chars);
        lemma_begin_shorter(masu_stem_roots(rest, masen), rest, chars);
    }
    if chars.len() >= 2 {
        let rest = without(chars, 2);
        let masu = before(Step::Masu, steps);
        let teku = before(Step::Teku, steps);
        lemma_masu_stem_roots_begin(rest, masu);
        lemma_te_stem_roots_begin(rest, teku);
        lemma_begin_shorter(masu_stem_roots(rest, masu), rest, chars);
        lemma_begin_shorter(te_stem_roots(rest, teku), rest, chars);
    }
    if chars.len() > 0 {
        let rest = chars.drop_last();
        lemma_ending_roots_begin(rest, chars.last(), steps);
        lemma_begin_shorter(ending_roots(rest, chars.last(), steps), rest, chars);
    }
    assert(all_shorter(kereba_roots(chars, steps), chars));
    assert(all_shorter(short_ending_roots(chars, steps), chars));
    let later = expression_roots(chars, steps).skip(2);
    assert forall|i: int| 0 <= i < later.len() implies (#[trigger] later[i]).text.len()
        < chars.len() by {
        assert(later[i] == expression_roots(chars, steps)[i + 2]);
    }
}

/// Every root of a word but the first two has a text that is shorter than
/// the word: something was taken off to find it.
pub proof fn lemma_later_roots_are_shorter(word: Seq<char>, i: int)
    requires
        2 <= i < roots_of(word).len(),
    ensures
        roots_of(word)[i].text.len() < word.len(),
{
    lemma_expression_roots_shorter(word, Seq::empty());
    assert(roots_of(word).skip(2)[i - 2] == roots_of(word)[i]);
}

} // verus!
