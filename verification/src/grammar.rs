//! The grammar of deconjugation, as functions from what is left of a word
//! to the roots it may hide.
//!
//! Every function here reads the characters from the right. `chars` is the
//! part of the word that has not been accounted for yet, and `steps` are the
//! steps that were recognised in what was taken off so far, the innermost
//! first. The roots come in the order in which they are found.
//!
//! The grammar proposes and does not judge: most of what it finds is no word
//! at all.

use crate::root::{RootKind, RootView, Step};
use vstd::prelude::*;

verus! {

/// The root with the given text, kind and steps.
pub open spec fn candidate(text: Seq<char>, kind: RootKind, steps: Seq<Step>) -> RootView {
    RootView { text, kind, steps }
}

/// One root for each of `kinds`, in their order, all with the same text and
/// steps.
pub open spec fn candidates(text: Seq<char>, kinds: Seq<RootKind>, steps: Seq<Step>) -> Seq<
    RootView,
> {
    kinds.map_values(|kind: RootKind| candidate(text, kind, steps))
}

/// No roots.
pub open spec fn nothing() -> Seq<RootView> {
    Seq::empty()
}

/// `steps` with `step` put in front of them: `step` is nearer to the root
/// than any step found before it.
pub open spec fn before(step: Step, steps: Seq<Step>) -> Seq<Step> {
    seq![step] + steps
}

/// Whether `chars` ends with the characters of `suffix`.
pub open spec fn ends_with(chars: Seq<char>, suffix: Seq<char>) -> bool {
    suffix.len() <= chars.len() && chars.skip(chars.len() - suffix.len()) == suffix
}

/// Whether the last character of `chars` is `c`.
pub open spec fn ends_in(chars: Seq<char>, c: char) -> bool {
    chars.len() > 0 && chars.last() == c
}

/// `chars` without its last `count` characters.
pub open spec fn without(chars: Seq<char>, count: nat) -> Seq<char> {
    chars.take(chars.len() - count)
}

/// The kinds whose negative stem ends in `c`.
pub open spec fn negative_kinds(c: char) -> Seq<RootKind> {
    match c {
        'ら' => seq![RootKind::GodanRu],
        'な' => seq![RootKind::GodanNu],
        'か' => seq![RootKind::GodanKu],
        'が' => seq![RootKind::GodanGu],
        'ば' => seq![RootKind::GodanBu],
        'わ' => seq![RootKind::GodanU],
        'さ' => seq![RootKind::GodanSu],
        'た' => seq![RootKind::GodanTsu],
        'ま' => seq![RootKind::GodanMu],
        'し' => seq![RootKind::Suru, RootKind::SpecialSuru],
        'こ' => seq![RootKind::Kuru],
        _ => Seq::empty(),
    }
}

/// The kinds whose ます stem ends in `c`.
pub open spec fn masu_kinds(c: char) -> Seq<RootKind> {
    match c {
        'い' => seq![RootKind::GodanU],
        'き' => seq![RootKind::GodanKu, RootKind::Kuru, RootKind::Iku],
        'ぎ' => seq![RootKind::GodanGu],
        'し' => seq![RootKind::GodanSu],
        'ち' => seq![RootKind::GodanTsu],
        'に' => seq![RootKind::GodanNu],
        'び' => seq![RootKind::GodanBu],
        'み' => seq![RootKind::GodanMu],
        'り' => seq![RootKind::GodanRu],
        _ => Seq::empty(),
    }
}

/// The kinds that have `c` in front of て. `alone` says that nothing stands
/// in front of `c`: a lone き is 来る.
pub open spec fn te_kinds(c: char, alone: bool) -> Seq<RootKind> {
    match c {
        'っ' => seq![RootKind::GodanRu, RootKind::GodanTsu, RootKind::GodanU, RootKind::Iku],
        'い' => seq![RootKind::GodanKu],
        'し' => seq![RootKind::GodanSu, RootKind::Suru, RootKind::SpecialSuru],
        'き' => if alone {
            seq![RootKind::Kuru]
        } else {
            Seq::empty()
        },
        _ => Seq::empty(),
    }
}

/// The kinds that have `c` in front of で.
pub open spec fn de_kinds(c: char) -> Seq<RootKind> {
    match c {
        'い' => seq![RootKind::GodanGu],
        'ん' => seq![RootKind::GodanBu, RootKind::GodanNu, RootKind::GodanMu],
        _ => Seq::empty(),
    }
}

/// The kinds that have `c` in front of だ.
pub open spec fn da_kinds(c: char) -> Seq<RootKind> {
    match c {
        'ん' => seq![RootKind::GodanBu, RootKind::GodanMu, RootKind::GodanNu],
        'い' => seq![RootKind::GodanGu],
        _ => Seq::empty(),
    }
}

/// The kinds that have `c` in front of た, other than ichidan.
pub open spec fn ta_kinds(c: char) -> Seq<RootKind> {
    match c {
        'っ' => seq![RootKind::GodanRu, RootKind::GodanTsu, RootKind::GodanU, RootKind::Iku],
        'し' => seq![RootKind::GodanSu],
        'い' => seq![RootKind::GodanKu],
        'き' => seq![RootKind::Kuru],
        _ => Seq::empty(),
    }
}

/// The godan kind whose え-row stem ends in `c`.
pub open spec fn e_kinds(c: char) -> Seq<RootKind> {
    match c {
        'え' => seq![RootKind::GodanU],
        'け' => seq![RootKind::GodanKu],
        'げ' => seq![RootKind::GodanGu],
        'せ' => seq![RootKind::GodanSu],
        'て' => seq![RootKind::GodanTsu],
        'ね' => seq![RootKind::GodanNu],
        'べ' => seq![RootKind::GodanBu],
        'め' => seq![RootKind::GodanMu],
        'れ' => seq![RootKind::GodanRu],
        _ => Seq::empty(),
    }
}

/// The kinds whose volitional has `c` in front of its final う.
pub open spec fn volitional_kinds(c: char) -> Seq<RootKind> {
    match c {
        'よ' => seq![RootKind::Ichidan, RootKind::Kuru],
        'ぼ' => seq![RootKind::GodanBu],
        'も' => seq![RootKind::GodanMu],
        'の' => seq![RootKind::GodanNu],
        'ろ' => seq![RootKind::GodanRu],
        'そ' => seq![RootKind::GodanSu],
        'と' => seq![RootKind::GodanTsu],
        'こ' => seq![RootKind::GodanKu, RootKind::Iku],
        'ご' => seq![RootKind::GodanGu],
        'お' => seq![RootKind::GodanU],
        _ => Seq::empty(),
    }
}

/// The roots of `chars` seen as what stands in front of ます, ません,
/// ましょう, なさい, ながら or たい.
pub open spec fn masu_stem_roots(chars: Seq<char>, steps: Seq<Step>) -> Seq<RootView> {
    seq![candidate(chars, RootKind::Ichidan, steps)] + if chars.len() == 0 {
        nothing()
    } else {
        candidates(chars.drop_last(), masu_kinds(chars.last()), steps)
    }
}

/// The roots of `chars` seen as what stands in front of て: an ichidan
/// stem, a passive, or a stem with the sound change of its kind.
pub open spec fn te_stem_roots(chars: Seq<char>, steps: Seq<Step>) -> Seq<RootView>
    decreases chars.len(), 0nat,
{
    seq![candidate(chars, RootKind::Ichidan, steps)] + if chars.len() == 0 {
        nothing()
    } else if chars.last() == 'れ' {
        passive_roots(chars.drop_last(), steps)
    } else {
        candidates(chars.drop_last(), te_kinds(chars.last(), chars.len() == 1), steps)
    }
}

/// The roots of `chars` seen as what stands in front of で.
pub open spec fn de_stem_roots(chars: Seq<char>, steps: Seq<Step>) -> Seq<RootView> {
    if chars.len() == 0 {
        nothing()
    } else {
        candidates(chars.drop_last(), de_kinds(chars.last()), steps)
    }
}

/// The roots of `chars` seen as what stands in front of だ.
pub open spec fn da_stem_roots(chars: Seq<char>, steps: Seq<Step>) -> Seq<RootView> {
    if chars.len() == 0 {
        nothing()
    } else {
        candidates(chars.drop_last(), da_kinds(chars.last()), steps)
    }
}

/// The roots of `chars` where the word went on with ゃ: the contracted
/// しまう, ちゃ after て stems and じゃ after で stems.
pub open spec fn small_ya_roots(chars: Seq<char>, steps: Seq<Step>) -> Seq<RootView> {
    if ends_in(chars, 'ち') {
        te_stem_roots(chars.drop_last(), before(Step::Chau, steps))
    } else if ends_in(chars, 'じ') {
        de_stem_roots(chars.drop_last(), before(Step::Chau, steps))
    } else {
        nothing()
    }
}

/// The roots of `chars` where the word went on with て.
pub open spec fn te_ending_roots(chars: Seq<char>, steps: Seq<Step>) -> Seq<RootView>
    decreases chars.len(), 1nat,
{
    seq![candidate(chars, RootKind::GodanTsu, before(Step::Imperative, steps))] + te_stem_roots(
        chars,
        before(Step::Te, steps),
    )
}

/// The roots of `chars` seen as an い adjective, which anything may be, or
/// as the ない or たい of a verb.
pub open spec fn i_adjective_roots(chars: Seq<char>, steps: Seq<Step>) -> Seq<RootView>
    decreases chars.len(), 0nat,
{
    seq![candidate(chars, RootKind::IAdjective, steps)] + if ends_in(chars, 'な') {
        negative_roots(chars.drop_last(), before(Step::Nai, steps))
    } else if ends_in(chars, 'た') {
        masu_stem_roots(chars.drop_last(), before(Step::Tai, steps))
    } else {
        nothing()
    }
}

/// The roots of `chars` seen as a negative stem of any kind.
pub open spec fn negative_roots(chars: Seq<char>, steps: Seq<Step>) -> Seq<RootView>
    decreases chars.len(), 3nat,
{
    other_negative_roots(chars, steps) + ichidan_roots(chars, steps, false)
}

/// The roots of `chars` seen as a negative stem that shows its kind in its
/// last character: the godan kinds, する and 来る, a causative, or the
/// く of an adjective.
pub open spec fn other_negative_roots(chars: Seq<char>, steps: Seq<Step>) -> Seq<RootView>
    decreases chars.len(), 0nat,
{
    if chars.len() == 0 {
        nothing()
    } else if chars.last() == 'せ' {
        causative_roots(chars.drop_last(), steps)
    } else if chars.last() == 'く' {
        i_adjective_roots(chars.drop_last(), before(Step::AdverbialKu, steps))
    } else {
        candidates(chars.drop_last(), negative_kinds(chars.last()), steps)
    }
}

/// The roots of `chars` where the word went on with せ, the causative.
pub open spec fn causative_roots(chars: Seq<char>, steps: Seq<Step>) -> Seq<RootView>
    decreases chars.len(), 1nat,
{
    (if ends_in(chars, 'さ') {
        ichidan_roots(chars.drop_last(), before(Step::Causative, steps), true)
    } else {
        nothing()
    }) + other_negative_roots(chars, before(Step::Causative, steps))
}

/// The roots of `chars` where the word went on with れ, the passive.
pub open spec fn passive_roots(chars: Seq<char>, steps: Seq<Step>) -> Seq<RootView>
    decreases chars.len(), 1nat,
{
    (if ends_in(chars, 'ら') {
        ichidan_roots(chars.drop_last(), before(Step::Passive, steps), false)
    } else if ends_in(chars, 'さ') {
        causative_roots(chars.drop_last(), before(Step::Passive, steps))
    } else {
        nothing()
    }) + other_negative_roots(chars, before(Step::Passive, steps))
}

/// The roots of `chars` where the word went on with い and that い may be
/// the いる of the continuous.
pub open spec fn continuous_roots(chars: Seq<char>, steps: Seq<Step>) -> Seq<RootView>
    decreases chars.len(), 0nat,
{
    if ends_in(chars, 'て') {
        te_ending_roots(chars.drop_last(), before(Step::Continuous, steps))
    } else if ends_in(chars, 'で') {
        de_ending_roots(chars.drop_last(), before(Step::Continuous, steps))
    } else {
        nothing()
    }
}

/// The roots of `chars` where the word went on with で: either ないで, or
/// the で that some godan kinds have for て.
pub open spec fn de_ending_roots(chars: Seq<char>, steps: Seq<Step>) -> Seq<RootView>
    decreases chars.len(), 0nat,
{
    if ends_with(chars, seq!['な', 'い']) {
        negative_roots(without(chars, 2), before(Step::Naide, steps))
    } else {
        de_stem_roots(chars, before(Step::Te, steps))
    }
}

/// The steps that an ichidan stem hands on where it ends in て or で: with
/// no step found yet, the る that was taken off was the contracted いる.
pub open spec fn after_ru(steps: Seq<Step>) -> Seq<Step> {
    if steps.len() == 0 {
        seq![Step::ContRuAbbrev]
    } else {
        steps
    }
}

/// The roots of `chars` seen as the stem of a potential, unless the step
/// found last was a potential already.
pub open spec fn potential_roots(chars: Seq<char>, steps: Seq<Step>) -> Seq<RootView>
    decreases chars.len(), 1nat,
{
    if steps.len() > 0 && steps[0] == Step::Potential {
        nothing()
    } else {
        e_stem_roots(chars, before(Step::Potential, steps), false)
    }
}

/// The roots of `chars` as an ichidan stem shows them in its last
/// character: a て form, a continuous, a causative, a passive, or 来る.
pub open spec fn ichidan_ending_roots(chars: Seq<char>, steps: Seq<Step>) -> Seq<RootView>
    decreases chars.len(), 1nat,
{
    if chars.len() == 0 {
        nothing()
    } else {
        let rest = chars.drop_last();
        match chars.last() {
            'て' => te_ending_roots(rest, after_ru(steps)),
            'で' => de_ending_roots(rest, after_ru(steps)),
            'い' => continuous_roots(rest, steps),
            'せ' => causative_roots(rest, steps),
            'れ' => passive_roots(rest, steps),
            'こ' => seq![candidate(rest, RootKind::Kuru, steps)],
            _ => nothing(),
        }
    }
}

/// The kinds of a stem that conjugates like an ichidan verb. With
/// `suru_possible` it may be the stem of a する verb as well.
pub open spec fn ichidan_kinds(suru_possible: bool) -> Seq<RootKind> {
    if suru_possible {
        seq![RootKind::Ichidan, RootKind::Suru, RootKind::SpecialSuru]
    } else {
        seq![RootKind::Ichidan]
    }
}

/// The roots of `chars` seen as an ichidan stem, and as everything that
/// conjugates like one: a potential, a て form, a causative, a passive.
pub open spec fn ichidan_roots(chars: Seq<char>, steps: Seq<Step>, suru_possible: bool) -> Seq<
    RootView,
>
    decreases chars.len(), 2nat,
{
    candidates(chars, ichidan_kinds(suru_possible), steps) + potential_roots(chars, steps)
        + ichidan_ending_roots(chars, steps)
}

/// The roots of `chars` seen as an え-row stem: that of the potential, or
/// with `conditional` the one in front of ば.
pub open spec fn e_stem_roots(chars: Seq<char>, steps: Seq<Step>, conditional: bool) -> Seq<
    RootView,
>
    decreases chars.len(), 0nat,
{
    if chars.len() == 0 {
        nothing()
    } else {
        let rest = chars.drop_last();
        candidates(rest, e_kinds(chars.last()), steps) + if chars.last() == 'け' {
            if ends_in(rest, 'い') || ends_in(rest, 'ゆ') {
                seq![candidate(rest, RootKind::Iku, steps)]
            } else {
                nothing()
            }
        } else if chars.last() == 'れ' {
            if conditional {
                ichidan_roots(rest, steps, false)
            } else if ends_in(rest, 'ら') {
                let stem = rest.drop_last();
                ichidan_roots(stem, steps, false) + if ends_in(stem, 'こ') {
                    seq![candidate(stem, RootKind::Kuru, steps)]
                } else {
                    nothing()
                }
            } else {
                nothing()
            }
        } else {
            nothing()
        }
    }
}

/// The roots of `chars` seen as what stands in front of た.
pub open spec fn ta_stem_roots(chars: Seq<char>, steps: Seq<Step>) -> Seq<RootView> {
    e_stem_roots(chars, before(Step::Potential, steps), false) + if chars.len() == 0 {
        seq![candidate(chars, RootKind::Ichidan, steps)]
    } else {
        let rest = chars.drop_last();
        match chars.last() {
            'っ' | 'い' | 'き' => candidates(rest, ta_kinds(chars.last()), steps),
            'し' => (if ends_in(rest, 'ま') {
                masu_stem_roots(rest.drop_last(), before(Step::Masu, steps))
            } else {
                nothing()
            }) + candidates(rest, ta_kinds('し'), steps),
            _ => seq![candidate(chars, RootKind::Ichidan, steps)],
        }
    }
}

/// The roots of `chars` where the word went on with た.
pub open spec fn ta_ending_roots(chars: Seq<char>, steps: Seq<Step>) -> Seq<RootView> {
    ta_stem_roots(chars, before(Step::Ta, steps)) + if chars.len() == 0 {
        nothing()
    } else {
        let rest = chars.drop_last();
        match chars.last() {
            'っ' => (if ends_in(rest, 'ゃ') {
                small_ya_roots(rest.drop_last(), before(Step::Ta, steps))
            } else {
                nothing()
            }) + if ends_in(rest, 'か') {
                let stem = rest.drop_last();
                seq![candidate(stem, RootKind::IAdjective, before(Step::Katta, steps))] + if ends_in(
                    stem,
                    'な',
                ) {
                    negative_roots(stem.drop_last(), before(Step::Nakatta, steps))
                } else {
                    nothing()
                }
            } else {
                nothing()
            },
            'い' => continuous_roots(rest, before(Step::Ta, steps)),
            'れ' => passive_roots(rest, before(Step::Ta, steps)),
            'て' => te_ending_roots(rest, before(Step::ContRuAbbrev, before(Step::Ta, steps))),
            'で' => de_ending_roots(rest, before(Step::ContRuAbbrev, before(Step::Ta, steps))),
            _ => nothing(),
        }
    }
}

/// The roots of `chars` where the word went on with い.
pub open spec fn i_ending_roots(chars: Seq<char>, steps: Seq<Step>) -> Seq<RootView> {
    seq![candidate(chars, RootKind::GodanU, before(Step::Stem, steps))] + if chars.len() == 0 {
        nothing()
    } else {
        let rest = chars.drop_last();
        match chars.last() {
            'な' => negative_roots(rest, before(Step::Nai, steps)),
            'さ' => if ends_in(rest, 'な') {
                masu_stem_roots(rest.drop_last(), before(Step::Nasai, steps))
            } else {
                nothing()
            },
            'こ' => seq![candidate(rest, RootKind::Kuru, before(Step::Imperative, steps))],
            'た' => masu_stem_roots(rest, before(Step::Tai, steps)),
            _ => nothing(),
        }
    }
}

/// The roots of `chars` where the word went on with う.
pub open spec fn u_ending_roots(chars: Seq<char>, steps: Seq<Step>) -> Seq<RootView> {
    if chars.len() == 0 {
        nothing()
    } else {
        let rest = chars.drop_last();
        match chars.last() {
            'ょ' => if ends_with(rest, seq!['ま', 'し']) {
                masu_stem_roots(without(rest, 2), before(Step::Invitational, steps))
            } else {
                nothing()
            },
            'ゃ' => small_ya_roots(rest, steps),
            _ => candidates(
                rest,
                volitional_kinds(chars.last()),
                before(Step::Volitional, steps),
            ),
        }
    }
}

/// The roots of `chars` where the word went on with ら.
pub open spec fn ra_ending_roots(chars: Seq<char>, steps: Seq<Step>) -> Seq<RootView> {
    if chars.len() == 0 {
        nothing()
    } else {
        let rest = chars.drop_last();
        match chars.last() {
            'が' => if ends_in(rest, 'な') {
                masu_stem_roots(rest.drop_last(), before(Step::Nagara, steps))
            } else {
                nothing()
            },
            'た' => ta_stem_roots(rest, before(Step::Tara, steps)),
            'だ' => da_stem_roots(rest, before(Step::Tara, steps)),
            _ => nothing(),
        }
    }
}

/// The roots of `chars` where the word went on with り.
pub open spec fn ri_ending_roots(chars: Seq<char>, steps: Seq<Step>) -> Seq<RootView> {
    seq![candidate(chars, RootKind::GodanRu, before(Step::Stem, steps))] + if ends_in(
        chars,
        'た',
    ) {
        ta_stem_roots(chars.drop_last(), before(Step::Tari, steps))
    } else if ends_in(chars, 'だ') {
        da_stem_roots(chars.drop_last(), before(Step::Tari, steps))
    } else {
        nothing()
    }
}

/// The two roots that anything has: itself as an い adjective, and itself
/// as the stem of an ichidan verb.
pub open spec fn plain_roots(chars: Seq<char>, steps: Seq<Step>) -> Seq<RootView> {
    seq![
        candidate(chars, RootKind::IAdjective, steps),
        candidate(chars, RootKind::Ichidan, before(Step::Stem, steps)),
    ]
}

/// The roots of `chars` where it ends with ければ, the conditional of an
/// adjective.
pub open spec fn kereba_roots(chars: Seq<char>, steps: Seq<Step>) -> Seq<RootView> {
    if ends_with(chars, seq!['け', 'れ', 'ば']) {
        i_adjective_roots(without(chars, 3), before(Step::Kereba, steps))
    } else {
        nothing()
    }
}

/// The roots of `chars` as its last one or two characters show them: those
/// behind てく, and then those behind the last character alone.
pub open spec fn short_ending_roots(chars: Seq<char>, steps: Seq<Step>) -> Seq<RootView>
    decreases chars.len(), 0nat,
{
    (if ends_with(chars, seq!['て', 'く']) {
        te_stem_roots(without(chars, 2), before(Step::Teku, steps))
    } else {
        nothing()
    }) + if chars.len() == 0 {
        nothing()
    } else {
        ending_roots(chars.drop_last(), chars.last(), steps)
    }
}

/// The roots of a word, or of what is left of one after `steps` were taken
/// off its end.
///
/// The two plain roots come first, then those of an adjective in ければ.
/// After them なきゃ, ます and ません are tried, and where one of them is
/// found, nothing else is. Else the shorter endings are read.
pub open spec fn expression_roots(chars: Seq<char>, steps: Seq<Step>) -> Seq<RootView>
    decreases chars.len(), 1nat,
{
    plain_roots(chars, steps) + kereba_roots(chars, steps) + if ends_with(
        chars,
        seq!['な', 'き', 'ゃ'],
    ) {
        negative_roots(without(chars, 3), before(Step::Nakya, steps))
    } else if ends_with(chars, seq!['ま', 'す']) {
        masu_stem_roots(without(chars, 2), before(Step::Masu, steps))
    } else if ends_with(chars, seq!['ま', 'せ', 'ん']) {
        masu_stem_roots(without(chars, 3), before(Step::Masen, steps))
    } else {
        short_ending_roots(chars, steps)
    }
}

/// The roots of `chars` where the word went on with だ: a past, or the
/// んだ that can follow anything.
pub open spec fn da_ending_roots(chars: Seq<char>, steps: Seq<Step>) -> Seq<RootView>
    decreases chars.len(), 0nat,
{
    da_stem_roots(chars, before(Step::Ta, steps)) + if ends_in(chars, 'ん') {
        expression_roots(chars.drop_last(), before(Step::Nda, steps))
    } else {
        nothing()
    }
}

/// The roots of `chars` where the word went on with the one character
/// `last`.
pub open spec fn ending_roots(chars: Seq<char>, last: char, steps: Seq<Step>) -> Seq<RootView>
    decreases chars.len(), 2nat,
{
    match last {
        'て' => te_ending_roots(chars, steps),
        'で' => de_ending_roots(chars, steps),
        'た' => ta_ending_roots(chars, steps),
        'だ' => da_ending_roots(chars, steps),
        'い' => i_ending_roots(chars, steps),
        'う' => u_ending_roots(chars, steps),
        'ら' => ra_ending_roots(chars, steps),
        'り' => ri_ending_roots(chars, steps),
        'る' => ichidan_roots(chars, steps, false),
        'か' => expression_roots(chars, before(Step::Ka, steps)),
        'く' => i_adjective_roots(chars, before(Step::AdverbialKu, steps)),
        'ず' => negative_roots(chars, before(Step::Zu, steps)),
        'ぬ' => negative_roots(chars, before(Step::Nu, steps)),
        'ば' => e_stem_roots(chars, before(Step::Ba, steps), true),
        'さ' => seq![candidate(chars, RootKind::IAdjective, before(Step::Sa, steps))],
        'な' => seq![candidate(chars, RootKind::NaAdjective, before(Step::Na, steps))],
        'し' => seq![candidate(chars, RootKind::GodanSu, before(Step::Stem, steps))],
        'み' => seq![candidate(chars, RootKind::GodanMu, before(Step::Stem, steps))],
        'き' => seq![
            candidate(chars, RootKind::GodanKu, before(Step::Stem, steps)),
            candidate(chars, RootKind::IAdjective, before(Step::Ki, steps)),
        ],
        'せ' => seq![candidate(chars, RootKind::GodanSu, before(Step::Imperative, steps))]
            + causative_roots(chars, before(Step::Stem, steps)),
        'え' => seq![candidate(chars, RootKind::GodanU, before(Step::Imperative, steps))],
        'ろ' => seq![candidate(chars, RootKind::Ichidan, before(Step::Imperative, steps))],
        'げ' => seq![candidate(chars, RootKind::GodanGu, before(Step::Imperative, steps))],
        'べ' => seq![candidate(chars, RootKind::GodanBu, before(Step::Imperative, steps))],
        'め' => seq![candidate(chars, RootKind::GodanMu, before(Step::Imperative, steps))],
        'れ' => seq![candidate(chars, RootKind::GodanRu, before(Step::Imperative, steps))],
        'ね' => seq![candidate(chars, RootKind::GodanNu, before(Step::Imperative, steps))],
        'け' => seq![
            candidate(chars, RootKind::GodanKu, before(Step::Imperative, steps)),
            candidate(chars, RootKind::Iku, before(Step::Imperative, steps)),
        ],
        _ => nothing(),
    }
}

/// Every root that `word` may be a conjugation of, in the order in which
/// the grammar finds them.
pub open spec fn roots_of(word: Seq<char>) -> Seq<RootView> {
    expression_roots(word, Seq::empty())
}

} // verus!
