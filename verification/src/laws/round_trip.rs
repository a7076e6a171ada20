//! From a word to its roots and back.
//!
//! A root that was found in a word should conjugate back to the word. That
//! holds of the roots that the grammar reads off an ending in one step,
//! and it is shown here for the words that have no other roots. It does
//! not hold of every root of every word: the grammar proposes more than
//! the rules of conjugation give back, and the rules build the forms of
//! 来る on a text that leaves out its changing first character.

use crate::conjugate::{chain_suffix, RenderError};
use crate::grammar::{
    before, candidate, de_stem_roots, ending_roots, ends_in, ends_with, masu_stem_roots,
    plain_roots, roots_of, ta_stem_roots, without,
};
use crate::laws::tables::{lemma_de_kinds_have_form, lemma_masu_kinds_have_stem};
use crate::root::{RootKind, Step};
use vstd::prelude::*;

verus! {

/// A root with a single step conjugates to its text followed by the form
/// that the step has for its kind.
proof fn lemma_single_step_conjugates(text: Seq<char>, kind: RootKind, step: Step)
    requires
        step.form_for(kind, None) is Some,
    ensures
        candidate(text, kind, before(step, Seq::empty())).conjugated() == Ok::<
            Seq<char>,
            RenderError,
        >(text + step.form_for(kind, None)->0),
{
    let steps = before(step, Seq::empty());
    let form = step.form_for(kind, None)->0;
    assert(steps =~= seq![step]);
    assert(steps.drop_first() =~= Seq::<Step>::empty());
    assert(chain_suffix(step.acting_after(Some(kind), None), steps.drop_first()) == Ok::<
        Seq<char>,
        RenderError,
    >(Seq::empty()));
    assert(form + Seq::<char>::empty() =~= form);
}

/// The two roots that every word has, itself as an adjective and itself as
/// a verb stem, conjugate back to the word.
proof fn lemma_plain_roots_round_trip(word: Seq<char>)
    ensures
        candidate(word, RootKind::IAdjective, Seq::empty()).conjugated() == Ok::<
            Seq<char>,
            RenderError,
        >(word),
        candidate(word, RootKind::Ichidan, before(Step::Stem, Seq::empty())).conjugated() == Ok::<
            Seq<char>,
            RenderError,
        >(word),
{
    reveal_strlit("");
    assert(word + ""@ =~= word);
    lemma_single_step_conjugates(word, RootKind::Ichidan, Step::Stem);
}

/// The endings that stand behind a ます stem and close the word.
pub open spec fn masu_stem_ending(step: Step) -> Option<Seq<char>> {
    match step {
        Step::Masu => Some(seq!['ま', 'す']),
        Step::Masen => Some(seq!['ま', 'せ', 'ん']),
        Step::Invitational => Some(seq!['ま', 'し', 'ょ', 'う']),
        Step::Nasai => Some(seq!['な', 'さ', 'い']),
        Step::Nagara => Some(seq!['な', 'が', 'ら']),
        Step::Tai => Some(seq!['た', 'い']),
        _ => None,
    }
}

/// Each of these endings is the ます stem of the kind followed by the same
/// characters for every kind.
proof fn lemma_masu_stem_ending_form(step: Step, kind: RootKind)
    requires
        masu_stem_ending(step) is Some,
    ensures
        step.form_for(kind, None) == Some(kind.masu_stem() + masu_stem_ending(step)->0),
{
    reveal_strlit("ま");
    reveal_strlit("す");
    reveal_strlit("せん");
    reveal_strlit("ましょう");
    reveal_strlit("なさい");
    reveal_strlit("ながら");
    reveal_strlit("た");
    reveal_strlit("い");
    assert(step.form_for(kind, None)->0 =~= kind.masu_stem() + masu_stem_ending(step)->0);
}

/// A root that the grammar finds in front of one of these endings
/// conjugates back to the stem and the ending.
proof fn lemma_masu_stem_roots_round_trip(chars: Seq<char>, step: Step, i: int)
    requires
        masu_stem_ending(step) is Some,
        0 <= i < masu_stem_roots(chars, before(step, Seq::empty())).len(),
    ensures
        masu_stem_roots(chars, before(step, Seq::empty()))[i].conjugated() == Ok::<
            Seq<char>,
            RenderError,
        >(chars + masu_stem_ending(step)->0),
{
    let root = masu_stem_roots(chars, before(step, Seq::empty()))[i];
    let ending = masu_stem_ending(step)->0;
    if i == 0 {
        reveal_strlit("");
    } else {
        lemma_masu_kinds_have_stem(chars.last(), i - 1);
    }
    assert(root.text + root.kind.masu_stem() =~= chars);
    lemma_masu_stem_ending_form(step, root.kind);
    lemma_single_step_conjugates(root.text, root.kind, step);
    assert(root.text + (root.kind.masu_stem() + ending) =~= (root.text + root.kind.masu_stem())
        + ending);
}

/// The stem of a godan う verb, found where a word ends in い, conjugates
/// back to the word.
proof fn lemma_u_stem_round_trips(word: Seq<char>)
    requires
        ends_in(word, 'い'),
    ensures
        candidate(word.drop_last(), RootKind::GodanU, before(Step::Stem, Seq::empty())).conjugated()
            == Ok::<Seq<char>, RenderError>(word),
{
    reveal_strlit("い");
    lemma_single_step_conjugates(word.drop_last(), RootKind::GodanU, Step::Stem);
    assert(word.drop_last() + "い"@ =~= word);
}

/// A word whose last character closes none of the longer endings is read
/// by its last character alone.
pub proof fn lemma_read_by_last_character(word: Seq<char>)
    requires
        word.len() > 0,
        word.last() != 'ば',
        word.last() != 'ゃ',
        word.last() != 'す',
        word.last() != 'ん',
        word.last() != 'く',
    ensures
        roots_of(word) == plain_roots(word, Seq::empty()) + ending_roots(
            word.drop_last(),
            word.last(),
            Seq::empty(),
        ),
{
    let n = word.len() as int;
    let last = word.last();
    if n >= 2 {
        assert(word.skip(n - 2)[1] == last);
    }
    if n >= 3 {
        assert(word.skip(n - 3)[2] == last);
    }
    assert(roots_of(word) =~= plain_roots(word, Seq::empty()) + ending_roots(
        word.drop_last(),
        last,
        Seq::empty(),
    ));
}

/// What a word in ます or ません is taken apart into.
proof fn lemma_masu_word_roots(word: Seq<char>, step: Step)
    requires
        step == Step::Masu || step == Step::Masen,
        ends_with(word, masu_stem_ending(step)->0),
    ensures
        roots_of(word) == plain_roots(word, Seq::empty()) + masu_stem_roots(
            without(word, masu_stem_ending(step)->0.len()),
            before(step, Seq::empty()),
        ),
        word == without(word, masu_stem_ending(step)->0.len()) + masu_stem_ending(step)->0,
{
    let ending = masu_stem_ending(step)->0;
    let tail = word.skip(word.len() - ending.len());
    assert(tail.last() == word.last());
    let stem = without(word, ending.len());
    assert(word =~= stem + ending);
    if word.len() >= 2 {
        assert(word.skip(word.len() - 2)[1] == word.last());
    }
    if word.len() >= 3 {
        assert(word.skip(word.len() - 3)[2] == word.last());
    }
    assert(roots_of(word) =~= plain_roots(word, Seq::empty()) + masu_stem_roots(
        stem,
        before(step, Seq::empty()),
    ));
}

/// What a word in ましょう is taken apart into.
proof fn lemma_mashou_word_roots(word: Seq<char>)
    requires
        ends_with(word, seq!['ま', 'し', 'ょ', 'う']),
    ensures
        roots_of(word) == plain_roots(word, Seq::empty()) + masu_stem_roots(
            without(word, 4),
            before(Step::Invitational, Seq::empty()),
        ),
        word == without(word, 4) + seq!['ま', 'し', 'ょ', 'う'],
{
    let n = word.len() as int;
    let tail = word.skip(n - 4);
    assert(tail[3] == word[n - 1]);
    assert(tail[2] == word[n - 2]);
    assert(tail[1] == word[n - 3]);
    assert(tail[0] == word[n - 4]);
    lemma_read_by_last_character(word);
    let rest = word.drop_last().drop_last();
    assert(rest.skip(rest.len() - 2) =~= seq!['ま', 'し']);
    assert(without(rest, 2) =~= without(word, 4));
    assert(word =~= without(word, 4) + seq!['ま', 'し', 'ょ', 'う']);
}

/// What a word in なさい is taken apart into.
proof fn lemma_nasai_word_roots(word: Seq<char>)
    requires
        ends_with(word, seq!['な', 'さ', 'い']),
    ensures
        roots_of(word) == plain_roots(word, Seq::empty()) + (seq![
            candidate(word.drop_last(), RootKind::GodanU, before(Step::Stem, Seq::empty())),
        ] + masu_stem_roots(without(word, 3), before(Step::Nasai, Seq::empty()))),
        word == without(word, 3) + seq!['な', 'さ', 'い'],
{
    let n = word.len() as int;
    let tail = word.skip(n - 3);
    assert(tail[2] == word[n - 1]);
    assert(tail[1] == word[n - 2]);
    assert(tail[0] == word[n - 3]);
    lemma_read_by_last_character(word);
    assert(word.drop_last().drop_last().drop_last() =~= without(word, 3));
    assert(word =~= without(word, 3) + seq!['な', 'さ', 'い']);
}

/// What a word in ながら is taken apart into.
proof fn lemma_nagara_word_roots(word: Seq<char>)
    requires
        ends_with(word, seq!['な', 'が', 'ら']),
    ensures
        roots_of(word) == plain_roots(word, Seq::empty()) + masu_stem_roots(
            without(word, 3),
            before(Step::Nagara, Seq::empty()),
        ),
        word == without(word, 3) + seq!['な', 'が', 'ら'],
{
    let n = word.len() as int;
    let tail = word.skip(n - 3);
    assert(tail[2] == word[n - 1]);
    assert(tail[1] == word[n - 2]);
    assert(tail[0] == word[n - 3]);
    lemma_read_by_last_character(word);
    assert(word.drop_last().drop_last().drop_last() =~= without(word, 3));
    assert(word =~= without(word, 3) + seq!['な', 'が', 'ら']);
}

/// What a word in たい is taken apart into.
proof fn lemma_tai_word_roots(word: Seq<char>)
    requires
        ends_with(word, seq!['た', 'い']),
    ensures
        roots_of(word) == plain_roots(word, Seq::empty()) + (seq![
            candidate(word.drop_last(), RootKind::GodanU, before(Step::Stem, Seq::empty())),
        ] + masu_stem_roots(without(word, 2), before(Step::Tai, Seq::empty()))),
        word == without(word, 2) + seq!['た', 'い'],
{
    let n = word.len() as int;
    let tail = word.skip(n - 2);
    assert(tail[1] == word[n - 1]);
    assert(tail[0] == word[n - 2]);
    lemma_read_by_last_character(word);
    assert(word.drop_last().drop_last() =~= without(word, 2));
    assert(word =~= without(word, 2) + seq!['た', 'い']);
}

/// Where the roots of a word, beyond the two plain ones, are those in
/// front of an ending behind a ます stem, they conjugate back to the word.
proof fn lemma_behind_masu_stem_round_trips(word: Seq<char>, stem: Seq<char>, step: Step, i: int)
    requires
        masu_stem_ending(step) is Some,
        word == stem + masu_stem_ending(step)->0,
        roots_of(word) == plain_roots(word, Seq::empty()) + masu_stem_roots(
            stem,
            before(step, Seq::empty()),
        ),
        2 <= i < roots_of(word).len(),
    ensures
        roots_of(word)[i].conjugated() == Ok::<Seq<char>, RenderError>(word),
{
    lemma_masu_stem_roots_round_trip(stem, step, i - 2);
}

/// The same where the word ends in い, so that the stem of a godan う verb
/// comes in between.
proof fn lemma_behind_masu_stem_in_i_round_trips(
    word: Seq<char>,
    stem: Seq<char>,
    step: Step,
    i: int,
)
    requires
        masu_stem_ending(step) is Some,
        ends_in(word, 'い'),
        word == stem + masu_stem_ending(step)->0,
        roots_of(word) == plain_roots(word, Seq::empty()) + (seq![
            candidate(word.drop_last(), RootKind::GodanU, before(Step::Stem, Seq::empty())),
        ] + masu_stem_roots(stem, before(step, Seq::empty()))),
        2 <= i < roots_of(word).len(),
    ensures
        roots_of(word)[i].conjugated() == Ok::<Seq<char>, RenderError>(word),
{
    if i == 2 {
        lemma_u_stem_round_trips(word);
    } else {
        lemma_masu_stem_roots_round_trip(stem, step, i - 3);
    }
}

/// Whether `word` ends in ます, ません, ましょう, なさい, ながら or
/// たい: the endings that stand behind a ます stem and close the word.
pub open spec fn ends_behind_masu_stem(word: Seq<char>) -> bool {
    ||| ends_with(word, seq!['ま', 'す'])
    ||| ends_with(word, seq!['ま', 'せ', 'ん'])
    ||| ends_with(word, seq!['ま', 'し', 'ょ', 'う'])
    ||| ends_with(word, seq!['な', 'さ', 'い'])
    ||| ends_with(word, seq!['な', 'が', 'ら'])
    ||| ends_with(word, seq!['た', 'い'])
}

proof fn lemma_masu_word_round_trips(word: Seq<char>, i: int)
    requires
        ends_with(word, seq!['ま', 'す']),
        2 <= i < roots_of(word).len(),
    ensures
        roots_of(word)[i].conjugated() == Ok::<Seq<char>, RenderError>(word),
{
    lemma_masu_word_roots(word, Step::Masu);
    lemma_behind_masu_stem_round_trips(word, without(word, 2), Step::Masu, i);
}

proof fn lemma_masen_word_round_trips(word: Seq<char>, i: int)
    requires
        ends_with(word, seq!['ま', 'せ', 'ん']),
        2 <= i < roots_of(word).len(),
    ensures
        roots_of(word)[i].conjugated() == Ok::<Seq<char>, RenderError>(word),
{
    lemma_masu_word_roots(word, Step::Masen);
    lemma_behind_masu_stem_round_trips(word, without(word, 3), Step::Masen, i);
}

proof fn lemma_mashou_word_round_trips(word: Seq<char>, i: int)
    requires
        ends_with(word, seq!['ま', 'し', 'ょ', 'う']),
        2 <= i < roots_of(word).len(),
    ensures
        roots_of(word)[i].conjugated() == Ok::<Seq<char>, RenderError>(word),
{
    lemma_mashou_word_roots(word);
    lemma_behind_masu_stem_round_trips(word, without(word, 4), Step::Invitational, i);
}

proof fn lemma_nasai_word_round_trips(word: Seq<char>, i: int)
    requires
        ends_with(word, seq!['な', 'さ', 'い']),
        2 <= i < roots_of(word).len(),
    ensures
        roots_of(word)[i].conjugated() == Ok::<Seq<char>, RenderError>(word),
{
    lemma_nasai_word_roots(word);
    lemma_behind_masu_stem_in_i_round_trips(word, without(word, 3), Step::Nasai, i);
}

proof fn lemma_nagara_word_round_trips(word: Seq<char>, i: int)
    requires
        ends_with(word, seq!['な', 'が', 'ら']),
        2 <= i < roots_of(word).len(),
    ensures
        roots_of(word)[i].conjugated() == Ok::<Seq<char>, RenderError>(word),
{
    lemma_nagara_word_roots(word);
    lemma_behind_masu_stem_round_trips(word, without(word, 3), Step::Nagara, i);
}

proof fn lemma_tai_word_round_trips(word: Seq<char>, i: int)
    requires
        ends_with(word, seq!['た', 'い']),
        2 <= i < roots_of(word).len(),
    ensures
        roots_of(word)[i].conjugated() == Ok::<Seq<char>, RenderError>(word),
{
    lemma_tai_word_roots(word);
    lemma_behind_masu_stem_in_i_round_trips(word, without(word, 2), Step::Tai, i);
}

proof fn lemma_masu_stem_word_round_trips(word: Seq<char>, i: int)
    requires
        ends_behind_masu_stem(word),
        2 <= i < roots_of(word).len(),
    ensures
        roots_of(word)[i].conjugated() == Ok::<Seq<char>, RenderError>(word),
{
    if ends_with(word, seq!['ま', 'す']) {
        lemma_masu_word_round_trips(word, i);
    } else if ends_with(word, seq!['ま', 'せ', 'ん']) {
        lemma_masen_word_round_trips(word, i);
    } else if ends_with(word, seq!['ま', 'し', 'ょ', 'う']) {
        lemma_mashou_word_round_trips(word, i);
    } else if ends_with(word, seq!['な', 'さ', 'い']) {
        lemma_nasai_word_round_trips(word, i);
    } else if ends_with(word, seq!['な', 'が', 'ら']) {
        lemma_nagara_word_round_trips(word, i);
    } else {
        lemma_tai_word_round_trips(word, i);
    }
}

/// Whether `c` is an ending that the grammar reads in one way only, as one
/// step on what stands in front of it: the verb stems in し, み and き, the
/// imperatives in え, ろ, げ, べ, め, れ, け and ね, and the adjective endings
/// な, さ and き.
pub open spec fn read_at_once(c: char) -> bool {
    ||| c == 'し'
    ||| c == 'み'
    ||| c == 'き'
    ||| c == 'え'
    ||| c == 'ろ'
    ||| c == 'げ'
    ||| c == 'べ'
    ||| c == 'め'
    ||| c == 'れ'
    ||| c == 'け'
    ||| c == 'ね'
    ||| c == 'な'
    ||| c == 'さ'
}

/// The roots that stand behind a verb stem in し, み or き, or behind an
/// adjective in な, さ or き, conjugate back.
proof fn lemma_stem_ending_round_trips(rest: Seq<char>, last: char, i: int)
    requires
        last == 'し' || last == 'み' || last == 'き' || last == 'な' || last == 'さ',
        0 <= i < ending_roots(rest, last, Seq::empty()).len(),
    ensures
        ending_roots(rest, last, Seq::empty())[i].conjugated() == Ok::<Seq<char>, RenderError>(
            rest.push(last),
        ),
{
    reveal_strlit("し");
    reveal_strlit("み");
    reveal_strlit("き");
    reveal_strlit("な");
    reveal_strlit("さ");
    let root = ending_roots(rest, last, Seq::empty())[i];
    let step = root.steps[0];
    lemma_single_step_conjugates(rest, root.kind, step);
    assert(rest + step.form_for(root.kind, None)->0 =~= rest.push(last));
}

/// The roots that stand behind an imperative in え, ろ, げ, べ, め, れ, け or
/// ね conjugate back.
proof fn lemma_imperative_ending_round_trips(rest: Seq<char>, last: char, i: int)
    requires
        last == 'え' || last == 'ろ' || last == 'げ' || last == 'べ' || last == 'め' || last == 'れ'
            || last == 'け' || last == 'ね',
        0 <= i < ending_roots(rest, last, Seq::empty()).len(),
    ensures
        ending_roots(rest, last, Seq::empty())[i].conjugated() == Ok::<Seq<char>, RenderError>(
            rest.push(last),
        ),
{
    reveal_strlit("え");
    reveal_strlit("ろ");
    reveal_strlit("げ");
    reveal_strlit("べ");
    reveal_strlit("め");
    reveal_strlit("れ");
    reveal_strlit("け");
    reveal_strlit("ね");
    let root = ending_roots(rest, last, Seq::empty())[i];
    lemma_single_step_conjugates(rest, root.kind, Step::Imperative);
    assert(rest + Step::Imperative.form_for(root.kind, None)->0 =~= rest.push(last));
}

proof fn lemma_read_at_once_word_round_trips(word: Seq<char>, i: int)
    requires
        word.len() > 0,
        read_at_once(word.last()),
        2 <= i < roots_of(word).len(),
    ensures
        roots_of(word)[i].conjugated() == Ok::<Seq<char>, RenderError>(word),
{
    let rest = word.drop_last();
    let last = word.last();
    lemma_read_by_last_character(word);
    assert(rest.push(last) =~= word);
    if last == 'し' || last == 'み' || last == 'き' || last == 'な' || last == 'さ' {
        lemma_stem_ending_round_trips(rest, last, i - 2);
    } else {
        lemma_imperative_ending_round_trips(rest, last, i - 2);
    }
}

/// Whether `word` ends in the で that some godan kinds have for て, and not
/// in ないで.
pub open spec fn ends_in_plain_de(word: Seq<char>) -> bool {
    ends_in(word, 'で') && !ends_with(word.drop_last(), seq!['な', 'い'])
}

proof fn lemma_de_word_round_trips(word: Seq<char>, i: int)
    requires
        ends_in_plain_de(word),
        2 <= i < roots_of(word).len(),
    ensures
        roots_of(word)[i].conjugated() == Ok::<Seq<char>, RenderError>(word),
{
    let chars = word.drop_last();
    let te = before(Step::Te, Seq::empty());
    lemma_read_by_last_character(word);
    assert(ending_roots(chars, 'で', Seq::empty()) == de_stem_roots(chars, te));
    let root = de_stem_roots(chars, te)[i - 2];
    lemma_de_kinds_have_form(chars.last(), i - 2);
    lemma_single_step_conjugates(root.text, root.kind, Step::Te);
    assert(root.text + seq![chars.last(), 'で'] =~= word);
}

/// Whether every root of `word` is read off its ending in one step: the
/// word ends behind a ます stem, or in a character that is read in one way
/// only, or in a plain で.
pub open spec fn read_in_one_step(word: Seq<char>) -> bool {
    ||| ends_behind_masu_stem(word)
    ||| word.len() > 0 && read_at_once(word.last())
    ||| ends_in_plain_de(word)
}

/// Round trip, for the words that are read in one step: each root that is
/// found in such a word conjugates back to the word.
///
/// In other words some roots do and some do not. The grammar proposes more
/// than the rules of conjugation give back, and the rules build the forms
/// of 来る on a text that leaves out its changing first character.
pub proof fn lemma_roots_conjugate_back(word: Seq<char>, i: int)
    requires
        read_in_one_step(word),
        0 <= i < roots_of(word).len(),
    ensures
        roots_of(word)[i].conjugated() == Ok::<Seq<char>, RenderError>(word),
{
    if i < 2 {
        lemma_plain_roots_round_trip(word);
    } else if ends_behind_masu_stem(word) {
        lemma_masu_stem_word_round_trips(word, i);
    } else if word.len() > 0 && read_at_once(word.last()) {
        lemma_read_at_once_word_round_trips(word, i);
    } else {
        lemma_de_word_round_trips(word, i);
    }
}

/// The two roots that every word has conjugate back to it, whatever the
/// word.
pub proof fn lemma_plain_roots_conjugate_back(word: Seq<char>)
    ensures
        roots_of(word).len() >= 2,
        roots_of(word)[0].conjugated() == Ok::<Seq<char>, RenderError>(word),
        roots_of(word)[1].conjugated() == Ok::<Seq<char>, RenderError>(word),
{
    lemma_plain_roots_round_trip(word);
    assert(roots_of(word)[0] == plain_roots(word, Seq::empty())[0]);
    assert(roots_of(word)[1] == plain_roots(word, Seq::empty())[1]);
}

/// A word of which the round trip does not hold: きた is found to be the
/// past of 来る with nothing left for its text, and that root conjugates to
/// た alone.
pub proof fn lemma_kuru_past_does_not_come_back()
    ensures
        roots_of(seq!['き', 'た']).len() == 3,
        roots_of(seq!['き', 'た'])[2] == candidate(
            Seq::empty(),
            RootKind::Kuru,
            before(Step::Ta, Seq::empty()),
        ),
        roots_of(seq!['き', 'た'])[2].conjugated() == Ok::<Seq<char>, RenderError>(seq!['た']),
{
    let word = seq!['き', 'た'];
    let stem = seq!['き'];
    let past = before(Step::Ta, Seq::empty());
    assert(word.drop_last() =~= stem);
    assert(stem.drop_last() =~= Seq::<char>::empty());
    lemma_read_by_last_character(word);
    assert(ta_stem_roots(stem, past) =~= seq![candidate(Seq::empty(), RootKind::Kuru, past)]);
    assert(ending_roots(stem, 'た', Seq::empty()) =~= ta_stem_roots(stem, past));
    reveal_strlit("た");
    lemma_single_step_conjugates(Seq::empty(), RootKind::Kuru, Step::Ta);
    assert(Seq::<char>::empty() + "た"@ =~= seq!['た']);
}

} // verus!
