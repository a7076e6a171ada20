//! What is conjugated by the rules is found again by the grammar.
//!
//! This is shown for the て form: whatever the stem, the て form of a root
//! is taken apart into that root again, among others. It holds of the
//! kinds that the grammar reads behind any stem. A godan ぐ verb is not
//! among them, since behind a stem in な its いで is read as ないで, nor is
//! 来る, which is only read where nothing stands in front of it.

use crate::grammar::{
    before, candidate, candidates, de_kinds, de_stem_roots, ending_roots, roots_of, te_kinds,
    te_stem_roots,
};
use crate::laws::round_trip::lemma_read_by_last_character;
use crate::laws::tables::{lemma_de_kinds_have_form, lemma_te_kinds_have_form};
use crate::root::{RootKind, Step};
use vstd::prelude::*;

verus! {

/// The ichidan stem in front of て is found.
proof fn lemma_ichidan_te_is_found(stem: Seq<char>)
    ensures
        roots_of(stem + seq!['て']).contains(
            candidate(stem, RootKind::Ichidan, before(Step::Te, Seq::empty())),
        ),
{
    let word = stem + seq!['て'];
    let te = before(Step::Te, Seq::empty());
    assert(word.drop_last() =~= stem);
    lemma_read_by_last_character(word);
    assert(te_stem_roots(stem, te)[0] == candidate(stem, RootKind::Ichidan, te));
    assert(ending_roots(stem, 'て', Seq::empty())[1] == te_stem_roots(stem, te)[0]);
    assert(roots_of(word)[3] == ending_roots(stem, 'て', Seq::empty())[1]);
}

/// The kinds that have っ, い or し in front of て are found behind any
/// stem.
proof fn lemma_te_kind_is_found(stem: Seq<char>, c: char, i: int)
    requires
        c == 'っ' || c == 'い' || c == 'し',
        0 <= i < te_kinds(c, false).len(),
    ensures
        roots_of(stem + seq![c, 'て']).contains(
            candidate(stem, te_kinds(c, false)[i], before(Step::Te, Seq::empty())),
        ),
{
    let word = stem + seq![c, 'て'];
    let rest = stem + seq![c];
    let te = before(Step::Te, Seq::empty());
    assert(word.drop_last() =~= rest);
    assert(rest.drop_last() =~= stem);
    lemma_read_by_last_character(word);
    let kinds = te_kinds(c, rest.len() == 1);
    assert(kinds == te_kinds(c, false));
    assert(te_stem_roots(rest, te) == seq![candidate(rest, RootKind::Ichidan, te)] + candidates(
        stem,
        kinds,
        te,
    ));
    assert(te_stem_roots(rest, te)[i + 1] == candidate(stem, kinds[i], te));
    assert(ending_roots(rest, 'て', Seq::empty())[i + 2] == te_stem_roots(rest, te)[i + 1]);
    assert(roots_of(word)[i + 4] == ending_roots(rest, 'て', Seq::empty())[i + 2]);
}

/// The kinds that have ん in front of で are found behind any stem.
proof fn lemma_de_kind_is_found(stem: Seq<char>, i: int)
    requires
        0 <= i < de_kinds('ん').len(),
    ensures
        roots_of(stem + seq!['ん', 'で']).contains(
            candidate(stem, de_kinds('ん')[i], before(Step::Te, Seq::empty())),
        ),
{
    let word = stem + seq!['ん', 'で'];
    let rest = stem + seq!['ん'];
    let te = before(Step::Te, Seq::empty());
    assert(word.drop_last() =~= rest);
    assert(rest.drop_last() =~= stem);
    lemma_read_by_last_character(word);
    if rest.len() >= 2 {
        assert(rest.skip(rest.len() - 2)[1] == 'ん');
    }
    assert(ending_roots(rest, 'で', Seq::empty()) == de_stem_roots(rest, te));
    assert(de_stem_roots(rest, te)[i] == candidate(stem, de_kinds('ん')[i], te));
    assert(roots_of(word)[i + 2] == de_stem_roots(rest, te)[i]);
}

/// The kinds whose て form is read behind any stem.
pub open spec fn te_form_is_read(kind: RootKind) -> bool {
    match kind {
        RootKind::Ichidan
        | RootKind::GodanRu
        | RootKind::GodanTsu
        | RootKind::GodanU
        | RootKind::Iku
        | RootKind::GodanKu
        | RootKind::GodanSu
        | RootKind::Suru
        | RootKind::SpecialSuru
        | RootKind::GodanBu
        | RootKind::GodanNu
        | RootKind::GodanMu => true,
        _ => false,
    }
}

/// Containment, for the て form: whatever the stem, the て form of a root
/// of one of these kinds is taken apart into that root with the one step
/// て, among others.
pub proof fn lemma_te_form_is_found(stem: Seq<char>, kind: RootKind)
    requires
        te_form_is_read(kind),
    ensures
        Step::Te.form_for(kind, None) is Some,
        roots_of(stem + Step::Te.form_for(kind, None)->0).contains(
            candidate(stem, kind, before(Step::Te, Seq::empty())),
        ),
{
    match kind {
        RootKind::Ichidan => {
            reveal_strlit("");
            reveal_strlit("て");
            assert(Step::Te.form_for(kind, None)->0 =~= seq!['て']);
            lemma_ichidan_te_is_found(stem);
        },
        RootKind::GodanRu => {
            lemma_te_kinds_have_form('っ', false, 0);
            lemma_te_kind_is_found(stem, 'っ', 0);
        },
        RootKind::GodanTsu => {
            lemma_te_kinds_have_form('っ', false, 1);
            lemma_te_kind_is_found(stem, 'っ', 1);
        },
        RootKind::GodanU => {
            lemma_te_kinds_have_form('っ', false, 2);
            lemma_te_kind_is_found(stem, 'っ', 2);
        },
        RootKind::Iku => {
            lemma_te_kinds_have_form('っ', false, 3);
            lemma_te_kind_is_found(stem, 'っ', 3);
        },
        RootKind::GodanKu => {
            lemma_te_kinds_have_form('い', false, 0);
            lemma_te_kind_is_found(stem, 'い', 0);
        },
        RootKind::GodanSu => {
            lemma_te_kinds_have_form('し', false, 0);
            lemma_te_kind_is_found(stem, 'し', 0);
        },
        RootKind::Suru => {
            lemma_te_kinds_have_form('し', false, 1);
            lemma_te_kind_is_found(stem, 'し', 1);
        },
        RootKind::SpecialSuru => {
            lemma_te_kinds_have_form('し', false, 2);
            lemma_te_kind_is_found(stem, 'し', 2);
        },
        RootKind::GodanBu => {
            lemma_de_kinds_have_form('ん', 0);
            lemma_de_kind_is_found(stem, 0);
        },
        RootKind::GodanNu => {
            lemma_de_kinds_have_form('ん', 1);
            lemma_de_kind_is_found(stem, 1);
        },
        _ => {
            lemma_de_kinds_have_form('ん', 2);
            lemma_de_kind_is_found(stem, 2);
        },
    }
}

} // verus!
