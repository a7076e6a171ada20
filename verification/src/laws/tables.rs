//! The grammar and the rules of conjugation read the same tables in
//! opposite directions.
//!
//! Where the grammar proposes a kind for a stem that ends in some
//! character, the rules give that kind a stem that ends in it. 来る is the
//! one kind of which this does not hold throughout: its first character
//! changes, and the grammar counts it to the ending.

use crate::conjugate::joined;
use crate::grammar::{
    da_kinds, de_kinds, e_kinds, masu_kinds, negative_kinds, ta_kinds, te_kinds,
    volitional_kinds,
};
use crate::root::RootKind;
use vstd::prelude::*;

verus! {

/// A kind that the grammar proposes for a negative stem in `c` has `c` for
/// its negative stem.
pub proof fn lemma_negative_kinds_have_stem(c: char, i: int)
    requires
        0 <= i < negative_kinds(c).len(),
    ensures
        negative_kinds(c)[i].negative_stem() == Some(seq![c]),
{
    reveal_strlit("ら");
    reveal_strlit("な");
    reveal_strlit("か");
    reveal_strlit("が");
    reveal_strlit("ば");
    reveal_strlit("わ");
    reveal_strlit("さ");
    reveal_strlit("た");
    reveal_strlit("ま");
    reveal_strlit("し");
    reveal_strlit("こ");
    assert(negative_kinds(c)[i].negative_stem()->0 =~= seq![c]);
}

/// A kind that the grammar proposes for a ます stem in `c` has `c` for its
/// ます stem.
pub proof fn lemma_masu_kinds_have_stem(c: char, i: int)
    requires
        0 <= i < masu_kinds(c).len(),
    ensures
        masu_kinds(c)[i].masu_stem() == seq![c],
{
    reveal_strlit("び");
    reveal_strlit("み");
    reveal_strlit("に");
    reveal_strlit("り");
    reveal_strlit("し");
    reveal_strlit("ち");
    reveal_strlit("い");
    reveal_strlit("ぎ");
    reveal_strlit("き");
    assert(masu_kinds(c)[i].masu_stem() =~= seq![c]);
}

/// A kind that the grammar proposes for an え-row stem in `c` has `c` for
/// its え-row stem, in the potential and in front of ば.
pub proof fn lemma_e_kinds_have_stem(c: char, i: int, conditional: bool)
    requires
        0 <= i < e_kinds(c).len(),
    ensures
        e_kinds(c)[i].e_stem(conditional) == Some(seq![c]),
{
    reveal_strlit("え");
    reveal_strlit("け");
    reveal_strlit("げ");
    reveal_strlit("せ");
    reveal_strlit("て");
    reveal_strlit("ね");
    reveal_strlit("べ");
    reveal_strlit("め");
    reveal_strlit("れ");
    assert(e_kinds(c)[i].e_stem(conditional)->0 =~= seq![c]);
}

/// A kind that the grammar proposes for `c` in front of て has a て form in
/// `c` and て, unless the kind is 来る.
pub proof fn lemma_te_kinds_have_form(c: char, alone: bool, i: int)
    requires
        0 <= i < te_kinds(c, alone).len(),
        te_kinds(c, alone)[i] != RootKind::Kuru,
    ensures
        joined(te_kinds(c, alone)[i].te_stem(), te_kinds(c, alone)[i].te_particle()) == Some(
            seq![c, 'て'],
        ),
{
    reveal_strlit("っ");
    reveal_strlit("い");
    reveal_strlit("し");
    reveal_strlit("て");
    let kind = te_kinds(c, alone)[i];
    assert(kind.te_stem()->0 + kind.te_particle()->0 =~= seq![c, 'て']);
}

/// A kind that the grammar proposes for `c` in front of で has a て form in
/// `c` and で.
pub proof fn lemma_de_kinds_have_form(c: char, i: int)
    requires
        0 <= i < de_kinds(c).len(),
    ensures
        joined(de_kinds(c)[i].te_stem(), de_kinds(c)[i].te_particle()) == Some(seq![c, 'で']),
{
    reveal_strlit("ん");
    reveal_strlit("い");
    reveal_strlit("で");
    let kind = de_kinds(c)[i];
    assert(kind.te_stem()->0 + kind.te_particle()->0 =~= seq![c, 'で']);
}

/// A kind that the grammar proposes for `c` in front of た has a past in
/// `c` and た, unless the kind is 来る.
pub proof fn lemma_ta_kinds_have_form(c: char, i: int)
    requires
        0 <= i < ta_kinds(c).len(),
        ta_kinds(c)[i] != RootKind::Kuru,
    ensures
        ta_kinds(c)[i].ta_form() == Some(seq![c, 'た']),
{
    reveal_strlit("った");
    reveal_strlit("した");
    reveal_strlit("いた");
    assert(ta_kinds(c)[i].ta_form()->0 =~= seq![c, 'た']);
}

/// A kind that the grammar proposes for `c` in front of だ has a past in
/// `c` and だ.
pub proof fn lemma_da_kinds_have_form(c: char, i: int)
    requires
        0 <= i < da_kinds(c).len(),
    ensures
        da_kinds(c)[i].ta_form() == Some(seq![c, 'だ']),
{
    reveal_strlit("んだ");
    reveal_strlit("いだ");
    assert(da_kinds(c)[i].ta_form()->0 =~= seq![c, 'だ']);
}

/// A kind that the grammar proposes for `c` in front of the う of a
/// volitional has a volitional in `c` and う, unless the kind is 来る.
pub proof fn lemma_volitional_kinds_have_form(c: char, i: int)
    requires
        0 <= i < volitional_kinds(c).len(),
        volitional_kinds(c)[i] != RootKind::Kuru,
    ensures
        volitional_kinds(c)[i].volitional_form() == Some(seq![c, 'う']),
{
    reveal_strlit("よう");
    reveal_strlit("ぼう");
    reveal_strlit("もう");
    reveal_strlit("のう");
    reveal_strlit("ろう");
    reveal_strlit("そう");
    reveal_strlit("とう");
    reveal_strlit("こう");
    reveal_strlit("ごう");
    reveal_strlit("おう");
    assert(volitional_kinds(c)[i].volitional_form()->0 =~= seq![c, 'う']);
}

} // verus!
