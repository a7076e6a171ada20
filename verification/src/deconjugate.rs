//! Taking a conjugated word apart.
//!
//! The functions here walk a word from its end and collect the roots that
//! the grammar finds in it. Each of them looks at the first `len`
//! characters of `word`, which is what earlier steps have left of it, and
//! appends what it finds to `roots`.

use crate::grammar;
use crate::laws::begins::{lemma_later_roots_are_shorter, lemma_root_text_begins_word};
use crate::root::{Root, RootKind, RootView, Step};
use vstd::prelude::*;

verus! {

/// What each of `roots` stands for.
pub open spec fn views(roots: Seq<Root>) -> Seq<RootView> {
    roots.map_values(|root: Root| root@)
}

/// A word as the functions below read it: the text, from which the roots
/// are cut, and its characters laid out by position, for looking at its
/// end.
struct Word<'a> {
    text: &'a str,
    chars: Vec<char>,
}

impl View for Word<'_> {
    type V = Seq<char>;

    closed spec fn view(&self) -> Seq<char> {
        self.text@
    }
}

impl<'a> Word<'a> {
    #[verifier::type_invariant]
    spec fn laid_out(self) -> bool {
        self.chars@ == self.text@
    }

    /// Lays out the characters of `text`.
    fn new(text: &'a str) -> (word: Word<'a>)
        ensures
            word@ == text@,
    {
        let mut chars: Vec<char> = Vec::new();
        for c in all: text.chars()
            invariant
                all.seq() == text@,
                chars@ == all.seq().take(all.index() as int),
        {
            chars.push(c);
            proof {
                assert(all.seq().take(all.index() + 1) =~= all.seq().take(all.index() as int).push(
                    c,
                ));
            }
        }
        proof {
            assert(text@.take(text@.len() as int) =~= text@);
        }
        Word { text, chars }
    }

    /// How many characters the word has.
    fn len(&self) -> (len: usize)
        ensures
            len == self@.len(),
    {
        proof {
            use_type_invariant(self);
        }
        self.chars.len()
    }

    /// The first `len` characters as a text of their own.
    fn stem(&self, len: usize) -> (text: String)
        requires
            len <= self@.len(),
        ensures
            text@ == self@.take(len as int),
    {
        String::from_str(self.text.substring_char(0, len))
    }
}

/// The last of the first `len` characters of `word`, if there is one.
fn last_char(word: &Word, len: usize) -> (last: Option<char>)
    requires
        len <= word@.len(),
    ensures
        last is None <==> len == 0,
        last matches Some(c) ==> c == word@.take(len as int).last() && word@.take(len - 1)
            == word@.take(len as int).drop_last(),
{
    proof {
        use_type_invariant(word);
    }
    if len == 0 {
        None
    } else {
        assert(word@.take(len - 1) =~= word@.take(len as int).drop_last());
        Some(word.chars[len - 1])
    }
}

/// Whether the first `len` characters of `word` end in `c`.
fn ends_in(word: &Word, len: usize, c: char) -> (found: bool)
    requires
        len <= word@.len(),
    ensures
        found == grammar::ends_in(word@.take(len as int), c),
        found ==> len > 0 && word@.take(len - 1) == word@.take(len as int).drop_last(),
{
    match last_char(word, len) {
        Some(last) => last == c,
        None => false,
    }
}

/// Whether the first `len` characters of `word` end with `a` and `b`.
fn ends_with_two(word: &Word, len: usize, a: char, b: char) -> (found: bool)
    requires
        len <= word@.len(),
    ensures
        found == grammar::ends_with(word@.take(len as int), seq![a, b]),
        found ==> len >= 2 && word@.take(len - 2) == grammar::without(word@.take(len as int), 2),
{
    proof {
        use_type_invariant(word);
    }
    if len < 2 {
        return false;
    }
    let found = word.chars[len - 2] == a && word.chars[len - 1] == b;
    proof {
        let chars = word@.take(len as int);
        let tail = chars.skip(len - 2);
        assert(tail[0] == word@[len - 2]);
        assert(tail[1] == word@[len - 1]);
        if found {
            assert(tail =~= seq![a, b]);
            assert(word@.take(len - 2) =~= grammar::without(chars, 2));
        }
    }
    found
}

/// Whether the first `len` characters of `word` end with `a`, `b` and `c`.
fn ends_with_three(word: &Word, len: usize, a: char, b: char, c: char) -> (found: bool)
    requires
        len <= word@.len(),
    ensures
        found == grammar::ends_with(word@.take(len as int), seq![a, b, c]),
        found ==> len >= 3 && word@.take(len - 3) == grammar::without(word@.take(len as int), 3),
{
    proof {
        use_type_invariant(word);
    }
    if len < 3 {
        return false;
    }
    let found = word.chars[len - 3] == a && word.chars[len - 2] == b && word.chars[len - 1] == c;
    proof {
        let chars = word@.take(len as int);
        let tail = chars.skip(len - 3);
        assert(tail[0] == word@[len - 3]);
        assert(tail[1] == word@[len - 2]);
        assert(tail[2] == word@[len - 1]);
        if found {
            assert(tail =~= seq![a, b, c]);
            assert(word@.take(len - 3) =~= grammar::without(chars, 3));
        }
    }
    found
}

/// A copy of `steps`.
fn copy_of(steps: &Vec<Step>) -> (chain: Vec<Step>)
    ensures
        chain@ == steps@,
{
    let mut chain = Vec::new();
    let mut i: usize = 0;
    while i < steps.len()
        invariant
            i <= steps.len(),
            chain@ == steps@.take(i as int),
        decreases steps.len() - i,
    {
        chain.push(steps[i]);
        proof {
            assert(steps@.take(i + 1) =~= steps@.take(i as int).push(steps@[i as int]));
        }
        i += 1;
    }
    proof {
        assert(steps@.take(steps.len() as int) =~= steps@);
    }
    chain
}

/// `steps` with `step` in front of them.
fn before(step: Step, steps: &Vec<Step>) -> (chain: Vec<Step>)
    ensures
        chain@ == grammar::before(step, steps@),
{
    let mut chain = Vec::new();
    chain.push(step);
    let mut i: usize = 0;
    while i < steps.len()
        invariant
            i <= steps.len(),
            chain@ == grammar::before(step, steps@.take(i as int)),
        decreases steps.len() - i,
    {
        chain.push(steps[i]);
        proof {
            assert(steps@.take(i + 1) =~= steps@.take(i as int).push(steps@[i as int]));
            assert(chain@ =~= grammar::before(step, steps@.take(i + 1)));
        }
        i += 1;
    }
    proof {
        assert(steps@.take(steps.len() as int) =~= steps@);
    }
    chain
}

/// Appends the root made of the first `len` characters of `word`, with
/// `kind` and `steps`.
fn push_root(roots: &mut Vec<Root>, word: &Word, len: usize, kind: RootKind, steps: &Vec<Step>)
    requires
        len <= word@.len(),
    ensures
        views(final(roots)@) == views(old(roots)@) + seq![
            grammar::candidate(word@.take(len as int), kind, steps@),
        ],
{
    let root = Root { text: word.stem(len), kind, steps: copy_of(steps) };
    roots.push(root);
    proof {
        assert(views(roots@) =~= views(old(roots)@) + seq![
            grammar::candidate(word@.take(len as int), kind, steps@),
        ]);
    }
}

/// Appends one root for each of `kinds`, each made of the first `len`
/// characters of `word`, with `steps`.
fn push_roots(
    roots: &mut Vec<Root>,
    word: &Word,
    len: usize,
    kinds: &Vec<RootKind>,
    steps: &Vec<Step>,
)
    requires
        len <= word@.len(),
    ensures
        views(final(roots)@) == views(old(roots)@) + grammar::candidates(
            word@.take(len as int),
            kinds@,
            steps@,
        ),
{
    let mut i: usize = 0;
    while i < kinds.len()
        invariant
            i <= kinds.len(),
            len <= word@.len(),
            views(roots@) == views(old(roots)@) + grammar::candidates(
                word@.take(len as int),
                kinds@.take(i as int),
                steps@,
            ),
        decreases kinds.len() - i,
    {
        push_root(roots, word, len, kinds[i], steps);
        proof {
            assert(kinds@.take(i + 1) =~= kinds@.take(i as int).push(kinds@[i as int]));
            assert(views(roots@) =~= views(old(roots)@) + grammar::candidates(
                word@.take(len as int),
                kinds@.take(i + 1),
                steps@,
            ));
        }
        i += 1;
    }
    proof {
        assert(kinds@.take(kinds.len() as int) =~= kinds@);
    }
}

/// [`grammar::negative_kinds`] as a vector.
fn negative_kinds(c: char) -> (kinds: Vec<RootKind>)
    ensures
        kinds@ == grammar::negative_kinds(c),
{
    match c {
        'ら' => vec![RootKind::GodanRu],
        'な' => vec![RootKind::GodanNu],
        'か' => vec![RootKind::GodanKu],
        'が' => vec![RootKind::GodanGu],
        'ば' => vec![RootKind::GodanBu],
        'わ' => vec![RootKind::GodanU],
        'さ' => vec![RootKind::GodanSu],
        'た' => vec![RootKind::GodanTsu],
        'ま' => vec![RootKind::GodanMu],
        'し' => vec![RootKind::Suru, RootKind::SpecialSuru],
        'こ' => vec![RootKind::Kuru],
        _ => Vec::new(),
    }
}

/// [`grammar::masu_kinds`] as a vector.
fn masu_kinds(c: char) -> (kinds: Vec<RootKind>)
    ensures
        kinds@ == grammar::masu_kinds(c),
{
    match c {
        'い' => vec![RootKind::GodanU],
        'き' => vec![RootKind::GodanKu, RootKind::Kuru, RootKind::Iku],
        'ぎ' => vec![RootKind::GodanGu],
        'し' => vec![RootKind::GodanSu],
        'ち' => vec![RootKind::GodanTsu],
        'に' => vec![RootKind::GodanNu],
        'び' => vec![RootKind::GodanBu],
        'み' => vec![RootKind::GodanMu],
        'り' => vec![RootKind::GodanRu],
        _ => Vec::new(),
    }
}

/// [`grammar::te_kinds`] as a vector.
fn te_kinds(c: char, alone: bool) -> (kinds: Vec<RootKind>)
    ensures
        kinds@ == grammar::te_kinds(c, alone),
{
    match c {
        'っ' => vec![RootKind::GodanRu, RootKind::GodanTsu, RootKind::GodanU, RootKind::Iku],
        'い' => vec![RootKind::GodanKu],
        'し' => vec![RootKind::GodanSu, RootKind::Suru, RootKind::SpecialSuru],
        'き' => if alone {
            vec![RootKind::Kuru]
        } else {
            Vec::new()
        },
        _ => Vec::new(),
    }
}

/// [`grammar::de_kinds`] as a vector.
fn de_kinds(c: char) -> (kinds: Vec<RootKind>)
    ensures
        kinds@ == grammar::de_kinds(c),
{
    match c {
        'い' => vec![RootKind::GodanGu],
        'ん' => vec![RootKind::GodanBu, RootKind::GodanNu, RootKind::GodanMu],
        _ => Vec::new(),
    }
}

/// [`grammar::da_kinds`] as a vector.
fn da_kinds(c: char) -> (kinds: Vec<RootKind>)
    ensures
        kinds@ == grammar::da_kinds(c),
{
    match c {
        'ん' => vec![RootKind::GodanBu, RootKind::GodanMu, RootKind::GodanNu],
        'い' => vec![RootKind::GodanGu],
        _ => Vec::new(),
    }
}

/// [`grammar::ta_kinds`] as a vector.
fn ta_kinds(c: char) -> (kinds: Vec<RootKind>)
    ensures
        kinds@ == grammar::ta_kinds(c),
{
    match c {
        'っ' => vec![RootKind::GodanRu, RootKind::GodanTsu, RootKind::GodanU, RootKind::Iku],
        'し' => vec![RootKind::GodanSu],
        'い' => vec![RootKind::GodanKu],
        'き' => vec![RootKind::Kuru],
        _ => Vec::new(),
    }
}

/// [`grammar::e_kinds`] as a vector.
fn e_kinds(c: char) -> (kinds: Vec<RootKind>)
    ensures
        kinds@ == grammar::e_kinds(c),
{
    match c {
        'え' => vec![RootKind::GodanU],
        'け' => vec![RootKind::GodanKu],
        'げ' => vec![RootKind::GodanGu],
        'せ' => vec![RootKind::GodanSu],
        'て' => vec![RootKind::GodanTsu],
        'ね' => vec![RootKind::GodanNu],
        'べ' => vec![RootKind::GodanBu],
        'め' => vec![RootKind::GodanMu],
        'れ' => vec![RootKind::GodanRu],
        _ => Vec::new(),
    }
}

/// [`grammar::volitional_kinds`] as a vector.
fn volitional_kinds(c: char) -> (kinds: Vec<RootKind>)
    ensures
        kinds@ == grammar::volitional_kinds(c),
{
    match c {
        'よ' => vec![RootKind::Ichidan, RootKind::Kuru],
        'ぼ' => vec![RootKind::GodanBu],
        'も' => vec![RootKind::GodanMu],
        'の' => vec![RootKind::GodanNu],
        'ろ' => vec![RootKind::GodanRu],
        'そ' => vec![RootKind::GodanSu],
        'と' => vec![RootKind::GodanTsu],
        'こ' => vec![RootKind::GodanKu, RootKind::Iku],
        'ご' => vec![RootKind::GodanGu],
        'お' => vec![RootKind::GodanU],
        _ => Vec::new(),
    }
}

/// Appends the roots that [`grammar::masu_stem_roots`] finds in the first `len`
/// characters of `word`.
fn push_masu_stem_roots(roots: &mut Vec<Root>, word: &Word, len: usize, steps: &Vec<Step>)
    requires
        len <= word@.len(),
    ensures
        views(final(roots)@) == views(old(roots)@) + grammar::masu_stem_roots(
            word@.take(len as int),
            steps@,
        ),
{
    push_root(roots, word, len, RootKind::Ichidan, steps);
    match last_char(word, len) {
        Some(last) => push_roots(roots, word, len - 1, &masu_kinds(last), steps),
        None => {},
    }
}

/// Appends the roots that [`grammar::te_stem_roots`] finds in the first `len`
/// characters of `word`.
fn push_te_stem_roots(roots: &mut Vec<Root>, word: &Word, len: usize, steps: &Vec<Step>)
    requires
        len <= word@.len(),
    ensures
        views(final(roots)@) == views(old(roots)@) + grammar::te_stem_roots(
            word@.take(len as int),
            steps@,
        ),
    decreases len, 0nat,
{
    push_root(roots, word, len, RootKind::Ichidan, steps);
    match last_char(word, len) {
        Some('れ') => push_passive_roots(roots, word, len - 1, steps),
        Some(last) => push_roots(roots, word, len - 1, &te_kinds(last, len == 1), steps),
        None => {},
    }
}

/// Appends the roots that [`grammar::de_stem_roots`] finds in the first `len`
/// characters of `word`.
fn push_de_stem_roots(roots: &mut Vec<Root>, word: &Word, len: usize, steps: &Vec<Step>)
    requires
        len <= word@.len(),
    ensures
        views(final(roots)@) == views(old(roots)@) + grammar::de_stem_roots(
            word@.take(len as int),
            steps@,
        ),
{
    match last_char(word, len) {
        Some(last) => push_roots(roots, word, len - 1, &de_kinds(last), steps),
        None => {},
    }
}

/// Appends the roots that [`grammar::da_stem_roots`] finds in the first `len`
/// characters of `word`.
fn push_da_stem_roots(roots: &mut Vec<Root>, word: &Word, len: usize, steps: &Vec<Step>)
    requires
        len <= word@.len(),
    ensures
        views(final(roots)@) == views(old(roots)@) + grammar::da_stem_roots(
            word@.take(len as int),
            steps@,
        ),
{
    match last_char(word, len) {
        Some(last) => push_roots(roots, word, len - 1, &da_kinds(last), steps),
        None => {},
    }
}

/// Appends the roots that [`grammar::small_ya_roots`] finds in the first `len`
/// characters of `word`.
fn push_small_ya_roots(roots: &mut Vec<Root>, word: &Word, len: usize, steps: &Vec<Step>)
    requires
        len <= word@.len(),
    ensures
        views(final(roots)@) == views(old(roots)@) + grammar::small_ya_roots(
            word@.take(len as int),
            steps@,
        ),
{
    if ends_in(word, len, 'ち') {
        push_te_stem_roots(roots, word, len - 1, &before(Step::Chau, steps));
    } else if ends_in(word, len, 'じ') {
        push_de_stem_roots(roots, word, len - 1, &before(Step::Chau, steps));
    }
}

/// Appends the roots that [`grammar::te_ending_roots`] finds in the first `len`
/// characters of `word`.
fn push_te_ending_roots(roots: &mut Vec<Root>, word: &Word, len: usize, steps: &Vec<Step>)
    requires
        len <= word@.len(),
    ensures
        views(final(roots)@) == views(old(roots)@) + grammar::te_ending_roots(
            word@.take(len as int),
            steps@,
        ),
    decreases len, 1nat,
{
    push_root(roots, word, len, RootKind::GodanTsu, &before(Step::Imperative, steps));
    push_te_stem_roots(roots, word, len, &before(Step::Te, steps));
}

/// Appends the roots that [`grammar::i_adjective_roots`] finds in the first `len`
/// characters of `word`.
fn push_i_adjective_roots(roots: &mut Vec<Root>, word: &Word, len: usize, steps: &Vec<Step>)
    requires
        len <= word@.len(),
    ensures
        views(final(roots)@) == views(old(roots)@) + grammar::i_adjective_roots(
            word@.take(len as int),
            steps@,
        ),
    decreases len, 0nat,
{
    push_root(roots, word, len, RootKind::IAdjective, steps);
    if ends_in(word, len, 'な') {
        push_negative_roots(roots, word, len - 1, &before(Step::Nai, steps));
    } else if ends_in(word, len, 'た') {
        push_masu_stem_roots(roots, word, len - 1, &before(Step::Tai, steps));
    }
}

/// Appends the roots that [`grammar::negative_roots`] finds in the first `len`
/// characters of `word`.
fn push_negative_roots(roots: &mut Vec<Root>, word: &Word, len: usize, steps: &Vec<Step>)
    requires
        len <= word@.len(),
    ensures
        views(final(roots)@) == views(old(roots)@) + grammar::negative_roots(
            word@.take(len as int),
            steps@,
        ),
    decreases len, 3nat,
{
    push_other_negative_roots(roots, word, len, steps);
    push_ichidan_roots(roots, word, len, steps, false);
}

/// Appends the roots that [`grammar::other_negative_roots`] finds in the first `len`
/// characters of `word`.
fn push_other_negative_roots(roots: &mut Vec<Root>, word: &Word, len: usize, steps: &Vec<Step>)
    requires
        len <= word@.len(),
    ensures
        views(final(roots)@) == views(old(roots)@) + grammar::other_negative_roots(
            word@.take(len as int),
            steps@,
        ),
    decreases len, 0nat,
{
    match last_char(word, len) {
        Some('せ') => push_causative_roots(roots, word, len - 1, steps),
        Some('く') => push_i_adjective_roots(
            roots,
            word,
            len - 1,
            &before(Step::AdverbialKu, steps),
        ),
        Some(last) => push_roots(roots, word, len - 1, &negative_kinds(last), steps),
        None => {},
    }
}

/// Appends the roots that [`grammar::causative_roots`] finds in the first `len`
/// characters of `word`.
fn push_causative_roots(roots: &mut Vec<Root>, word: &Word, len: usize, steps: &Vec<Step>)
    requires
        len <= word@.len(),
    ensures
        views(final(roots)@) == views(old(roots)@) + grammar::causative_roots(
            word@.take(len as int),
            steps@,
        ),
    decreases len, 1nat,
{
    let causative = before(Step::Causative, steps);
    if ends_in(word, len, 'さ') {
        push_ichidan_roots(roots, word, len - 1, &causative, true);
    }
    push_other_negative_roots(roots, word, len, &causative);
}

/// Appends the roots that [`grammar::passive_roots`] finds in the first `len`
/// characters of `word`.
fn push_passive_roots(roots: &mut Vec<Root>, word: &Word, len: usize, steps: &Vec<Step>)
    requires
        len <= word@.len(),
    ensures
        views(final(roots)@) == views(old(roots)@) + grammar::passive_roots(
            word@.take(len as int),
            steps@,
        ),
    decreases len, 1nat,
{
    let passive = before(Step::Passive, steps);
    if ends_in(word, len, 'ら') {
        push_ichidan_roots(roots, word, len - 1, &passive, false);
    } else if ends_in(word, len, 'さ') {
        push_causative_roots(roots, word, len - 1, &passive);
    }
    push_other_negative_roots(roots, word, len, &passive);
}

/// Appends the roots that [`grammar::continuous_roots`] finds in the first `len`
/// characters of `word`.
fn push_continuous_roots(roots: &mut Vec<Root>, word: &Word, len: usize, steps: &Vec<Step>)
    requires
        len <= word@.len(),
    ensures
        views(final(roots)@) == views(old(roots)@) + grammar::continuous_roots(
            word@.take(len as int),
            steps@,
        ),
    decreases len, 0nat,
{
    if ends_in(word, len, 'て') {
        push_te_ending_roots(roots, word, len - 1, &before(Step::Continuous, steps));
    } else if ends_in(word, len, 'で') {
        push_de_ending_roots(roots, word, len - 1, &before(Step::Continuous, steps));
    }
}

/// Appends the roots that [`grammar::de_ending_roots`] finds in the first `len`
/// characters of `word`.
fn push_de_ending_roots(roots: &mut Vec<Root>, word: &Word, len: usize, steps: &Vec<Step>)
    requires
        len <= word@.len(),
    ensures
        views(final(roots)@) == views(old(roots)@) + grammar::de_ending_roots(
            word@.take(len as int),
            steps@,
        ),
    decreases len, 0nat,
{
    if ends_with_two(word, len, 'な', 'い') {
        push_negative_roots(roots, word, len - 2, &before(Step::Naide, steps));
    } else {
        push_de_stem_roots(roots, word, len, &before(Step::Te, steps));
    }
}

/// The steps that an ichidan stem hands on where it ends in て or で.
fn after_ru(steps: &Vec<Step>) -> (chain: Vec<Step>)
    ensures
        chain@ == grammar::after_ru(steps@),
{
    if steps.len() == 0 {
        vec![Step::ContRuAbbrev]
    } else {
        copy_of(steps)
    }
}

/// [`grammar::ichidan_kinds`] as a vector.
fn ichidan_kinds(suru_possible: bool) -> (kinds: Vec<RootKind>)
    ensures
        kinds@ == grammar::ichidan_kinds(suru_possible),
{
    if suru_possible {
        vec![RootKind::Ichidan, RootKind::Suru, RootKind::SpecialSuru]
    } else {
        vec![RootKind::Ichidan]
    }
}

/// Appends the roots that [`grammar::potential_roots`] finds in the first `len`
/// characters of `word`.
fn push_potential_roots(roots: &mut Vec<Root>, word: &Word, len: usize, steps: &Vec<Step>)
    requires
        len <= word@.len(),
    ensures
        views(final(roots)@) == views(old(roots)@) + grammar::potential_roots(
            word@.take(len as int),
            steps@,
        ),
    decreases len, 1nat,
{
    if steps.len() > 0 && steps[0] == Step::Potential {
        assert(views(roots@) =~= views(roots@) + grammar::nothing());
    } else {
        push_e_stem_roots(roots, word, len, &before(Step::Potential, steps), false);
    }
}

/// Appends the roots that [`grammar::ichidan_ending_roots`] finds in the first `len`
/// characters of `word`.
fn push_ichidan_ending_roots(roots: &mut Vec<Root>, word: &Word, len: usize, steps: &Vec<Step>)
    requires
        len <= word@.len(),
    ensures
        views(final(roots)@) == views(old(roots)@) + grammar::ichidan_ending_roots(
            word@.take(len as int),
            steps@,
        ),
    decreases len, 1nat,
{
    match last_char(word, len) {
        Some('て') => push_te_ending_roots(roots, word, len - 1, &after_ru(steps)),
        Some('で') => push_de_ending_roots(roots, word, len - 1, &after_ru(steps)),
        Some('い') => push_continuous_roots(roots, word, len - 1, steps),
        Some('せ') => push_causative_roots(roots, word, len - 1, steps),
        Some('れ') => push_passive_roots(roots, word, len - 1, steps),
        Some('こ') => push_root(roots, word, len - 1, RootKind::Kuru, steps),
        _ => {
            assert(views(roots@) =~= views(roots@) + grammar::nothing());
        },
    }
}

/// Appends the roots that [`grammar::ichidan_roots`] finds in the first `len`
/// characters of `word`.
fn push_ichidan_roots(
    roots: &mut Vec<Root>,
    word: &Word,
    len: usize,
    steps: &Vec<Step>,
    suru_possible: bool,
)
    requires
        len <= word@.len(),
    ensures
        views(final(roots)@) == views(old(roots)@) + grammar::ichidan_roots(
            word@.take(len as int),
            steps@,
            suru_possible,
        ),
    decreases len, 2nat,
{
    push_roots(roots, word, len, &ichidan_kinds(suru_possible), steps);
    push_potential_roots(roots, word, len, steps);
    push_ichidan_ending_roots(roots, word, len, steps);
}

/// Appends the roots that [`grammar::e_stem_roots`] finds in the first `len`
/// characters of `word`.
fn push_e_stem_roots(
    roots: &mut Vec<Root>,
    word: &Word,
    len: usize,
    steps: &Vec<Step>,
    conditional: bool,
)
    requires
        len <= word@.len(),
    ensures
        views(final(roots)@) == views(old(roots)@) + grammar::e_stem_roots(
            word@.take(len as int),
            steps@,
            conditional,
        ),
    decreases len, 0nat,
{
    match last_char(word, len) {
        Some(last) => {
            let rest = len - 1;
            push_roots(roots, word, rest, &e_kinds(last), steps);
            if last == 'け' {
                if ends_in(word, rest, 'い') || ends_in(word, rest, 'ゆ') {
                    push_root(roots, word, rest, RootKind::Iku, steps);
                }
            } else if last == 'れ' {
                if conditional {
                    push_ichidan_roots(roots, word, rest, steps, false);
                } else if ends_in(word, rest, 'ら') {
                    let stem = rest - 1;
                    push_ichidan_roots(roots, word, stem, steps, false);
                    if ends_in(word, stem, 'こ') {
                        push_root(roots, word, stem, RootKind::Kuru, steps);
                    }
                }
            }
        },
        None => {},
    }
}

/// Appends the roots that [`grammar::ta_stem_roots`] finds in the first `len`
/// characters of `word`.
fn push_ta_stem_roots(roots: &mut Vec<Root>, word: &Word, len: usize, steps: &Vec<Step>)
    requires
        len <= word@.len(),
    ensures
        views(final(roots)@) == views(old(roots)@) + grammar::ta_stem_roots(
            word@.take(len as int),
            steps@,
        ),
{
    push_e_stem_roots(roots, word, len, &before(Step::Potential, steps), false);
    match last_char(word, len) {
        Some('し') => {
            let rest = len - 1;
            if ends_in(word, rest, 'ま') {
                push_masu_stem_roots(roots, word, rest - 1, &before(Step::Masu, steps));
            }
            push_roots(roots, word, rest, &ta_kinds('し'), steps);
        },
        Some('っ') => push_roots(roots, word, len - 1, &ta_kinds('っ'), steps),
        Some('い') => push_roots(roots, word, len - 1, &ta_kinds('い'), steps),
        Some('き') => push_roots(roots, word, len - 1, &ta_kinds('き'), steps),
        _ => push_root(roots, word, len, RootKind::Ichidan, steps),
    }
}

/// Appends the roots that [`grammar::ta_ending_roots`] finds in the first `len`
/// characters of `word`.
fn push_ta_ending_roots(roots: &mut Vec<Root>, word: &Word, len: usize, steps: &Vec<Step>)
    requires
        len <= word@.len(),
    ensures
        views(final(roots)@) == views(old(roots)@) + grammar::ta_ending_roots(
            word@.take(len as int),
            steps@,
        ),
{
    let past = before(Step::Ta, steps);
    push_ta_stem_roots(roots, word, len, &past);
    match last_char(word, len) {
        Some('っ') => {
            let rest = len - 1;
            if ends_in(word, rest, 'ゃ') {
                push_small_ya_roots(roots, word, rest - 1, &past);
            }
            if ends_in(word, rest, 'か') {
                let stem = rest - 1;
                push_root(roots, word, stem, RootKind::IAdjective, &before(Step::Katta, steps));
                if ends_in(word, stem, 'な') {
                    push_negative_roots(roots, word, stem - 1, &before(Step::Nakatta, steps));
                }
            }
        },
        Some('い') => push_continuous_roots(roots, word, len - 1, &past),
        Some('れ') => push_passive_roots(roots, word, len - 1, &past),
        Some('て') => push_te_ending_roots(
            roots,
            word,
            len - 1,
            &before(Step::ContRuAbbrev, &past),
        ),
        Some('で') => push_de_ending_roots(
            roots,
            word,
            len - 1,
            &before(Step::ContRuAbbrev, &past),
        ),
        _ => {},
    }
}

/// Appends the roots that [`grammar::i_ending_roots`] finds in the first `len`
/// characters of `word`.
fn push_i_ending_roots(roots: &mut Vec<Root>, word: &Word, len: usize, steps: &Vec<Step>)
    requires
        len <= word@.len(),
    ensures
        views(final(roots)@) == views(old(roots)@) + grammar::i_ending_roots(
            word@.take(len as int),
            steps@,
        ),
{
    push_root(roots, word, len, RootKind::GodanU, &before(Step::Stem, steps));
    match last_char(word, len) {
        Some('な') => push_negative_roots(roots, word, len - 1, &before(Step::Nai, steps)),
        Some('さ') => {
            let rest = len - 1;
            if ends_in(word, rest, 'な') {
                push_masu_stem_roots(roots, word, rest - 1, &before(Step::Nasai, steps));
            }
        },
        Some('こ') => push_root(
            roots,
            word,
            len - 1,
            RootKind::Kuru,
            &before(Step::Imperative, steps),
        ),
        Some('た') => push_masu_stem_roots(roots, word, len - 1, &before(Step::Tai, steps)),
        _ => {},
    }
}

/// Appends the roots that [`grammar::u_ending_roots`] finds in the first `len`
/// characters of `word`.
fn push_u_ending_roots(roots: &mut Vec<Root>, word: &Word, len: usize, steps: &Vec<Step>)
    requires
        len <= word@.len(),
    ensures
        views(final(roots)@) == views(old(roots)@) + grammar::u_ending_roots(
            word@.take(len as int),
            steps@,
        ),
{
    match last_char(word, len) {
        Some('ょ') => {
            let rest = len - 1;
            if ends_with_two(word, rest, 'ま', 'し') {
                push_masu_stem_roots(roots, word, rest - 2, &before(Step::Invitational, steps));
            }
        },
        Some('ゃ') => push_small_ya_roots(roots, word, len - 1, steps),
        Some(last) => push_roots(
            roots,
            word,
            len - 1,
            &volitional_kinds(last),
            &before(Step::Volitional, steps),
        ),
        None => {},
    }
}

/// Appends the roots that [`grammar::ra_ending_roots`] finds in the first `len`
/// characters of `word`.
fn push_ra_ending_roots(roots: &mut Vec<Root>, word: &Word, len: usize, steps: &Vec<Step>)
    requires
        len <= word@.len(),
    ensures
        views(final(roots)@) == views(old(roots)@) + grammar::ra_ending_roots(
            word@.take(len as int),
            steps@,
        ),
{
    match last_char(word, len) {
        Some('が') => {
            let rest = len - 1;
            if ends_in(word, rest, 'な') {
                push_masu_stem_roots(roots, word, rest - 1, &before(Step::Nagara, steps));
            }
        },
        Some('た') => push_ta_stem_roots(roots, word, len - 1, &before(Step::Tara, steps)),
        Some('だ') => push_da_stem_roots(roots, word, len - 1, &before(Step::Tara, steps)),
        _ => {},
    }
}

/// Appends the roots that [`grammar::ri_ending_roots`] finds in the first `len`
/// characters of `word`.
fn push_ri_ending_roots(roots: &mut Vec<Root>, word: &Word, len: usize, steps: &Vec<Step>)
    requires
        len <= word@.len(),
    ensures
        views(final(roots)@) == views(old(roots)@) + grammar::ri_ending_roots(
            word@.take(len as int),
            steps@,
        ),
{
    push_root(roots, word, len, RootKind::GodanRu, &before(Step::Stem, steps));
    if ends_in(word, len, 'た') {
        push_ta_stem_roots(roots, word, len - 1, &before(Step::Tari, steps));
    } else if ends_in(word, len, 'だ') {
        push_da_stem_roots(roots, word, len - 1, &before(Step::Tari, steps));
    }
}

/// Appends the roots that [`grammar::plain_roots`] finds in the first `len`
/// characters of `word`.
fn push_plain_roots(roots: &mut Vec<Root>, word: &Word, len: usize, steps: &Vec<Step>)
    requires
        len <= word@.len(),
    ensures
        views(final(roots)@) == views(old(roots)@) + grammar::plain_roots(
            word@.take(len as int),
            steps@,
        ),
{
    push_root(roots, word, len, RootKind::IAdjective, steps);
    push_root(roots, word, len, RootKind::Ichidan, &before(Step::Stem, steps));
}

/// Appends the roots that [`grammar::kereba_roots`] finds in the first `len`
/// characters of `word`.
fn push_kereba_roots(roots: &mut Vec<Root>, word: &Word, len: usize, steps: &Vec<Step>)
    requires
        len <= word@.len(),
    ensures
        views(final(roots)@) == views(old(roots)@) + grammar::kereba_roots(
            word@.take(len as int),
            steps@,
        ),
{
    if ends_with_three(word, len, 'け', 'れ', 'ば') {
        push_i_adjective_roots(roots, word, len - 3, &before(Step::Kereba, steps));
    }
}

/// Appends the roots that [`grammar::short_ending_roots`] finds in the first `len`
/// characters of `word`.
fn push_short_ending_roots(roots: &mut Vec<Root>, word: &Word, len: usize, steps: &Vec<Step>)
    requires
        len <= word@.len(),
    ensures
        views(final(roots)@) == views(old(roots)@) + grammar::short_ending_roots(
            word@.take(len as int),
            steps@,
        ),
    decreases len, 0nat,
{
    if ends_with_two(word, len, 'て', 'く') {
        push_te_stem_roots(roots, word, len - 2, &before(Step::Teku, steps));
    }
    match last_char(word, len) {
        Some(last) => push_ending_roots(roots, word, len - 1, last, steps),
        None => {},
    }
}

/// Appends the roots that [`grammar::expression_roots`] finds in the first `len`
/// characters of `word`.
fn push_expression_roots(roots: &mut Vec<Root>, word: &Word, len: usize, steps: &Vec<Step>)
    requires
        len <= word@.len(),
    ensures
        views(final(roots)@) == views(old(roots)@) + grammar::expression_roots(
            word@.take(len as int),
            steps@,
        ),
    decreases len, 1nat,
{
    push_plain_roots(roots, word, len, steps);
    push_kereba_roots(roots, word, len, steps);
    if ends_with_three(word, len, 'な', 'き', 'ゃ') {
        push_negative_roots(roots, word, len - 3, &before(Step::Nakya, steps));
    } else if ends_with_two(word, len, 'ま', 'す') {
        push_masu_stem_roots(roots, word, len - 2, &before(Step::Masu, steps));
    } else if ends_with_three(word, len, 'ま', 'せ', 'ん') {
        push_masu_stem_roots(roots, word, len - 3, &before(Step::Masen, steps));
    } else {
        push_short_ending_roots(roots, word, len, steps);
    }
}

/// Appends the roots that [`grammar::da_ending_roots`] finds in the first `len`
/// characters of `word`.
fn push_da_ending_roots(roots: &mut Vec<Root>, word: &Word, len: usize, steps: &Vec<Step>)
    requires
        len <= word@.len(),
    ensures
        views(final(roots)@) == views(old(roots)@) + grammar::da_ending_roots(
            word@.take(len as int),
            steps@,
        ),
    decreases len, 0nat,
{
    push_da_stem_roots(roots, word, len, &before(Step::Ta, steps));
    if ends_in(word, len, 'ん') {
        push_expression_roots(roots, word, len - 1, &before(Step::Nda, steps));
    }
}

/// Appends the roots that [`grammar::ending_roots`] finds in the first `len`
/// characters of `word`.
fn push_ending_roots(
    roots: &mut Vec<Root>,
    word: &Word,
    len: usize,
    last: char,
    steps: &Vec<Step>,
)
    requires
        len <= word@.len(),
    ensures
        views(final(roots)@) == views(old(roots)@) + grammar::ending_roots(
            word@.take(len as int),
            last,
            steps@,
        ),
    decreases len, 2nat,
{
    let ghost chars = word@.take(len as int);
    let ghost found = views(roots@);
    match last {
        'て' => push_te_ending_roots(roots, word, len, steps),
        'で' => push_de_ending_roots(roots, word, len, steps),
        'た' => push_ta_ending_roots(roots, word, len, steps),
        'だ' => push_da_ending_roots(roots, word, len, steps),
        'い' => push_i_ending_roots(roots, word, len, steps),
        'う' => push_u_ending_roots(roots, word, len, steps),
        'ら' => push_ra_ending_roots(roots, word, len, steps),
        'り' => push_ri_ending_roots(roots, word, len, steps),
        'る' => push_ichidan_roots(roots, word, len, steps, false),
        'か' => push_expression_roots(roots, word, len, &before(Step::Ka, steps)),
        'く' => push_i_adjective_roots(roots, word, len, &before(Step::AdverbialKu, steps)),
        'ず' => push_negative_roots(roots, word, len, &before(Step::Zu, steps)),
        'ぬ' => push_negative_roots(roots, word, len, &before(Step::Nu, steps)),
        'ば' => push_e_stem_roots(roots, word, len, &before(Step::Ba, steps), true),
        'さ' => push_root(roots, word, len, RootKind::IAdjective, &before(Step::Sa, steps)),
        'な' => push_root(roots, word, len, RootKind::NaAdjective, &before(Step::Na, steps)),
        'し' => push_root(roots, word, len, RootKind::GodanSu, &before(Step::Stem, steps)),
        'み' => push_root(roots, word, len, RootKind::GodanMu, &before(Step::Stem, steps)),
        'き' => {
            push_root(roots, word, len, RootKind::GodanKu, &before(Step::Stem, steps));
            push_root(roots, word, len, RootKind::IAdjective, &before(Step::Ki, steps));
        },
        'せ' => {
            push_root(roots, word, len, RootKind::GodanSu, &before(Step::Imperative, steps));
            push_causative_roots(roots, word, len, &before(Step::Stem, steps));
        },
        'え' => push_root(roots, word, len, RootKind::GodanU, &before(Step::Imperative, steps)),
        'ろ' => push_root(
            roots,
            word,
            len,
            RootKind::Ichidan,
            &before(Step::Imperative, steps),
        ),
        'げ' => push_root(roots, word, len, RootKind::GodanGu, &before(Step::Imperative, steps)),
        'べ' => push_root(roots, word, len, RootKind::GodanBu, &before(Step::Imperative, steps)),
        'め' => push_root(roots, word, len, RootKind::GodanMu, &before(Step::Imperative, steps)),
        'れ' => push_root(roots, word, len, RootKind::GodanRu, &before(Step::Imperative, steps)),
        'ね' => push_root(roots, word, len, RootKind::GodanNu, &before(Step::Imperative, steps)),
        'け' => {
            push_root(roots, word, len, RootKind::GodanKu, &before(Step::Imperative, steps));
            push_root(roots, word, len, RootKind::Iku, &before(Step::Imperative, steps));
        },
        _ => {},
    }
    proof {
        assert(views(roots@) =~= found + grammar::ending_roots(chars, last, steps@));
    }
}

/// Every root that `word` may be a conjugation of.
///
/// The roots are candidates and no more: whether one is a word is for a
/// dictionary to say. They come in the order in which the grammar finds
/// them, which says nothing of how likely each is. The word itself comes
/// first, as an adjective and as a verb stem. The text of every other root
/// is the word with an ending taken off.
pub fn deconjugate(word: &str) -> (roots: Vec<Root>)
    ensures
        views(roots@) == grammar::roots_of(word@),
        roots.len() >= 2,
        roots[0]@ == grammar::candidate(word@, RootKind::IAdjective, Seq::empty()),
        roots[1]@ == grammar::candidate(
            word@,
            RootKind::Ichidan,
            grammar::before(Step::Stem, Seq::empty()),
        ),
        forall|i: int| 0 <= i < roots.len() ==> (#[trigger] roots[i]).text@.is_prefix_of(word@),
        forall|i: int| 2 <= i < roots.len() ==> (#[trigger] roots[i]).text@.len() < word@.len(),
{
    let mut roots = Vec::new();
    let laid_out = Word::new(word);
    let len = laid_out.len();
    push_expression_roots(&mut roots, &laid_out, len, &Vec::new());
    proof {
        assert(word@.take(len as int) =~= word@);
        assert(views(roots@) =~= grammar::roots_of(word@));
        assert(views(roots@)[0] == roots[0]@);
        assert(views(roots@)[1] == roots[1]@);
        assert forall|i: int| 0 <= i < roots.len() implies (#[trigger] roots[i]).text@.is_prefix_of(
            word@,
        ) by {
            lemma_root_text_begins_word(word@, i);
            assert(views(roots@)[i] == roots[i]@);
        }
        assert forall|i: int| 2 <= i < roots.len() implies (#[trigger] roots[i]).text@.len()
            < word@.len() by {
            lemma_later_roots_are_shorter(word@, i);
            assert(views(roots@)[i] == roots[i]@);
        }
    }
    roots
}

} // verus!
