//! From a root and its steps back to the conjugated ending.
//!
//! The ending is put together step by step. Each step is rendered for the
//! kind it is applied to: the root's own kind for the first step, and for
//! every later step the kind that the step before it leaves behind.

use crate::root::{Root, RootKind, RootView, Step};
use vstd::prelude::*;

verus! {

/// Why a chain of steps has no ending.
#[derive(Debug, PartialEq, Eq, Clone, Copy, Structural)]
pub enum RenderError {
    /// The rules hold no form of `step` for something that conjugates as
    /// `kind`.
    Unsupported { kind: RootKind, step: Step },
    /// `step` follows a step that leaves nothing behind to conjugate, and it
    /// is not one of the few steps that can stand there anyway.
    Unrooted { step: Step },
}

/// `stem` followed by `tail`, where there is a stem.
pub open spec fn followed_by(stem: Option<Seq<char>>, tail: Seq<char>) -> Option<Seq<char>> {
    match stem {
        Some(s) => Some(s + tail),
        None => None,
    }
}

/// `first` followed by `second`, where there are both.
pub open spec fn joined(first: Option<Seq<char>>, second: Option<Seq<char>>) -> Option<
    Seq<char>,
> {
    match (first, second) {
        (Some(a), Some(b)) => Some(a + b),
        _ => None,
    }
}

/// `ending` where the form closes the word, nothing where another step goes
/// on from it.
pub open spec fn closed_with(closing: bool, ending: Seq<char>) -> Seq<char> {
    if closing {
        ending
    } else {
        Seq::empty()
    }
}

impl RootKind {
    /// The stem that negatives, passives and causatives attach to.
    pub open spec fn negative_stem(self) -> Option<Seq<char>> {
        match self {
            RootKind::Ichidan => Some(""@),
            RootKind::GodanBu => Some("ば"@),
            RootKind::GodanMu => Some("ま"@),
            RootKind::GodanNu => Some("な"@),
            RootKind::GodanRu => Some("ら"@),
            RootKind::GodanSu => Some("さ"@),
            RootKind::GodanTsu => Some("た"@),
            RootKind::GodanU => Some("わ"@),
            RootKind::GodanGu => Some("が"@),
            RootKind::GodanKu => Some("か"@),
            RootKind::Iku => Some("か"@),
            RootKind::Kuru => Some("こ"@),
            RootKind::Suru | RootKind::SpecialSuru => Some("し"@),
            RootKind::IAdjective | RootKind::NaAdjective => None,
        }
    }

    /// The stem that ます attaches to, which is also the verb stem on its
    /// own.
    pub open spec fn masu_stem(self) -> Seq<char> {
        match self {
            RootKind::GodanBu => "び"@,
            RootKind::GodanMu => "み"@,
            RootKind::GodanNu => "に"@,
            RootKind::GodanRu => "り"@,
            RootKind::GodanSu => "し"@,
            RootKind::GodanTsu => "ち"@,
            RootKind::GodanU => "い"@,
            RootKind::GodanGu => "ぎ"@,
            RootKind::GodanKu => "き"@,
            RootKind::Iku => "き"@,
            RootKind::Kuru => "き"@,
            _ => ""@,
        }
    }

    /// The sound change in front of て or で.
    pub open spec fn te_stem(self) -> Option<Seq<char>> {
        match self {
            RootKind::Ichidan | RootKind::Kuru | RootKind::IAdjective => Some(""@),
            RootKind::GodanBu | RootKind::GodanMu | RootKind::GodanNu => Some("ん"@),
            RootKind::GodanRu | RootKind::GodanTsu | RootKind::GodanU | RootKind::Iku => Some(
                "っ"@,
            ),
            RootKind::GodanSu | RootKind::Suru | RootKind::SpecialSuru => Some("し"@),
            RootKind::GodanGu | RootKind::GodanKu => Some("い"@),
            RootKind::NaAdjective => None,
        }
    }

    /// Whether the て form ends in て or in で.
    pub open spec fn te_particle(self) -> Option<Seq<char>> {
        match self {
            RootKind::GodanGu | RootKind::GodanNu | RootKind::GodanMu | RootKind::GodanBu => Some(
                "で"@,
            ),
            RootKind::NaAdjective => None,
            _ => Some("て"@),
        }
    }

    /// The contracted しまう after the て stem, without its final う.
    pub open spec fn chau_stem(self) -> Seq<char> {
        match self {
            RootKind::GodanGu | RootKind::GodanBu | RootKind::GodanMu | RootKind::GodanNu => "じゃ"@,
            RootKind::IAdjective | RootKind::NaAdjective => ""@,
            _ => "ちゃ"@,
        }
    }

    /// The stem of the potential, or with `conditional` the stem that ば
    /// attaches to. The two differ for ichidan verbs only.
    pub open spec fn e_stem(self, conditional: bool) -> Option<Seq<char>> {
        match self {
            RootKind::Ichidan => Some(
                if conditional {
                    "れ"@
                } else {
                    "られ"@
                },
            ),
            RootKind::GodanBu => Some("べ"@),
            RootKind::GodanMu => Some("め"@),
            RootKind::GodanNu => Some("ね"@),
            RootKind::GodanRu => Some("れ"@),
            RootKind::GodanSu => Some("せ"@),
            RootKind::GodanTsu => Some("て"@),
            RootKind::GodanU => Some("え"@),
            RootKind::GodanGu => Some("げ"@),
            RootKind::GodanKu | RootKind::Iku => Some("け"@),
            RootKind::Kuru => Some("こられ"@),
            RootKind::IAdjective | RootKind::NaAdjective | RootKind::Suru | RootKind::SpecialSuru =>
                None,
        }
    }

    /// The casual past, sound change included.
    pub open spec fn ta_form(self) -> Option<Seq<char>> {
        match self {
            RootKind::Ichidan | RootKind::Kuru => Some("た"@),
            RootKind::GodanBu | RootKind::GodanMu | RootKind::GodanNu => Some("んだ"@),
            RootKind::GodanRu | RootKind::GodanTsu | RootKind::GodanU | RootKind::Iku => Some(
                "った"@,
            ),
            RootKind::GodanSu | RootKind::Suru | RootKind::SpecialSuru => Some("した"@),
            RootKind::GodanGu => Some("いだ"@),
            RootKind::GodanKu => Some("いた"@),
            RootKind::IAdjective | RootKind::NaAdjective => None,
        }
    }

    /// The volitional.
    pub open spec fn volitional_form(self) -> Option<Seq<char>> {
        match self {
            RootKind::Ichidan => Some("よう"@),
            RootKind::Kuru => Some("こよう"@),
            RootKind::GodanBu => Some("ぼう"@),
            RootKind::GodanMu => Some("もう"@),
            RootKind::GodanNu => Some("のう"@),
            RootKind::GodanRu => Some("ろう"@),
            RootKind::GodanSu => Some("そう"@),
            RootKind::GodanTsu => Some("とう"@),
            RootKind::GodanU => Some("おう"@),
            RootKind::GodanGu => Some("ごう"@),
            RootKind::GodanKu | RootKind::Iku => Some("こう"@),
            RootKind::Suru | RootKind::SpecialSuru => Some("しよう"@),
            RootKind::IAdjective | RootKind::NaAdjective => None,
        }
    }

    /// The imperative.
    pub open spec fn imperative_form(self) -> Option<Seq<char>> {
        match self {
            RootKind::Ichidan => Some("ろ"@),
            RootKind::GodanBu => Some("べ"@),
            RootKind::GodanMu => Some("め"@),
            RootKind::GodanNu => Some("ね"@),
            RootKind::GodanRu => Some("れ"@),
            RootKind::GodanSu => Some("せ"@),
            RootKind::GodanTsu => Some("て"@),
            RootKind::GodanU => Some("え"@),
            RootKind::GodanGu => Some("げ"@),
            RootKind::GodanKu | RootKind::Iku => Some("け"@),
            RootKind::Kuru => Some("い"@),
            RootKind::Suru | RootKind::SpecialSuru => Some("しろ"@),
            RootKind::IAdjective | RootKind::NaAdjective => None,
        }
    }

    /// The causative without its final る.
    pub open spec fn causative_stem(self) -> Option<Seq<char>> {
        match self {
            RootKind::Ichidan | RootKind::Suru | RootKind::SpecialSuru => Some("させ"@),
            _ => followed_by(self.negative_stem(), "せ"@),
        }
    }

    /// The passive without its final る.
    pub open spec fn passive_stem(self) -> Option<Seq<char>> {
        match self {
            RootKind::Ichidan => Some("られ"@),
            RootKind::Kuru => Some("こられ"@),
            _ => followed_by(self.negative_stem(), "れ"@),
        }
    }

    /// Whether the causative of this kind contracts with a passive that
    /// follows it, to される in place of せられる. The godan kinds do, and
    /// 行く with them, but for the verbs in す: their negative stem ends in さ
    /// already, and they keep させられる, as do the kinds whose causative is
    /// させ. 来る keeps こせられる.
    pub open spec fn contracts_causative(self) -> bool {
        match self {
            RootKind::GodanBu
            | RootKind::GodanMu
            | RootKind::GodanNu
            | RootKind::GodanRu
            | RootKind::GodanTsu
            | RootKind::GodanU
            | RootKind::GodanGu
            | RootKind::GodanKu
            | RootKind::Iku => true,
            _ => false,
        }
    }
}

/// Whether a step closes the word when `next` is the step after it: either
/// none follows, or the question particle does.
pub open spec fn closes(next: Option<Step>) -> bool {
    next is None || next == Some(Step::Ka)
}

/// The first of `steps`, if there is one.
pub open spec fn first_of(steps: Seq<Step>) -> Option<Step> {
    if steps.len() == 0 {
        None
    } else {
        Some(steps[0])
    }
}

impl Step {
    /// Whether this step, applied to `kind` and with `next` after it, is a
    /// causative that contracts with its passive.
    pub open spec fn contracts(self, kind: RootKind, next: Option<Step>) -> bool {
        self == Step::Causative && next == Some(Step::Passive) && kind.contracts_causative()
    }

    /// What this step adds to something that conjugates as `kind`, if the
    /// rules hold a form for the pair. `next` is the step after this one.
    ///
    /// Some steps end differently when the word goes on. Where this step
    /// closes the word (it is the last one, or only a question particle
    /// follows it) the full ending is given, and else the part that a
    /// further step attaches to. A causative that contracts with its passive
    /// gives the negative stem alone.
    pub open spec fn form_for(self, kind: RootKind, next: Option<Step>) -> Option<Seq<char>> {
        let closing = closes(next);
        match self {
            Step::Te => joined(kind.te_stem(), kind.te_particle()),
            Step::Teku => followed_by(joined(kind.te_stem(), kind.te_particle()), "く"@),
            Step::TeOku | Step::Toku => None,
            Step::Ta => kind.ta_form(),
            Step::Tari => followed_by(kind.ta_form(), "り"@),
            Step::Tara => followed_by(kind.ta_form(), "ら"@),
            Step::Nai => followed_by(kind.negative_stem(), "な"@ + closed_with(closing, "い"@)),
            Step::Nu => followed_by(kind.negative_stem(), "ぬ"@),
            Step::Zu => followed_by(kind.negative_stem(), "ず"@),
            Step::Naide => followed_by(kind.negative_stem(), "ないで"@),
            Step::Nakatta => followed_by(kind.negative_stem(), "なかった"@),
            Step::Nakya => followed_by(kind.negative_stem(), "なきゃ"@),
            Step::Causative => if self.contracts(kind, next) {
                kind.negative_stem()
            } else {
                followed_by(kind.causative_stem(), closed_with(closing, "る"@))
            },
            Step::Passive => followed_by(kind.passive_stem(), closed_with(closing, "る"@)),
            Step::Potential => followed_by(kind.e_stem(false), closed_with(closing, "る"@)),
            Step::Ba => followed_by(kind.e_stem(true), "ば"@),
            Step::Volitional => kind.volitional_form(),
            Step::Imperative => kind.imperative_form(),
            Step::Stem => Some(kind.masu_stem()),
            Step::Masu => Some(kind.masu_stem() + "ま"@ + closed_with(closing, "す"@)),
            Step::Masen => Some(kind.masu_stem() + "ま"@ + closed_with(closing, "せん"@)),
            Step::Invitational => Some(kind.masu_stem() + "ましょう"@),
            Step::Nasai => Some(kind.masu_stem() + "なさい"@),
            Step::Nagara => Some(kind.masu_stem() + "ながら"@),
            Step::Tai => Some(kind.masu_stem() + "た"@ + closed_with(closing, "い"@)),
            Step::Chau => followed_by(
                kind.te_stem(),
                kind.chau_stem() + closed_with(closing, "う"@),
            ),
            Step::Continuous => Some("い"@ + closed_with(closing, "る"@)),
            Step::ContRuAbbrev => Some(closed_with(closing, "る"@)),
            Step::AdverbialKu => Some("く"@),
            Step::Ka => Some("か"@),
            Step::Na => Some("な"@),
            Step::Katta => Some("かった"@),
            Step::Ki => Some("き"@),
            Step::Nda => Some("んだ"@),
            Step::Kereba => Some("ければ"@),
            Step::Sa => Some("さ"@),
        }
    }

    /// What this step adds where the step before it left nothing behind to
    /// conjugate. Only three steps can stand there, each with one fixed form.
    pub open spec fn unrooted_form(self) -> Option<Seq<char>> {
        match self {
            Step::Ka => Some("か"@),
            Step::Nda => Some("んだ"@),
            Step::Nai => Some("ない"@),
            _ => None,
        }
    }

    /// What this step adds at its place in a chain, or why it adds nothing.
    /// `acting` is the kind it is applied to, if there is one, and `next` the
    /// step after it.
    pub open spec fn rendering(self, acting: Option<RootKind>, next: Option<Step>) -> Result<
        Seq<char>,
        RenderError,
    > {
        match acting {
            Some(kind) => match self.form_for(kind, next) {
                Some(form) => Ok(form),
                None => Err(RenderError::Unsupported { kind, step: self }),
            },
            None => match self.unrooted_form() {
                Some(form) => Ok(form),
                None => Err(RenderError::Unrooted { step: self }),
            },
        }
    }

    /// The kind that the next step is applied to: the kind that this step
    /// leaves behind, if it leaves one. A causative that contracts with its
    /// passive leaves a godan す verb, which is where される comes from.
    pub open spec fn acting_after(self, acting: Option<RootKind>, next: Option<Step>) -> Option<
        RootKind,
    > {
        match acting {
            Some(kind) => if self.contracts(kind, next) {
                Some(RootKind::GodanSu)
            } else {
                self.derived_kind()
            },
            None => self.derived_kind(),
        }
    }
}

/// `text` in front of what `rest` holds, or the error that `rest` holds.
pub open spec fn prefixed(text: Seq<char>, rest: Result<Seq<char>, RenderError>) -> Result<
    Seq<char>,
    RenderError,
> {
    match rest {
        Ok(tail) => Ok(text + tail),
        Err(e) => Err(e),
    }
}

/// The ending that `steps` add one after the other, the first of them
/// applied to `acting`. The first step without a form decides the error.
pub open spec fn chain_suffix(acting: Option<RootKind>, steps: Seq<Step>) -> Result<
    Seq<char>,
    RenderError,
>
    decreases steps.len(),
{
    if steps.len() == 0 {
        Ok(Seq::empty())
    } else {
        let step = steps.first();
        let rest = steps.drop_first();
        let next = first_of(rest);
        match step.rendering(acting, next) {
            Ok(form) => prefixed(form, chain_suffix(step.acting_after(acting, next), rest)),
            Err(e) => Err(e),
        }
    }
}

impl RootView {
    /// The ending that conjugates the root through all its steps. A root
    /// without steps gets its verb stem.
    pub open spec fn conjugation_suffix(self) -> Result<Seq<char>, RenderError> {
        if self.steps.len() == 0 {
            Ok(self.kind.masu_stem())
        } else {
            chain_suffix(Some(self.kind), self.steps)
        }
    }

    /// The word that the root conjugates to: its text with the ending that
    /// its steps give it.
    pub open spec fn conjugated(self) -> Result<Seq<char>, RenderError> {
        prefixed(self.text, self.conjugation_suffix())
    }
}

/// The characters of the text in an `Option`.
pub open spec fn text_of(s: Option<&'static str>) -> Option<Seq<char>> {
    match s {
        Some(t) => Some(t@),
        None => None,
    }
}

/// The characters of the text in a `Result`.
pub open spec fn rendered(r: Result<String, RenderError>) -> Result<Seq<char>, RenderError> {
    match r {
        Ok(t) => Ok(t@),
        Err(e) => Err(e),
    }
}

/// [`RootKind::negative_stem`] as text.
fn negative_stem(kind: RootKind) -> (stem: Option<&'static str>)
    ensures
        text_of(stem) == kind.negative_stem(),
{
    match kind {
        RootKind::Ichidan => Some(""),
        RootKind::GodanBu => Some("ば"),
        RootKind::GodanMu => Some("ま"),
        RootKind::GodanNu => Some("な"),
        RootKind::GodanRu => Some("ら"),
        RootKind::GodanSu => Some("さ"),
        RootKind::GodanTsu => Some("た"),
        RootKind::GodanU => Some("わ"),
        RootKind::GodanGu => Some("が"),
        RootKind::GodanKu => Some("か"),
        RootKind::Iku => Some("か"),
        RootKind::Kuru => Some("こ"),
        RootKind::Suru | RootKind::SpecialSuru => Some("し"),
        RootKind::IAdjective | RootKind::NaAdjective => None,
    }
}

/// [`RootKind::masu_stem`] as text.
fn masu_stem(kind: RootKind) -> (stem: &'static str)
    ensures
        stem@ == kind.masu_stem(),
{
    match kind {
        RootKind::GodanBu => "び",
        RootKind::GodanMu => "み",
        RootKind::GodanNu => "に",
        RootKind::GodanRu => "り",
        RootKind::GodanSu => "し",
        RootKind::GodanTsu => "ち",
        RootKind::GodanU => "い",
        RootKind::GodanGu => "ぎ",
        RootKind::GodanKu => "き",
        RootKind::Iku => "き",
        RootKind::Kuru => "き",
        _ => "",
    }
}

/// [`RootKind::te_stem`] as text.
fn te_stem(kind: RootKind) -> (stem: Option<&'static str>)
    ensures
        text_of(stem) == kind.te_stem(),
{
    match kind {
        RootKind::Ichidan | RootKind::Kuru | RootKind::IAdjective => Some(""),
        RootKind::GodanBu | RootKind::GodanMu | RootKind::GodanNu => Some("ん"),
        RootKind::GodanRu | RootKind::GodanTsu | RootKind::GodanU | RootKind::Iku => Some("っ"),
        RootKind::GodanSu | RootKind::Suru | RootKind::SpecialSuru => Some("し"),
        RootKind::GodanGu | RootKind::GodanKu => Some("い"),
        RootKind::NaAdjective => None,
    }
}

/// [`RootKind::te_particle`] as text.
fn te_particle(kind: RootKind) -> (particle: Option<&'static str>)
    ensures
        text_of(particle) == kind.te_particle(),
{
    match kind {
        RootKind::GodanGu | RootKind::GodanNu | RootKind::GodanMu | RootKind::GodanBu => Some("で"),
        RootKind::NaAdjective => None,
        _ => Some("て"),
    }
}

/// [`RootKind::chau_stem`] as text.
fn chau_stem(kind: RootKind) -> (stem: &'static str)
    ensures
        stem@ == kind.chau_stem(),
{
    match kind {
        RootKind::GodanGu | RootKind::GodanBu | RootKind::GodanMu | RootKind::GodanNu => "じゃ",
        RootKind::IAdjective | RootKind::NaAdjective => "",
        _ => "ちゃ",
    }
}

/// [`RootKind::e_stem`] as text.
fn e_stem(kind: RootKind, conditional: bool) -> (stem: Option<&'static str>)
    ensures
        text_of(stem) == kind.e_stem(conditional),
{
    match kind {
        RootKind::Ichidan => Some(
            if conditional {
                "れ"
            } else {
                "られ"
            },
        ),
        RootKind::GodanBu => Some("べ"),
        RootKind::GodanMu => Some("め"),
        RootKind::GodanNu => Some("ね"),
        RootKind::GodanRu => Some("れ"),
        RootKind::GodanSu => Some("せ"),
        RootKind::GodanTsu => Some("て"),
        RootKind::GodanU => Some("え"),
        RootKind::GodanGu => Some("げ"),
        RootKind::GodanKu | RootKind::Iku => Some("け"),
        RootKind::Kuru => Some("こられ"),
        RootKind::IAdjective | RootKind::NaAdjective | RootKind::Suru | RootKind::SpecialSuru =>
            None,
    }
}

/// [`RootKind::ta_form`] as text.
fn ta_form(kind: RootKind) -> (form: Option<&'static str>)
    ensures
        text_of(form) == kind.ta_form(),
{
    match kind {
        RootKind::Ichidan | RootKind::Kuru => Some("た"),
        RootKind::GodanBu | RootKind::GodanMu | RootKind::GodanNu => Some("んだ"),
        RootKind::GodanRu | RootKind::GodanTsu | RootKind::GodanU | RootKind::Iku => Some("った"),
        RootKind::GodanSu | RootKind::Suru | RootKind::SpecialSuru => Some("した"),
        RootKind::GodanGu => Some("いだ"),
        RootKind::GodanKu => Some("いた"),
        RootKind::IAdjective | RootKind::NaAdjective => None,
    }
}

/// [`RootKind::volitional_form`] as text.
fn volitional_form(kind: RootKind) -> (form: Option<&'static str>)
    ensures
        text_of(form) == kind.volitional_form(),
{
    match kind {
        RootKind::Ichidan => Some("よう"),
        RootKind::Kuru => Some("こよう"),
        RootKind::GodanBu => Some("ぼう"),
        RootKind::GodanMu => Some("もう"),
        RootKind::GodanNu => Some("のう"),
        RootKind::GodanRu => Some("ろう"),
        RootKind::GodanSu => Some("そう"),
        RootKind::GodanTsu => Some("とう"),
        RootKind::GodanU => Some("おう"),
        RootKind::GodanGu => Some("ごう"),
        RootKind::GodanKu | RootKind::Iku => Some("こう"),
        RootKind::Suru | RootKind::SpecialSuru => Some("しよう"),
        RootKind::IAdjective | RootKind::NaAdjective => None,
    }
}

/// [`RootKind::imperative_form`] as text.
fn imperative_form(kind: RootKind) -> (form: Option<&'static str>)
    ensures
        text_of(form) == kind.imperative_form(),
{
    match kind {
        RootKind::Ichidan => Some("ろ"),
        RootKind::GodanBu => Some("べ"),
        RootKind::GodanMu => Some("め"),
        RootKind::GodanNu => Some("ね"),
        RootKind::GodanRu => Some("れ"),
        RootKind::GodanSu => Some("せ"),
        RootKind::GodanTsu => Some("て"),
        RootKind::GodanU => Some("え"),
        RootKind::GodanGu => Some("げ"),
        RootKind::GodanKu | RootKind::Iku => Some("け"),
        RootKind::Kuru => Some("い"),
        RootKind::Suru | RootKind::SpecialSuru => Some("しろ"),
        RootKind::IAdjective | RootKind::NaAdjective => None,
    }
}

/// `stem`, `tail` and `ending` in a row, where there is a stem.
fn build(stem: Option<&'static str>, tail: &'static str, ending: &'static str) -> (form: Option<
    String,
>)
    ensures
        form is Some == stem is Some,
        form matches Some(f) ==> f@ == stem->0@ + tail@ + ending@,
{
    match stem {
        Some(s) => {
            let mut form = String::from_str(s);
            form.append(tail);
            form.append(ending);
            Some(form)
        },
        None => None,
    }
}

/// `ending` where the form closes the word, and the empty text where it
/// does not.
fn closed_with_text(closing: bool, ending: &'static str) -> (text: &'static str)
    ensures
        text@ == closed_with(closing, ending@),
{
    if closing {
        ending
    } else {
        proof {
            reveal_strlit("");
            assert(""@ =~= Seq::<char>::empty());
        }
        ""
    }
}

/// Whether a step closes the word when `next` is the step after it.
fn closes_word(next: Option<Step>) -> (closing: bool)
    ensures
        closing == closes(next),
{
    match next {
        None => true,
        Some(step) => step == Step::Ka,
    }
}

/// Whether `step`, applied to `kind` and with `next` after it, is a
/// causative that contracts with its passive.
fn contracts(step: Step, kind: RootKind, next: Option<Step>) -> (contracted: bool)
    ensures
        contracted == step.contracts(kind, next),
{
    let passive_next = match next {
        Some(step) => step == Step::Passive,
        None => false,
    };
    let short = match kind {
        RootKind::GodanBu
        | RootKind::GodanMu
        | RootKind::GodanNu
        | RootKind::GodanRu
        | RootKind::GodanTsu
        | RootKind::GodanU
        | RootKind::GodanGu
        | RootKind::GodanKu
        | RootKind::Iku => true,
        _ => false,
    };
    step == Step::Causative && passive_next && short
}

/// What `step` adds to something that conjugates as `kind`, if the rules
/// hold a form for the pair.
fn form_for(step: Step, kind: RootKind, next: Option<Step>) -> (form: Option<String>)
    ensures
        form is Some == step.form_for(kind, next) is Some,
        form matches Some(f) ==> f@ == step.form_for(kind, next)->0,
{
    proof {
        reveal_strlit("");
        assert(""@ =~= Seq::<char>::empty());
    }
    let closing = closes_word(next);
    let form = match step {
        Step::Te => match te_particle(kind) {
            Some(te) => build(te_stem(kind), te, ""),
            None => None,
        },
        Step::Teku => match te_particle(kind) {
            Some(te) => build(te_stem(kind), te, "く"),
            None => None,
        },
        Step::TeOku | Step::Toku => None,
        Step::Ta => build(ta_form(kind), "", ""),
        Step::Tari => build(ta_form(kind), "り", ""),
        Step::Tara => build(ta_form(kind), "ら", ""),
        Step::Nai => build(negative_stem(kind), "な", closed_with_text(closing, "い")),
        Step::Nu => build(negative_stem(kind), "ぬ", ""),
        Step::Zu => build(negative_stem(kind), "ず", ""),
        Step::Naide => build(negative_stem(kind), "ないで", ""),
        Step::Nakatta => build(negative_stem(kind), "なかった", ""),
        Step::Nakya => build(negative_stem(kind), "なきゃ", ""),
        Step::Causative => if contracts(step, kind, next) {
            build(negative_stem(kind), "", "")
        } else {
            match kind {
                RootKind::Ichidan | RootKind::Suru | RootKind::SpecialSuru => build(
                    Some("させ"),
                    "",
                    closed_with_text(closing, "る"),
                ),
                _ => build(negative_stem(kind), "せ", closed_with_text(closing, "る")),
            }
        },
        Step::Passive => match kind {
            RootKind::Ichidan => build(Some("られ"), "", closed_with_text(closing, "る")),
            RootKind::Kuru => build(Some("こられ"), "", closed_with_text(closing, "る")),
            _ => build(negative_stem(kind), "れ", closed_with_text(closing, "る")),
        },
        Step::Potential => build(e_stem(kind, false), "", closed_with_text(closing, "る")),
        Step::Ba => build(e_stem(kind, true), "ば", ""),
        Step::Volitional => build(volitional_form(kind), "", ""),
        Step::Imperative => build(imperative_form(kind), "", ""),
        Step::Stem => build(Some(masu_stem(kind)), "", ""),
        Step::Masu => build(Some(masu_stem(kind)), "ま", closed_with_text(closing, "す")),
        Step::Masen => build(Some(masu_stem(kind)), "ま", closed_with_text(closing, "せん")),
        Step::Invitational => build(Some(masu_stem(kind)), "ましょう", ""),
        Step::Nasai => build(Some(masu_stem(kind)), "なさい", ""),
        Step::Nagara => build(Some(masu_stem(kind)), "ながら", ""),
        Step::Tai => build(Some(masu_stem(kind)), "た", closed_with_text(closing, "い")),
        Step::Chau => build(te_stem(kind), chau_stem(kind), closed_with_text(closing, "う")),
        Step::Continuous => build(Some("い"), "", closed_with_text(closing, "る")),
        Step::ContRuAbbrev => build(Some(""), "", closed_with_text(closing, "る")),
        Step::AdverbialKu => build(Some("く"), "", ""),
        Step::Ka => build(Some("か"), "", ""),
        Step::Na => build(Some("な"), "", ""),
        Step::Katta => build(Some("かった"), "", ""),
        Step::Ki => build(Some("き"), "", ""),
        Step::Nda => build(Some("んだ"), "", ""),
        Step::Kereba => build(Some("ければ"), "", ""),
        Step::Sa => build(Some("さ"), "", ""),
    };
    proof {
        if form is Some {
            assert(form->0@ =~= step.form_for(kind, next)->0);
        }
    }
    form
}

/// What `step` adds where no kind is left to apply it to.
fn unrooted_form(step: Step) -> (form: Option<&'static str>)
    ensures
        text_of(form) == step.unrooted_form(),
{
    match step {
        Step::Ka => Some("か"),
        Step::Nda => Some("んだ"),
        Step::Nai => Some("ない"),
        _ => None,
    }
}

/// What `step` adds at its place in a chain, or why it adds nothing.
fn rendering(step: Step, acting: Option<RootKind>, next: Option<Step>) -> (form: Result<
    String,
    RenderError,
>)
    ensures
        rendered(form) == step.rendering(acting, next),
{
    match acting {
        Some(kind) => match form_for(step, kind, next) {
            Some(form) => Ok(form),
            None => Err(RenderError::Unsupported { kind, step }),
        },
        None => match unrooted_form(step) {
            Some(form) => Ok(String::from_str(form)),
            None => Err(RenderError::Unrooted { step }),
        },
    }
}

/// The kind that the step after `step` is applied to.
fn acting_after(step: Step, acting: Option<RootKind>, next: Option<Step>) -> (kind: Option<
    RootKind,
>)
    ensures
        kind == step.acting_after(acting, next),
{
    match acting {
        Some(kind) => if contracts(step, kind, next) {
            Some(RootKind::GodanSu)
        } else {
            step.root_kind()
        },
        None => step.root_kind(),
    }
}

impl Root {
    /// Returns the suffix that's needed to be appended in order to conjugate
    /// this root.
    ///
    /// The rules do not cover every kind with every step. Where a step has
    /// no form at its place in the chain, the first such step is reported
    /// and no text is returned.
    pub fn conjugation_suffix(&self) -> (suffix: Result<String, RenderError>)
        ensures
            rendered(suffix) == self@.conjugation_suffix(),
    {
        let count = self.steps.len();
        if count == 0 {
            return Ok(String::from_str(masu_stem(self.kind)));
        }
        let mut text = String::new();
        let mut acting = Some(self.kind);
        let mut i: usize = 0;
        proof {
            let whole = chain_suffix(acting, self.steps@);
            assert(self.steps@.skip(0) =~= self.steps@);
            if whole is Ok {
                assert(text@ + whole->Ok_0 =~= whole->Ok_0);
            }
        }
        while i < count
            invariant
                i <= count,
                count == self.steps@.len(),
                self@.conjugation_suffix() == prefixed(
                    text@,
                    chain_suffix(acting, self.steps@.skip(i as int)),
                ),
            decreases count - i,
        {
            let step = self.steps[i];
            let next = if i + 1 < count {
                Some(self.steps[i + 1])
            } else {
                None
            };
            proof {
                let here = self.steps@.skip(i as int);
                assert(here.first() == step);
                assert(here.drop_first() =~= self.steps@.skip(i + 1));
                assert(next == first_of(here.drop_first()));
            }
            match rendering(step, acting, next) {
                Ok(form) => {
                    proof {
                        let rest = chain_suffix(
                            step.acting_after(acting, next),
                            self.steps@.skip(i + 1),
                        );
                        if rest is Ok {
                            assert((text@ + form@) + rest->Ok_0 =~= text@ + (form@ + rest->Ok_0));
                        }
                    }
                    text.append(form.as_str());
                },
                Err(e) => {
                    return Err(e);
                },
            }
            acting = acting_after(step, acting, next);
            i += 1;
        }
        proof {
            assert(self.steps@.skip(count as int) =~= Seq::<Step>::empty());
            assert(text@ + Seq::<char>::empty() =~= text@);
        }
        Ok(text)
    }
}

} // verus!
