//! Roots, the kinds of root, and the conjugation steps.

use vstd::prelude::*;
use vstd::std_specs::cmp::PartialEqSpecImpl;

verus! {

/// How a root conjugates.
#[derive(Debug, PartialEq, Eq, Clone, Copy, Structural)]
pub enum RootKind {
    Ichidan,
    GodanBu,
    GodanMu,
    GodanNu,
    GodanRu,
    GodanSu,
    GodanTsu,
    GodanU,
    GodanGu,
    GodanKu,
    /// Irregular 行く
    Iku,
    /// Irregular 来る
    Kuru,
    /// Suru verb.
    ///
    /// Some dictionaries list these with the する suffix and some without it,
    /// so a lookup has to try both.
    Suru,
    /// Suru verb that conjugates its own way in places.
    ///
    /// The remark on [`RootKind::Suru`] about dictionaries holds here too.
    SpecialSuru,
    IAdjective,
    NaAdjective,
}

/// One layer of conjugation.
#[derive(Debug, PartialEq, Eq, Clone, Copy, Structural)]
pub enum Step {
    /// ~て form
    Te,
    /// Casual, present negative
    Nai,
    /// Archaic form of nai
    Nu,
    /// "Without doing"; a form of its own rather than nai followed by te
    Naide,
    /// Casual, past negative
    Nakatta,
    /// Casual past
    Ta,
    /// Volitional (よう)
    Volitional,
    /// Adverbial (く)
    AdverbialKu,
    /// Imperative (strong command)
    Imperative,
    /// Masu (polite)
    Masu,
    /// Masen (polite negative)
    Masen,
    /// ~ましょう
    Invitational,
    /// ~ている
    Continuous,
    /// ~てる, the ている abbreviation
    ContRuAbbrev,
    /// ~ず
    Zu,
    /// Question particle
    Ka,
    /// Such things as...
    Tari,
    /// If/when (conjecture)
    Tara,
    /// Please do ...
    Nasai,
    /// While/during
    Nagara,
    Causative,
    Passive,
    /// Want to ...
    Tai,
    /// Conditional
    Ba,
    Potential,
    /// てしまう / でしまう abbreviation
    Chau,
    /// na-adjective na
    Na,
    /// い adjective past
    Katta,
    /// The stem of a verb
    Stem,
    /// Archaic い form
    Ki,
    /// のだ abbreviation
    Nda,
    /// い adjective conditional
    Kereba,
    /// Nakereba short form
    Nakya,
    /// Adjective さ suffix
    Sa,
    /// て + いく abbreviation
    Teku,
    /// て + おく (do something in advance)
    TeOku,
    /// TeOku abbreviation
    Toku,
}

impl RootKind {
    /// What is appended to a root of this kind to get its dictionary form.
    pub open spec fn dict_suffix(self) -> Seq<char> {
        match self {
            RootKind::Ichidan => "る"@,
            RootKind::GodanBu => "ぶ"@,
            RootKind::GodanMu => "む"@,
            RootKind::GodanNu => "ぬ"@,
            RootKind::GodanRu => "る"@,
            RootKind::GodanSu => "す"@,
            RootKind::GodanTsu => "つ"@,
            RootKind::GodanU => "う"@,
            RootKind::GodanGu => "ぐ"@,
            RootKind::GodanKu => "く"@,
            RootKind::Iku => "く"@,
            RootKind::Kuru => "くる"@,
            RootKind::Suru | RootKind::SpecialSuru => "する"@,
            RootKind::IAdjective => "い"@,
            RootKind::NaAdjective => ""@,
        }
    }
}

impl Step {
    /// The kind that the result of this step conjugates as, where further
    /// steps can be applied to it as to a root.
    pub open spec fn derived_kind(self) -> Option<RootKind> {
        match self {
            Step::Te => Some(RootKind::Ichidan),
            Step::Nai => Some(RootKind::IAdjective),
            Step::Masu => Some(RootKind::GodanSu),
            Step::Continuous => Some(RootKind::Ichidan),
            Step::ContRuAbbrev => Some(RootKind::Ichidan),
            Step::Potential => Some(RootKind::Ichidan),
            Step::Chau => Some(RootKind::GodanU),
            Step::Causative => Some(RootKind::Ichidan),
            Step::Tai => Some(RootKind::IAdjective),
            Step::Teku | Step::TeOku | Step::Toku => Some(RootKind::GodanKu),
            _ => None,
        }
    }

    /// If this step is used as a root, what is its kind?
    pub fn root_kind(&self) -> (kind: Option<RootKind>)
        ensures
            kind == self.derived_kind(),
    {
        match self {
            Step::Te => Some(RootKind::Ichidan),
            Step::Nai => Some(RootKind::IAdjective),
            Step::Masu => Some(RootKind::GodanSu),
            Step::Continuous => Some(RootKind::Ichidan),
            Step::ContRuAbbrev => Some(RootKind::Ichidan),
            Step::Potential => Some(RootKind::Ichidan),
            Step::Chau => Some(RootKind::GodanU),
            Step::Causative => Some(RootKind::Ichidan),
            Step::Tai => Some(RootKind::IAdjective),
            Step::Teku | Step::TeOku | Step::Toku => Some(RootKind::GodanKu),
            _ => None,
        }
    }
}

/// A possible root word.
///
/// Whether it is an actual word is for a dictionary to say.
///
/// `steps[0]` is the step applied to the root itself, and each later step is
/// applied to the result of the one before it.
#[derive(Debug, Clone)]
pub struct Root {
    pub text: String,
    pub kind: RootKind,
    pub steps: Vec<Step>,
}

/// What a [`Root`] stands for: its text as characters, its kind, its steps.
pub struct RootView {
    pub text: Seq<char>,
    pub kind: RootKind,
    pub steps: Seq<Step>,
}

impl View for Root {
    type V = RootView;

    open spec fn view(&self) -> RootView {
        RootView { text: self.text@, kind: self.kind, steps: self.steps@ }
    }
}

impl PartialEq for Root {
    /// Two roots are equal where their texts, their kinds and their steps
    /// are.
    fn eq(&self, other: &Root) -> (equal: bool) {
        if !(self.text == other.text) || self.kind != other.kind || self.steps.len()
            != other.steps.len() {
            return false;
        }
        let mut i: usize = 0;
        while i < self.steps.len()
            invariant
                i <= self.steps.len(),
                self.steps.len() == other.steps.len(),
                self.steps@.take(i as int) == other.steps@.take(i as int),
            decreases self.steps.len() - i,
        {
            if self.steps[i] != other.steps[i] {
                return false;
            }
            proof {
                assert(self.steps@.take(i + 1) =~= self.steps@.take(i as int).push(
                    self.steps@[i as int],
                ));
                assert(other.steps@.take(i + 1) =~= other.steps@.take(i as int).push(
                    other.steps@[i as int],
                ));
            }
            i += 1;
        }
        proof {
            assert(self.steps@.take(self.steps.len() as int) =~= self.steps@);
            assert(other.steps@.take(other.steps.len() as int) =~= other.steps@);
        }
        true
    }
}

impl PartialEqSpecImpl for Root {
    open spec fn obeys_eq_spec() -> bool {
        true
    }

    open spec fn eq_spec(&self, other: &Root) -> bool {
        &&& self.text@ == other.text@
        &&& self.kind == other.kind
        &&& self.steps@ == other.steps@
    }
}

impl Eq for Root {

}

impl RootView {
    /// The dictionary form: the text followed by the kind's dictionary suffix.
    pub open spec fn dict_form(self) -> Seq<char> {
        self.text + self.kind.dict_suffix()
    }
}

impl Root {
    /// Dictionary suffix
    pub fn dict_suffix(&self) -> (suffix: &'static str)
        ensures
            suffix@ == self.kind.dict_suffix(),
    {
        match self.kind {
            RootKind::Ichidan => "る",
            RootKind::GodanBu => "ぶ",
            RootKind::GodanMu => "む",
            RootKind::GodanNu => "ぬ",
            RootKind::GodanRu => "る",
            RootKind::GodanSu => "す",
            RootKind::GodanTsu => "つ",
            RootKind::GodanU => "う",
            RootKind::GodanGu => "ぐ",
            RootKind::GodanKu => "く",
            RootKind::Iku => "く",
            RootKind::Kuru => "くる",
            RootKind::Suru | RootKind::SpecialSuru => "する",
            RootKind::IAdjective => "い",
            RootKind::NaAdjective => "",
        }
    }

    /// Get dictionary form (e.g.) しゃべ + ichidan ru = しゃべる
    pub fn dict_string(&self) -> (dict: String)
        ensures
            dict@ == self@.dict_form(),
    {
        let mut dict = self.text.clone();
        dict.append(self.dict_suffix());
        dict
    }
}

} // verus!
