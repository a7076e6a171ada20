use mugo::{Root, RootKind, Step};

fn root(text: &str, kind: RootKind, steps: Vec<Step>) -> Root {
    Root { text: text.into(), kind, steps }
}

#[test]
fn dictionary_forms() {
    assert_eq!(root("い", RootKind::Iku, vec![]).dict_string(), "いく");
    assert_eq!(root("", RootKind::Kuru, vec![]).dict_string(), "くる");
    assert_eq!(root("あい", RootKind::SpecialSuru, vec![]).dict_string(), "あいする");
    assert_eq!(root("行", RootKind::GodanU, vec![]).dict_string(), "行う");
}

#[test]
fn dictionary_suffix_of_each_kind() {
    let expected = [
        (RootKind::Ichidan, "る"),
        (RootKind::GodanBu, "ぶ"),
        (RootKind::GodanMu, "む"),
        (RootKind::GodanNu, "ぬ"),
        (RootKind::GodanRu, "る"),
        (RootKind::GodanSu, "す"),
        (RootKind::GodanTsu, "つ"),
        (RootKind::GodanU, "う"),
        (RootKind::GodanGu, "ぐ"),
        (RootKind::GodanKu, "く"),
        (RootKind::Iku, "く"),
        (RootKind::Kuru, "くる"),
        (RootKind::Suru, "する"),
        (RootKind::SpecialSuru, "する"),
        (RootKind::IAdjective, "い"),
        (RootKind::NaAdjective, ""),
    ];
    for (kind, suffix) in expected {
        assert_eq!(root("", kind, vec![]).dict_suffix(), suffix);
        assert_eq!(root("かた", kind, vec![Step::Te]).dict_string(), format!("かた{suffix}"));
    }
}

#[test]
fn dictionary_form_does_not_depend_on_the_steps() {
    assert_eq!(
        root("たべ", RootKind::Ichidan, vec![]).dict_string(),
        root("たべ", RootKind::Ichidan, vec![Step::Masu, Step::Ta]).dict_string()
    );
}

#[test]
fn kind_that_a_step_leaves() {
    assert_eq!(Step::Te.root_kind(), Some(RootKind::Ichidan));
    assert_eq!(Step::Nai.root_kind(), Some(RootKind::IAdjective));
    assert_eq!(Step::Masu.root_kind(), Some(RootKind::GodanSu));
    assert_eq!(Step::Continuous.root_kind(), Some(RootKind::Ichidan));
    assert_eq!(Step::ContRuAbbrev.root_kind(), Some(RootKind::Ichidan));
    assert_eq!(Step::Potential.root_kind(), Some(RootKind::Ichidan));
    assert_eq!(Step::Chau.root_kind(), Some(RootKind::GodanU));
    assert_eq!(Step::Causative.root_kind(), Some(RootKind::Ichidan));
    assert_eq!(Step::Tai.root_kind(), Some(RootKind::IAdjective));
    assert_eq!(Step::Teku.root_kind(), Some(RootKind::GodanKu));
    assert_eq!(Step::TeOku.root_kind(), Some(RootKind::GodanKu));
    assert_eq!(Step::Toku.root_kind(), Some(RootKind::GodanKu));
    for step in [
        Step::Nu, Step::Naide, Step::Nakatta, Step::Ta, Step::Volitional, Step::AdverbialKu,
        Step::Imperative, Step::Masen, Step::Invitational, Step::Zu, Step::Ka, Step::Tari,
        Step::Tara, Step::Nasai, Step::Nagara, Step::Passive, Step::Ba, Step::Na, Step::Katta,
        Step::Stem, Step::Ki, Step::Nda, Step::Kereba, Step::Nakya, Step::Sa,
    ] {
        assert_eq!(step.root_kind(), None);
    }
}

#[test]
fn roots_are_equal_where_text_kind_and_steps_are() {
    let a = root("かえ", RootKind::GodanRu, vec![Step::Te, Step::Continuous]);
    assert_eq!(a, root("かえ", RootKind::GodanRu, vec![Step::Te, Step::Continuous]));
    assert_eq!(a, a.clone());
    assert_ne!(a, root("かえっ", RootKind::GodanRu, vec![Step::Te, Step::Continuous]));
    assert_ne!(a, root("かえ", RootKind::GodanTsu, vec![Step::Te, Step::Continuous]));
    assert_ne!(a, root("かえ", RootKind::GodanRu, vec![Step::Continuous, Step::Te]));
    assert_ne!(a, root("かえ", RootKind::GodanRu, vec![Step::Te]));
    assert_ne!(a, root("かえ", RootKind::GodanRu, vec![Step::Te, Step::Continuous, Step::Ta]));
    assert_ne!(a, root("かえ", RootKind::GodanRu, vec![Step::Te, Step::ContRuAbbrev]));
    assert_eq!(root("", RootKind::Kuru, vec![]), root("", RootKind::Kuru, vec![]));
}

#[test]
fn labels() {
    assert_eq!(RootKind::Ichidan.label(), "ichidan");
    assert_eq!(RootKind::GodanRu.label(), "godan る");
    assert_eq!(RootKind::GodanBu.label(), "ぶ");
    assert_eq!(RootKind::Iku.label(), "行く");
    assert_eq!(RootKind::Kuru.label(), "来る");
    assert_eq!(RootKind::Suru.label(), "する");
    assert_eq!(RootKind::SpecialSuru.label(), "する (special)");
    assert_eq!(RootKind::IAdjective.label(), "い adjective");
    assert_eq!(RootKind::NaAdjective.label(), "な adjective");
    assert_eq!(Step::Te.label(), "て");
    assert_eq!(Step::Teku.label(), "てく (て + いく)");
    assert_eq!(Step::Volitional.label(), "volitional");
    assert_eq!(Step::Continuous.label(), "ている");
    assert_eq!(Step::ContRuAbbrev.label(), "てる");
    assert_eq!(Step::Ba.label(), "ば (conditional)");
    assert_eq!(Step::Ki.label(), "き (archaic い)");
    assert_eq!(Step::TeOku.label(), "て + おく");
    assert_eq!(Step::Toku.label(), "とく (て + おく)");
    assert_eq!(Step::Stem.label(), "stem");
}
