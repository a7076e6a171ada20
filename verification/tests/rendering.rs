use mugo::{deconjugate, RenderError, Root, RootKind, Step};

fn render(kind: RootKind, steps: Vec<Step>) -> Result<String, RenderError> {
    Root { text: "".into(), kind, steps }.conjugation_suffix()
}

fn text(s: &str) -> Result<String, RenderError> {
    Ok(s.to_string())
}

const KINDS: [RootKind; 16] = [
    RootKind::Ichidan,
    RootKind::GodanBu,
    RootKind::GodanMu,
    RootKind::GodanNu,
    RootKind::GodanRu,
    RootKind::GodanSu,
    RootKind::GodanTsu,
    RootKind::GodanU,
    RootKind::GodanGu,
    RootKind::GodanKu,
    RootKind::Iku,
    RootKind::Kuru,
    RootKind::Suru,
    RootKind::SpecialSuru,
    RootKind::IAdjective,
    RootKind::NaAdjective,
];

#[test]
fn endings_of_short_chains() {
    assert_eq!(render(RootKind::GodanKu, vec![Step::Imperative]), text("け"));
    assert_eq!(render(RootKind::GodanNu, vec![Step::Invitational]), text("にましょう"));
    assert_eq!(render(RootKind::Ichidan, vec![Step::Te, Step::ContRuAbbrev, Step::Ta]), text("てた"));
    assert_eq!(render(RootKind::NaAdjective, vec![Step::Na, Step::Nda]), text("なんだ"));
    assert_eq!(render(RootKind::GodanU, vec![Step::Nu]), text("わぬ"));
}

#[test]
fn suffix_does_not_depend_on_the_text() {
    for stem in ["", "か", "たべ", "行"] {
        let root = Root { text: stem.into(), kind: RootKind::GodanKu, steps: vec![Step::Masu, Step::Ta] };
        assert_eq!(root.conjugation_suffix(), text("きました"));
    }
}

#[test]
fn root_without_steps_gets_its_verb_stem() {
    assert_eq!(render(RootKind::Ichidan, vec![]), text(""));
    assert_eq!(render(RootKind::GodanBu, vec![]), text("び"));
    assert_eq!(render(RootKind::GodanMu, vec![]), text("み"));
    assert_eq!(render(RootKind::GodanNu, vec![]), text("に"));
    assert_eq!(render(RootKind::GodanRu, vec![]), text("り"));
    assert_eq!(render(RootKind::GodanSu, vec![]), text("し"));
    assert_eq!(render(RootKind::GodanTsu, vec![]), text("ち"));
    assert_eq!(render(RootKind::GodanU, vec![]), text("い"));
    assert_eq!(render(RootKind::GodanGu, vec![]), text("ぎ"));
    assert_eq!(render(RootKind::GodanKu, vec![]), text("き"));
    assert_eq!(render(RootKind::Iku, vec![]), text("き"));
    assert_eq!(render(RootKind::Kuru, vec![]), text("き"));
    assert_eq!(render(RootKind::Suru, vec![]), text(""));
    assert_eq!(render(RootKind::SpecialSuru, vec![]), text(""));
    assert_eq!(render(RootKind::IAdjective, vec![]), text(""));
    assert_eq!(render(RootKind::NaAdjective, vec![]), text(""));
}

#[test]
fn polite_forms() {
    let stems = ["", "び", "み", "に", "り", "し", "ち", "い", "ぎ", "き", "き", "き", "", "", "", ""];
    for (kind, stem) in KINDS.iter().zip(stems) {
        assert_eq!(render(*kind, vec![Step::Stem]), text(stem));
        assert_eq!(render(*kind, vec![Step::Masu]), text(&format!("{stem}ます")));
        assert_eq!(render(*kind, vec![Step::Masen]), text(&format!("{stem}ません")));
        assert_eq!(render(*kind, vec![Step::Invitational]), text(&format!("{stem}ましょう")));
        assert_eq!(render(*kind, vec![Step::Nasai]), text(&format!("{stem}なさい")));
        assert_eq!(render(*kind, vec![Step::Nagara]), text(&format!("{stem}ながら")));
        assert_eq!(render(*kind, vec![Step::Tai]), text(&format!("{stem}たい")));
    }
}

#[test]
fn forms_that_are_the_same_for_every_kind() {
    for kind in KINDS {
        assert_eq!(render(kind, vec![Step::AdverbialKu]), text("く"));
        assert_eq!(render(kind, vec![Step::Ka]), text("か"));
        assert_eq!(render(kind, vec![Step::Na]), text("な"));
        assert_eq!(render(kind, vec![Step::Katta]), text("かった"));
        assert_eq!(render(kind, vec![Step::Ki]), text("き"));
        assert_eq!(render(kind, vec![Step::Nda]), text("んだ"));
        assert_eq!(render(kind, vec![Step::Kereba]), text("ければ"));
        assert_eq!(render(kind, vec![Step::Sa]), text("さ"));
        assert_eq!(render(kind, vec![Step::Continuous]), text("いる"));
        assert_eq!(render(kind, vec![Step::ContRuAbbrev]), text("る"));
    }
}

#[test]
fn negative_endings() {
    assert_eq!(render(RootKind::GodanMu, vec![Step::Nai]), text("まない"));
    assert_eq!(render(RootKind::GodanMu, vec![Step::Nu]), text("まぬ"));
    assert_eq!(render(RootKind::GodanMu, vec![Step::Zu]), text("まず"));
    assert_eq!(render(RootKind::GodanMu, vec![Step::Naide]), text("まないで"));
    assert_eq!(render(RootKind::GodanMu, vec![Step::Nakatta]), text("まなかった"));
    assert_eq!(render(RootKind::GodanMu, vec![Step::Nakya]), text("まなきゃ"));
    assert_eq!(render(RootKind::Ichidan, vec![Step::Nakatta]), text("なかった"));
}

#[test]
fn teku_forms() {
    let expected = [
        "てく", "んでく", "んでく", "んでく", "ってく", "してく", "ってく", "ってく", "いでく", "いてく",
        "ってく", "てく", "してく", "してく", "てく",
    ];
    for (kind, want) in KINDS.iter().zip(expected) {
        assert_eq!(render(*kind, vec![Step::Teku]), text(want));
    }
}

#[test]
fn negative_stems() {
    let expected = [
        "ない", "ばない", "まない", "なない", "らない", "さない", "たない", "わない", "がない", "かない",
        "かない", "こない", "しない", "しない",
    ];
    for (kind, want) in KINDS.iter().zip(expected) {
        assert_eq!(render(*kind, vec![Step::Nai]), text(want));
    }
}

#[test]
fn te_forms() {
    let expected = [
        "て", "んで", "んで", "んで", "って", "して", "って", "って", "いで", "いて", "って", "て", "して",
        "して", "て",
    ];
    for (kind, want) in KINDS.iter().zip(expected) {
        assert_eq!(render(*kind, vec![Step::Te]), text(want));
    }
}

#[test]
fn past_forms() {
    let expected = [
        "た", "んだ", "んだ", "んだ", "った", "した", "った", "った", "いだ", "いた", "った", "た", "した",
        "した",
    ];
    for (kind, want) in KINDS.iter().zip(expected) {
        assert_eq!(render(*kind, vec![Step::Ta]), text(want));
        assert_eq!(render(*kind, vec![Step::Tari]), text(&format!("{want}り")));
        assert_eq!(render(*kind, vec![Step::Tara]), text(&format!("{want}ら")));
    }
}

#[test]
fn potential_and_conditional_stems() {
    let potential = ["られる", "べる", "める", "ねる", "れる", "せる", "てる", "える", "げる", "ける", "ける", "こられる"];
    let conditional = ["れば", "べば", "めば", "ねば", "れば", "せば", "てば", "えば", "げば", "けば", "けば", "こられば"];
    for ((kind, can), if_so) in KINDS.iter().zip(potential).zip(conditional) {
        assert_eq!(render(*kind, vec![Step::Potential]), text(can));
        assert_eq!(render(*kind, vec![Step::Ba]), text(if_so));
    }
}

#[test]
fn volitional_and_imperative_forms() {
    let volitional = [
        "よう", "ぼう", "もう", "のう", "ろう", "そう", "とう", "おう", "ごう", "こう", "こう", "こよう",
        "しよう", "しよう",
    ];
    let imperative =
        ["ろ", "べ", "め", "ね", "れ", "せ", "て", "え", "げ", "け", "け", "い", "しろ", "しろ"];
    for ((kind, lets), order) in KINDS.iter().zip(volitional).zip(imperative) {
        assert_eq!(render(*kind, vec![Step::Volitional]), text(lets));
        assert_eq!(render(*kind, vec![Step::Imperative]), text(order));
    }
}

#[test]
fn chau_forms() {
    let expected = [
        "ちゃう", "んじゃう", "んじゃう", "んじゃう", "っちゃう", "しちゃう", "っちゃう", "っちゃう",
        "いじゃう", "いちゃう", "っちゃう", "ちゃう", "しちゃう", "しちゃう", "う",
    ];
    for (kind, want) in KINDS.iter().zip(expected) {
        assert_eq!(render(*kind, vec![Step::Chau]), text(want));
    }
}

#[test]
fn causative_and_passive_forms() {
    let causative = [
        "させる", "ばせる", "ませる", "なせる", "らせる", "させる", "たせる", "わせる", "がせる", "かせる",
        "かせる", "こせる", "させる", "させる",
    ];
    let passive = [
        "られる", "ばれる", "まれる", "なれる", "られる", "される", "たれる", "われる", "がれる", "かれる",
        "かれる", "こられる", "しれる", "しれる",
    ];
    for ((kind, make), suffer) in KINDS.iter().zip(causative).zip(passive) {
        assert_eq!(render(*kind, vec![Step::Causative]), text(make));
        assert_eq!(render(*kind, vec![Step::Passive]), text(suffer));
    }
}

#[test]
fn causative_contracts_with_its_passive() {
    assert_eq!(render(RootKind::GodanRu, vec![Step::Causative, Step::Passive]), text("らされる"));
    assert_eq!(render(RootKind::GodanKu, vec![Step::Causative, Step::Passive]), text("かされる"));
    assert_eq!(render(RootKind::GodanU, vec![Step::Causative, Step::Passive]), text("わされる"));
    assert_eq!(render(RootKind::GodanBu, vec![Step::Causative, Step::Passive]), text("ばされる"));
    assert_eq!(render(RootKind::GodanMu, vec![Step::Causative, Step::Passive]), text("まされる"));
    assert_eq!(render(RootKind::GodanNu, vec![Step::Causative, Step::Passive]), text("なされる"));
    assert_eq!(render(RootKind::GodanTsu, vec![Step::Causative, Step::Passive]), text("たされる"));
    assert_eq!(render(RootKind::GodanGu, vec![Step::Causative, Step::Passive]), text("がされる"));
    assert_eq!(render(RootKind::Iku, vec![Step::Causative, Step::Passive]), text("かされる"));
    assert_eq!(
        render(RootKind::GodanRu, vec![Step::Causative, Step::Passive, Step::Ka]),
        text("らされるか")
    );
    // させ does not contract, nor do the verbs in す, nor does 来る.
    assert_eq!(render(RootKind::Ichidan, vec![Step::Causative, Step::Passive]), text("させられる"));
    assert_eq!(render(RootKind::Suru, vec![Step::Causative, Step::Passive]), text("させられる"));
    assert_eq!(
        render(RootKind::SpecialSuru, vec![Step::Causative, Step::Passive]),
        text("させられる")
    );
    assert_eq!(render(RootKind::GodanSu, vec![Step::Causative, Step::Passive]), text("させられる"));
    assert_eq!(render(RootKind::Kuru, vec![Step::Causative, Step::Passive]), text("こせられる"));
    // Nor does a causative with anything else behind it.
    assert_eq!(render(RootKind::GodanRu, vec![Step::Causative, Step::Nai]), text("らせない"));
    assert_eq!(render(RootKind::GodanRu, vec![Step::Causative, Step::Ka]), text("らせるか"));
}

#[test]
fn steps_that_are_cut_short_when_the_word_goes_on() {
    // Last, or with only the question particle behind: the full ending.
    assert_eq!(render(RootKind::GodanMu, vec![Step::Masu]), text("みます"));
    assert_eq!(render(RootKind::GodanMu, vec![Step::Masu, Step::Ka]), text("みますか"));
    assert_eq!(render(RootKind::GodanMu, vec![Step::Masen, Step::Ka]), text("みませんか"));
    assert_eq!(render(RootKind::GodanMu, vec![Step::Nai, Step::Ka]), text("まないか"));
    assert_eq!(render(RootKind::GodanMu, vec![Step::Tai, Step::Ka]), text("みたいか"));
    assert_eq!(render(RootKind::GodanMu, vec![Step::Potential, Step::Ka]), text("めるか"));
    assert_eq!(render(RootKind::GodanMu, vec![Step::Passive, Step::Ka]), text("まれるか"));
    assert_eq!(render(RootKind::GodanMu, vec![Step::Chau, Step::Ka]), text("んじゃうか"));
    assert_eq!(render(RootKind::GodanMu, vec![Step::Te, Step::Continuous, Step::Ka]), text("んでいるか"));
    assert_eq!(render(RootKind::GodanMu, vec![Step::Te, Step::ContRuAbbrev, Step::Ka]), text("んでるか"));
    // With another step behind: the part that it attaches to.
    assert_eq!(render(RootKind::GodanMu, vec![Step::Masu, Step::Ta]), text("みました"));
    assert_eq!(render(RootKind::GodanMu, vec![Step::Nai, Step::Kereba]), text("まなければ"));
    assert_eq!(render(RootKind::GodanMu, vec![Step::Tai, Step::AdverbialKu]), text("みたく"));
    assert_eq!(render(RootKind::GodanMu, vec![Step::Potential, Step::Nai]), text("めない"));
    assert_eq!(render(RootKind::GodanMu, vec![Step::Chau, Step::Ta]), text("んじゃった"));
    assert_eq!(render(RootKind::GodanMu, vec![Step::Causative, Step::Stem]), text("ませ"));
    assert_eq!(render(RootKind::GodanMu, vec![Step::Te, Step::Continuous, Step::Ta]), text("んでいた"));
    assert_eq!(render(RootKind::GodanMu, vec![Step::Te, Step::ContRuAbbrev, Step::Ta]), text("んでた"));
}

#[test]
fn question_adds_ka_and_changes_nothing_else() {
    let chains = [
        vec![Step::Masu],
        vec![Step::Nai],
        vec![Step::Ta],
        vec![Step::Te, Step::Continuous],
        vec![Step::Causative, Step::Passive],
        vec![Step::Tai, Step::AdverbialKu, Step::Nai],
        vec![Step::Imperative],
        vec![Step::Potential],
        vec![Step::Passive, Step::Ta],
        vec![Step::TeOku],
    ];
    for kind in KINDS {
        for chain in &chains {
            let mut asked = chain.clone();
            asked.push(Step::Ka);
            let plain = render(kind, chain.clone());
            assert_eq!(render(kind, asked), plain.map(|ending| format!("{ending}か")));
        }
    }
}

#[test]
fn te_form_of_a_root_is_found_again() {
    let kinds = [
        RootKind::Ichidan,
        RootKind::GodanRu,
        RootKind::GodanTsu,
        RootKind::GodanU,
        RootKind::Iku,
        RootKind::GodanKu,
        RootKind::GodanSu,
        RootKind::Suru,
        RootKind::SpecialSuru,
        RootKind::GodanBu,
        RootKind::GodanNu,
        RootKind::GodanMu,
    ];
    for stem in ["", "か", "かな", "たべ", "われ", "き", "行", "しんぱい"] {
        for kind in kinds {
            let root = Root { text: stem.into(), kind, steps: vec![Step::Te] };
            let word = format!("{stem}{}", root.conjugation_suffix().unwrap());
            assert!(deconjugate(&word).contains(&root), "{root:?} in {word}");
        }
    }
    // Behind a stem in な the いで of a godan ぐ verb is read as ないで.
    let root = Root { text: "かな".into(), kind: RootKind::GodanGu, steps: vec![Step::Te] };
    assert_eq!(root.conjugation_suffix(), text("いで"));
    assert!(!deconjugate("かないで").contains(&root));
}

#[test]
fn each_step_takes_the_kind_that_the_step_before_leaves() {
    // ます leaves a godan す verb, so its past is した.
    assert_eq!(render(RootKind::Kuru, vec![Step::Masu, Step::Ta]), text("きました"));
    // ない and たい leave an adjective.
    assert_eq!(render(RootKind::GodanSu, vec![Step::Nai, Step::Katta]), text("さなかった"));
    assert_eq!(render(RootKind::GodanNu, vec![Step::Tai, Step::AdverbialKu, Step::Nai]), text("にたくない"));
    // て, the potential and the causative leave an ichidan verb.
    assert_eq!(render(RootKind::Suru, vec![Step::Te, Step::Potential, Step::Nai]), text("してられない"));
    assert_eq!(render(RootKind::GodanU, vec![Step::Potential, Step::Ta]), text("えた"));
    assert_eq!(render(RootKind::GodanU, vec![Step::Causative, Step::Nai]), text("わせない"));
    // ちゃう leaves a godan う verb.
    assert_eq!(render(RootKind::Ichidan, vec![Step::Chau, Step::Ta]), text("ちゃった"));
    // てく leaves a godan く verb.
    assert_eq!(render(RootKind::GodanU, vec![Step::Teku, Step::Nai]), text("ってくかない"));
}

#[test]
fn steps_behind_a_step_that_leaves_nothing() {
    assert_eq!(render(RootKind::NaAdjective, vec![Step::Na, Step::Nda]), text("なんだ"));
    assert_eq!(render(RootKind::Ichidan, vec![Step::Ta, Step::Nda]), text("たんだ"));
    assert_eq!(render(RootKind::Ichidan, vec![Step::Ta, Step::Ka]), text("たか"));
    assert_eq!(render(RootKind::Ichidan, vec![Step::Ta, Step::Nda, Step::Ka]), text("たんだか"));
    // ない stands there in full, whatever follows it.
    assert_eq!(render(RootKind::IAdjective, vec![Step::AdverbialKu, Step::Nai]), text("くない"));
    assert_eq!(
        render(RootKind::IAdjective, vec![Step::AdverbialKu, Step::Nai, Step::Katta]),
        text("くないかった")
    );
}

#[test]
fn step_without_a_kind_to_take_is_reported() {
    assert_eq!(
        render(RootKind::Ichidan, vec![Step::Ta, Step::Masu]),
        Err(RenderError::Unrooted { step: Step::Masu })
    );
    assert_eq!(
        render(RootKind::GodanRu, vec![Step::Passive, Step::Ta]),
        Err(RenderError::Unrooted { step: Step::Ta })
    );
    assert_eq!(
        render(RootKind::GodanTsu, vec![Step::Imperative, Step::Continuous, Step::Ta]),
        Err(RenderError::Unrooted { step: Step::Continuous })
    );
}

#[test]
fn known_gaps_are_reported() {
    for kind in [RootKind::NaAdjective, RootKind::IAdjective] {
        for step in [Step::Causative, Step::Passive] {
            assert_eq!(render(kind, vec![step]), Err(RenderError::Unsupported { kind, step }));
        }
    }
    for kind in [RootKind::Suru, RootKind::SpecialSuru, RootKind::IAdjective, RootKind::NaAdjective] {
        for step in [Step::Potential, Step::Ba] {
            assert_eq!(render(kind, vec![step]), Err(RenderError::Unsupported { kind, step }));
        }
    }
    for kind in [RootKind::IAdjective, RootKind::NaAdjective] {
        for step in [
            Step::Nai, Step::Nu, Step::Zu, Step::Naide, Step::Nakatta, Step::Nakya, Step::Ta,
            Step::Tari, Step::Tara, Step::Volitional, Step::Imperative,
        ] {
            assert_eq!(render(kind, vec![step]), Err(RenderError::Unsupported { kind, step }));
        }
    }
    for step in [Step::Te, Step::Teku, Step::Chau] {
        assert_eq!(
            render(RootKind::NaAdjective, vec![step]),
            Err(RenderError::Unsupported { kind: RootKind::NaAdjective, step })
        );
    }
}

#[test]
fn te_oku_has_no_form() {
    for kind in KINDS {
        for step in [Step::TeOku, Step::Toku] {
            assert_eq!(render(kind, vec![step]), Err(RenderError::Unsupported { kind, step }));
        }
    }
}

#[test]
fn first_step_without_a_form_is_the_one_reported() {
    assert_eq!(
        render(RootKind::Suru, vec![Step::Potential, Step::TeOku]),
        Err(RenderError::Unsupported { kind: RootKind::Suru, step: Step::Potential })
    );
    assert_eq!(
        render(RootKind::GodanKu, vec![Step::Ta, Step::Masu, Step::Toku]),
        Err(RenderError::Unrooted { step: Step::Masu })
    );
    // The kind named is the one that the step was applied to.
    assert_eq!(
        render(RootKind::GodanKu, vec![Step::Nai, Step::Nai]),
        Err(RenderError::Unsupported { kind: RootKind::IAdjective, step: Step::Nai })
    );
}

#[test]
fn a_failed_rendering_does_not_spoil_the_others() {
    let mut good = 0;
    let mut bad = 0;
    for root in deconjugate("なられた") {
        match root.conjugation_suffix() {
            Ok(_) => good += 1,
            Err(_) => bad += 1,
        }
    }
    assert!(good > 0);
    assert!(bad > 0);
}

#[test]
fn roots_that_conjugate_back() {
    let cases = [
        ("きました", "", RootKind::Kuru, vec![Step::Masu, Step::Ta]),
        ("かえって", "かえ", RootKind::GodanRu, vec![Step::Te]),
        ("つまらなかった", "つまらな", RootKind::IAdjective, vec![Step::Katta]),
        ("みつけさせる", "みつけ", RootKind::Ichidan, vec![Step::Causative]),
        ("しにたくない", "し", RootKind::GodanNu, vec![Step::Tai, Step::AdverbialKu, Step::Nai]),
        ("まわらされる", "まわ", RootKind::GodanRu, vec![Step::Causative, Step::Passive]),
        ("はなさせられる", "はな", RootKind::GodanSu, vec![Step::Causative, Step::Passive]),
        ("たべさせられる", "たべ", RootKind::Ichidan, vec![Step::Causative, Step::Passive]),
        ("いけか", "い", RootKind::GodanKu, vec![Step::Imperative, Step::Ka]),
        ("とまれか", "とま", RootKind::GodanRu, vec![Step::Imperative, Step::Ka]),
        ("じっとしてられない", "じっと", RootKind::Suru, vec![Step::Te, Step::Potential, Step::Nai]),
        ("ゆらめいていた", "ゆらめ", RootKind::GodanKu, vec![Step::Te, Step::Continuous, Step::Ta]),
    ];
    for (word, stem, kind, steps) in cases {
        let root = Root { text: stem.into(), kind, steps };
        assert!(deconjugate(word).contains(&root));
        assert_eq!(format!("{}{}", root.text, root.conjugation_suffix().unwrap()), word);
    }
}

#[test]
fn every_root_of_a_polite_word_conjugates_back_to_it() {
    for word in [
        "ます", "のみます", "たべます", "いきます", "すみません", "かりません", "しにましょう",
        "きましょう", "あそびなさい", "たのみなさい", "まよいながら", "まちながら", "つらぬきたい",
        "たい", "なさい",
    ] {
        for root in deconjugate(word) {
            assert_eq!(format!("{}{}", root.text, root.conjugation_suffix().unwrap()), word);
        }
    }
}

#[test]
fn every_root_of_a_word_read_in_one_step_conjugates_back() {
    for word in [
        "もやし", "しずみ", "ふりむき", "あつき", "たたかえ", "とめろ", "いそげ", "よべ", "つきすすめ",
        "とまれ", "かがやけ", "いけ", "しね", "かすかな", "やさしさ", "とんで", "いそいで", "し", "で",
    ] {
        for root in deconjugate(word) {
            assert_eq!(format!("{}{}", root.text, root.conjugation_suffix().unwrap()), word);
        }
    }
}

#[test]
fn dictionary_form_does_not_conjugate_back() {
    // With no step the rules give the verb stem, and an ichidan verb has
    // none to show: the る of the dictionary form is not put back.
    let root = Root { text: "たべ".into(), kind: RootKind::Ichidan, steps: vec![] };
    assert!(deconjugate("たべる").contains(&root));
    assert_eq!(root.conjugation_suffix(), text(""));
    assert_eq!(root.dict_string(), "たべる");
}

#[test]
fn kuru_does_not_always_conjugate_back() {
    // 来る changes its first character, which the text of the root leaves
    // out and the past does not put back.
    let root = Root { text: "".into(), kind: RootKind::Kuru, steps: vec![Step::Ta] };
    assert!(deconjugate("きた").contains(&root));
    assert_eq!(root.conjugation_suffix(), text("た"));
}
