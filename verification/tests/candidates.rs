use mugo::{deconjugate, Root, RootKind, Step};

fn root(text: &str, kind: RootKind, steps: Vec<Step>) -> Root {
    Root { text: text.into(), kind, steps }
}

#[test]
fn empty_word_has_the_two_plain_roots() {
    assert_eq!(
        deconjugate(""),
        vec![root("", RootKind::IAdjective, vec![]), root("", RootKind::Ichidan, vec![Step::Stem])]
    );
}

#[test]
fn every_word_is_its_own_adjective_and_verb_stem() {
    for word in ["", "あ", "ねこ", "たべます", "かえって", "abc", "行った"] {
        let roots = deconjugate(word);
        assert!(roots.len() >= 2);
        assert_eq!(roots[0], root(word, RootKind::IAdjective, vec![]));
        assert_eq!(roots[1], root(word, RootKind::Ichidan, vec![Step::Stem]));
    }
}

#[test]
fn word_without_a_known_ending_has_nothing_more() {
    assert_eq!(
        deconjugate("ねこ"),
        vec![
            root("ねこ", RootKind::IAdjective, vec![]),
            root("ねこ", RootKind::Ichidan, vec![Step::Stem]),
        ]
    );
    assert_eq!(deconjugate("abc").len(), 2);
}

#[test]
fn ending_longer_than_the_word_does_not_match() {
    // す alone is not ます, and ん alone is not ません.
    assert_eq!(
        deconjugate("す"),
        vec![root("す", RootKind::IAdjective, vec![]), root("す", RootKind::Ichidan, vec![Step::Stem])]
    );
    assert_eq!(
        deconjugate("ん"),
        vec![root("ん", RootKind::IAdjective, vec![]), root("ん", RootKind::Ichidan, vec![Step::Stem])]
    );
    // ば alone has no stem in front of it.
    assert_eq!(deconjugate("ば").len(), 2);
    // れば is not ければ.
    assert!(!deconjugate("れば").iter().any(|r| r.steps.contains(&Step::Kereba)));
    // ゃ alone is not なきゃ.
    assert!(!deconjugate("きゃ").iter().any(|r| r.steps.contains(&Step::Nakya)));
}

#[test]
fn the_ending_alone_leaves_an_empty_root() {
    assert_eq!(
        deconjugate("ます"),
        vec![
            root("ます", RootKind::IAdjective, vec![]),
            root("ます", RootKind::Ichidan, vec![Step::Stem]),
            root("", RootKind::Ichidan, vec![Step::Masu]),
        ]
    );
}

#[test]
fn polite_form_in_full() {
    assert_eq!(
        deconjugate("のみます"),
        vec![
            root("のみます", RootKind::IAdjective, vec![]),
            root("のみます", RootKind::Ichidan, vec![Step::Stem]),
            root("のみ", RootKind::Ichidan, vec![Step::Masu]),
            root("の", RootKind::GodanMu, vec![Step::Masu]),
        ]
    );
    assert_eq!(
        deconjugate("ききません"),
        vec![
            root("ききません", RootKind::IAdjective, vec![]),
            root("ききません", RootKind::Ichidan, vec![Step::Stem]),
            root("きき", RootKind::Ichidan, vec![Step::Masen]),
            root("き", RootKind::GodanKu, vec![Step::Masen]),
            root("き", RootKind::Kuru, vec![Step::Masen]),
            root("き", RootKind::Iku, vec![Step::Masen]),
        ]
    );
}

#[test]
fn te_form_in_full_and_in_order() {
    assert_eq!(
        deconjugate("かえって"),
        vec![
            root("かえって", RootKind::IAdjective, vec![]),
            root("かえって", RootKind::Ichidan, vec![Step::Stem]),
            root("かえっ", RootKind::GodanTsu, vec![Step::Imperative]),
            root("かえっ", RootKind::Ichidan, vec![Step::Te]),
            root("かえ", RootKind::GodanRu, vec![Step::Te]),
            root("かえ", RootKind::GodanTsu, vec![Step::Te]),
            root("かえ", RootKind::GodanU, vec![Step::Te]),
            root("かえ", RootKind::Iku, vec![Step::Te]),
        ]
    );
}

#[test]
fn de_form_in_full_and_in_order() {
    assert_eq!(
        deconjugate("とんで"),
        vec![
            root("とんで", RootKind::IAdjective, vec![]),
            root("とんで", RootKind::Ichidan, vec![Step::Stem]),
            root("と", RootKind::GodanBu, vec![Step::Te]),
            root("と", RootKind::GodanNu, vec![Step::Te]),
            root("と", RootKind::GodanMu, vec![Step::Te]),
        ]
    );
}

#[test]
fn da_form_goes_on_after_the_past() {
    // んだ is a past of three godan kinds, and it is the のだ that can follow
    // anything.
    assert_eq!(
        deconjugate("よんだ"),
        vec![
            root("よんだ", RootKind::IAdjective, vec![]),
            root("よんだ", RootKind::Ichidan, vec![Step::Stem]),
            root("よ", RootKind::GodanBu, vec![Step::Ta]),
            root("よ", RootKind::GodanMu, vec![Step::Ta]),
            root("よ", RootKind::GodanNu, vec![Step::Ta]),
            root("よ", RootKind::IAdjective, vec![Step::Nda]),
            root("よ", RootKind::Ichidan, vec![Step::Stem, Step::Nda]),
        ]
    );
}

#[test]
fn kereba_goes_on_to_the_last_character() {
    // After ければ the last character ば is still looked at.
    assert_eq!(
        deconjugate("かければ"),
        vec![
            root("かければ", RootKind::IAdjective, vec![]),
            root("かければ", RootKind::Ichidan, vec![Step::Stem]),
            root("か", RootKind::IAdjective, vec![Step::Kereba]),
            root("かけ", RootKind::GodanRu, vec![Step::Ba]),
            root("かけ", RootKind::Ichidan, vec![Step::Ba]),
            root("か", RootKind::GodanKu, vec![Step::Potential, Step::Ba]),
        ]
    );
}

#[test]
fn teku_goes_on_to_the_last_character() {
    assert_eq!(
        deconjugate("ってく"),
        vec![
            root("ってく", RootKind::IAdjective, vec![]),
            root("ってく", RootKind::Ichidan, vec![Step::Stem]),
            root("っ", RootKind::Ichidan, vec![Step::Teku]),
            root("", RootKind::GodanRu, vec![Step::Teku]),
            root("", RootKind::GodanTsu, vec![Step::Teku]),
            root("", RootKind::GodanU, vec![Step::Teku]),
            root("", RootKind::Iku, vec![Step::Teku]),
            root("って", RootKind::IAdjective, vec![Step::AdverbialKu]),
        ]
    );
}

#[test]
fn masu_and_nakya_end_the_search() {
    // Nothing is made of the last character once ます or なきゃ was found:
    // します is not read as a word in す.
    assert_eq!(
        deconjugate("します"),
        vec![
            root("します", RootKind::IAdjective, vec![]),
            root("します", RootKind::Ichidan, vec![Step::Stem]),
            root("し", RootKind::Ichidan, vec![Step::Masu]),
            root("", RootKind::GodanSu, vec![Step::Masu]),
        ]
    );
    assert_eq!(
        deconjugate("らなきゃ"),
        vec![
            root("らなきゃ", RootKind::IAdjective, vec![]),
            root("らなきゃ", RootKind::Ichidan, vec![Step::Stem]),
            root("", RootKind::GodanRu, vec![Step::Nakya]),
            root("ら", RootKind::Ichidan, vec![Step::Nakya]),
        ]
    );
}

#[test]
fn lone_ki_is_kuru_in_front_of_te() {
    assert!(deconjugate("きて").contains(&root("", RootKind::Kuru, vec![Step::Te])));
    assert!(!deconjugate("あきて").contains(&root("あ", RootKind::Kuru, vec![Step::Te])));
}

#[test]
fn iku_is_proposed_only_behind_i_or_yu() {
    assert!(deconjugate("いける").contains(&root("い", RootKind::Iku, vec![Step::Potential])));
    assert!(deconjugate("ゆける").contains(&root("ゆ", RootKind::Iku, vec![Step::Potential])));
    assert!(!deconjugate("かける").contains(&root("か", RootKind::Iku, vec![Step::Potential])));
}

#[test]
fn potential_is_not_stacked_on_potential() {
    let roots = deconjugate("しんじられない");
    assert!(roots.contains(&root("しんじ", RootKind::Ichidan, vec![Step::Potential, Step::Nai])));
    assert!(roots.iter().all(|r| {
        r.steps.windows(2).all(|pair| pair != [Step::Potential, Step::Potential])
    }));
}

#[test]
fn ru_after_te_is_the_short_continuous() {
    assert!(deconjugate("いきてる")
        .contains(&root("いき", RootKind::Ichidan, vec![Step::Te, Step::ContRuAbbrev])));
    // With a step found already the る is no continuous.
    assert!(!deconjugate("いきてるか").iter().any(|r| {
        r.steps == vec![Step::Te, Step::ContRuAbbrev, Step::Ka]
    }));
}

#[test]
fn imperatives_keep_the_steps_found_behind_them() {
    let cases = [
        ("とまれか", "とま", RootKind::GodanRu),
        ("いけか", "い", RootKind::GodanKu),
        ("いけか", "い", RootKind::Iku),
        ("しねか", "し", RootKind::GodanNu),
        ("いそげか", "いそ", RootKind::GodanGu),
        ("たたかえか", "たたか", RootKind::GodanU),
        ("とめろか", "とめ", RootKind::Ichidan),
        ("よべか", "よ", RootKind::GodanBu),
        ("すすめか", "すす", RootKind::GodanMu),
        ("つくせか", "つく", RootKind::GodanSu),
        ("うてか", "う", RootKind::GodanTsu),
    ];
    for (word, stem, kind) in cases {
        let roots = deconjugate(word);
        assert!(roots.contains(&root(stem, kind, vec![Step::Imperative, Step::Ka])), "{word}");
        assert!(!roots.contains(&root(stem, kind, vec![Step::Imperative])), "{word}");
    }
    assert!(deconjugate("とまれんだ")
        .contains(&root("とま", RootKind::GodanRu, vec![Step::Imperative, Step::Nda])));
}

#[test]
fn question_in_full() {
    assert_eq!(
        deconjugate("いけか"),
        vec![
            root("いけか", RootKind::IAdjective, vec![]),
            root("いけか", RootKind::Ichidan, vec![Step::Stem]),
            root("いけ", RootKind::IAdjective, vec![Step::Ka]),
            root("いけ", RootKind::Ichidan, vec![Step::Stem, Step::Ka]),
            root("い", RootKind::GodanKu, vec![Step::Imperative, Step::Ka]),
            root("い", RootKind::Iku, vec![Step::Imperative, Step::Ka]),
        ]
    );
}

#[test]
fn every_root_keeps_the_steps_found_behind_it() {
    // Behind か every chain ends in the question, behind んだ in んだ.
    for word in ["いけか", "とまれか", "たべるか", "ききませんか", "しにたくないか", "なられたか"] {
        for found in deconjugate(word).iter().skip(2) {
            assert_eq!(found.steps.last(), Some(&Step::Ka), "{found:?} in {word}");
        }
    }
    for word in ["はじめたんだ", "だいすきなんだ", "とまれんだ"] {
        let roots = deconjugate(word);
        let behind: Vec<_> = roots.iter().filter(|r| r.text.chars().count() + 2 < word.chars().count()).collect();
        assert!(!behind.is_empty());
        for found in behind {
            assert_eq!(found.steps.last(), Some(&Step::Nda), "{found:?} in {word}");
        }
    }
}

#[test]
fn roots_behind_the_plain_ones_are_shorter_than_the_word() {
    for word in ["あ", "かえって", "たべるか", "まわらされる", "きました", "ければ"] {
        let roots = deconjugate(word);
        for found in roots.iter().skip(2) {
            assert!(found.text.chars().count() < word.chars().count(), "{found:?} in {word}");
        }
    }
}

#[test]
fn suru_is_not_a_godan_ku_negative() {
    let roots = deconjugate("いかない");
    assert!(!roots.contains(&root("いか", RootKind::Suru, vec![Step::Nai])));
    assert!(roots.contains(&root("い", RootKind::GodanKu, vec![Step::Nai])));
}

#[test]
fn roots_found_in_whole_words() {
    assert!(deconjugate("つまらなかった")
        .contains(&root("つまらな", RootKind::IAdjective, vec![Step::Katta])));
    assert!(deconjugate("みつけさせる")
        .contains(&root("みつけ", RootKind::Ichidan, vec![Step::Causative])));
    assert!(deconjugate("かえって").contains(&root("かえ", RootKind::GodanRu, vec![Step::Te])));
}

#[test]
fn text_of_every_root_begins_the_word() {
    for word in [
        "", "かえって", "しんぱいしないで", "じっとしてられない", "ゆらめいていた", "にげださなければ",
        "たちあがらなきゃ", "まわらされる", "しにたくない", "おちちゃった", "ふりはらってく",
        "だいすきなんだ", "ききませんか", "きましょう", "行った",
    ] {
        for found in deconjugate(word) {
            assert!(word.starts_with(&found.text), "{} in {}", found.text, word);
        }
    }
}

#[test]
fn steps_come_innermost_first() {
    // ききませんか: ません on the root, then the question on top of it.
    assert!(deconjugate("ききませんか")
        .contains(&root("き", RootKind::GodanKu, vec![Step::Masen, Step::Ka])));
    // しにたくない: たい, its く, and ない outermost.
    assert!(deconjugate("しにたくない")
        .contains(&root("し", RootKind::GodanNu, vec![Step::Tai, Step::AdverbialKu, Step::Nai])));
}
