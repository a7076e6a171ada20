use mugo::{deconjugate, Root, RootKind, Step};

/// Whether `word` has the root of `text`, `kind` and `steps` among its
/// candidates.
fn has_root(word: &str, text: &str, kind: RootKind, steps: Vec<Step>) -> bool {
    deconjugate(word).contains(&Root { text: text.into(), kind, steps })
}

#[test]
fn test_deconjugate_positive() {
    // て
    assert!(has_root("かえて", "かえ", RootKind::Ichidan, vec![Step::Te]));
    assert!(has_root("かえって", "かえ", RootKind::GodanRu, vec![Step::Te]));
    assert!(has_root("まって", "ま", RootKind::GodanTsu, vec![Step::Te]));
    assert!(has_root("まよって", "まよ", RootKind::GodanU, vec![Step::Te]));
    assert!(has_root("かがやいて", "かがや", RootKind::GodanKu, vec![Step::Te]));
    assert!(has_root("いそいで", "いそ", RootKind::GodanGu, vec![Step::Te]));
    assert!(has_root("とんで", "と", RootKind::GodanBu, vec![Step::Te]));
    assert!(has_root("すんで", "す", RootKind::GodanMu, vec![Step::Te]));
    assert!(has_root("しんで", "し", RootKind::GodanNu, vec![Step::Te]));
    assert!(has_root("のばして", "のば", RootKind::GodanSu, vec![Step::Te]));
    assert!(has_root("いって", "い", RootKind::Iku, vec![Step::Te]));
    assert!(has_root("あいして", "あい", RootKind::Suru, vec![Step::Te]));
    assert!(has_root("こいしてる", "こい", RootKind::SpecialSuru, vec![Step::Te, Step::ContRuAbbrev]));
    // ない
    assert!(has_root("わからない", "わか", RootKind::GodanRu, vec![Step::Nai]));
    assert!(has_root("およがない", "およ", RootKind::GodanGu, vec![Step::Nai]));
    assert!(has_root("ならばない", "なら", RootKind::GodanBu, vec![Step::Nai]));
    assert!(has_root("わたさないで", "わた", RootKind::GodanSu, vec![Step::Naide]));
    assert!(has_root("しんぱいしないで", "しんぱい", RootKind::Suru, vec![Step::Naide]));
    assert!(has_root("しんぱいしないで", "しんぱい", RootKind::SpecialSuru, vec![Step::Naide]));
    assert!(has_root("しんじられない", "しんじ", RootKind::Ichidan, vec![Step::Potential, Step::Nai]));
    assert!(has_root("じっとしてられない", "じっと", RootKind::Suru, vec![Step::Te, Step::Potential, Step::Nai]));
    // ぬ
    assert!(has_root("うしなわぬ", "うしな", RootKind::GodanU, vec![Step::Nu]));
    assert!(has_root("つきすすめ", "つきすす", RootKind::GodanMu, vec![Step::Imperative]));
    // なかった
    assert!(has_root("ならわなかった", "なら", RootKind::GodanU, vec![Step::Nakatta]));
    assert!(has_root("こまなかった", "こ", RootKind::GodanMu, vec![Step::Nakatta]));
    // た
    assert!(has_root("みつけた", "みつけ", RootKind::Ichidan, vec![Step::Ta]));
    assert!(has_root("みつかった", "みつか", RootKind::GodanRu, vec![Step::Ta]));
    assert!(has_root("いった", "い", RootKind::Iku, vec![Step::Ta]));
    assert!(has_root("あそんだ", "あそ", RootKind::GodanBu, vec![Step::Ta]));
    assert!(has_root("すんだ", "す", RootKind::GodanMu, vec![Step::Ta]));
    assert!(has_root("しんだ", "し", RootKind::GodanNu, vec![Step::Ta]));
    assert!(has_root("はなした", "はな", RootKind::GodanSu, vec![Step::Ta]));
    assert!(has_root("つかった", "つか", RootKind::GodanU, vec![Step::Ta]));
    assert!(has_root("行った", "行", RootKind::GodanU, vec![Step::Ta]));
    assert!(has_root("つらぬいた", "つらぬ", RootKind::GodanKu, vec![Step::Ta]));
    assert!(has_root("さわいだ", "さわ", RootKind::GodanGu, vec![Step::Ta]));
    // Potential た
    assert!(has_root("であえた", "であ", RootKind::GodanU, vec![Step::Potential, Step::Ta]));
    // たり
    assert!(has_root("つかったり", "つか", RootKind::GodanU, vec![Step::Tari]));
    assert!(has_root("あそんだり", "あそ", RootKind::GodanBu, vec![Step::Tari]));
    // たら
    assert!(has_root("もどしたら", "もど", RootKind::GodanSu, vec![Step::Tara]));
    assert!(has_root("えらんだら", "えら", RootKind::GodanBu, vec![Step::Tara]));
    assert!(has_root("すすんだら", "すす", RootKind::GodanMu, vec![Step::Tara]));
    assert!(has_root("しんだら", "し", RootKind::GodanNu, vec![Step::Tara]));
    // Volitional
    assert!(has_root("かけよう", "かけ", RootKind::Ichidan, vec![Step::Volitional]));
    assert!(has_root("いこう", "い", RootKind::Iku, vec![Step::Volitional]));
    assert!(has_root("おもおう", "おも", RootKind::GodanU, vec![Step::Volitional]));
    // Invitational
    assert!(has_root("しにましょう", "し", RootKind::GodanNu, vec![Step::Invitational]));
    assert!(has_root("きましょう", "", RootKind::Kuru, vec![Step::Invitational]));
    // Imperative
    assert!(has_root("いけ", "い", RootKind::Iku, vec![Step::Imperative]));
    assert!(has_root("かがやけ", "かがや", RootKind::GodanKu, vec![Step::Imperative]));
    assert!(has_root("しね", "し", RootKind::GodanNu, vec![Step::Imperative]));
    assert!(has_root("とまれ", "とま", RootKind::GodanRu, vec![Step::Imperative]));
    assert!(has_root("とめろ", "とめ", RootKind::Ichidan, vec![Step::Imperative]));
    assert!(has_root("つくせ", "つく", RootKind::GodanSu, vec![Step::Imperative]));
    assert!(has_root("うて", "う", RootKind::GodanTsu, vec![Step::Imperative]));
    assert!(has_root("いそげ", "いそ", RootKind::GodanGu, vec![Step::Imperative]));
    assert!(has_root("たたかえ", "たたか", RootKind::GodanU, vec![Step::Imperative]));
    // ます
    assert!(has_root("たべます", "たべ", RootKind::Ichidan, vec![Step::Masu]));
    assert!(has_root("のみます", "の", RootKind::GodanMu, vec![Step::Masu]));
    assert!(has_root("ききます", "き", RootKind::GodanKu, vec![Step::Masu]));
    assert!(has_root("ききました", "き", RootKind::GodanKu, vec![Step::Masu, Step::Ta]));
    assert!(has_root("いきます", "い", RootKind::Iku, vec![Step::Masu]));
    // たい
    assert!(has_root("つらぬきたい", "つらぬ", RootKind::GodanKu, vec![Step::Tai]));
    assert!(has_root("あいたく", "あ", RootKind::GodanU, vec![Step::Tai, Step::AdverbialKu]));
    assert!(has_root("しにたくない", "し", RootKind::GodanNu, vec![Step::Tai, Step::AdverbialKu, Step::Nai]));
    // Masen
    assert!(has_root("すみません", "す", RootKind::GodanMu, vec![Step::Masen]));
    assert!(has_root("かりません", "かり", RootKind::Ichidan, vec![Step::Masen]));
    // Masenka (polite invite)
    assert!(has_root("ききませんか", "き", RootKind::GodanKu, vec![Step::Masen, Step::Ka]));
    // てる/ている
    assert!(has_root("いきている", "いき", RootKind::Ichidan, vec![Step::Te, Step::Continuous]));
    assert!(has_root("いきてる", "いき", RootKind::Ichidan, vec![Step::Te, Step::ContRuAbbrev]));
    assert!(has_root("あいしてる", "あい", RootKind::Suru, vec![Step::Te, Step::ContRuAbbrev]));
    assert!(has_root("あいしてる", "あい", RootKind::SpecialSuru, vec![Step::Te, Step::ContRuAbbrev]));
    assert!(has_root("こいしてる", "こい", RootKind::Suru, vec![Step::Te, Step::ContRuAbbrev]));
    assert!(has_root("こいしてる", "こい", RootKind::SpecialSuru, vec![Step::Te, Step::ContRuAbbrev]));
    assert!(has_root("とんでいる", "と", RootKind::GodanBu, vec![Step::Te, Step::Continuous]));
    assert!(has_root("はこんでる", "はこ", RootKind::GodanBu, vec![Step::Te, Step::ContRuAbbrev]));
    assert!(has_root("すんでいる", "す", RootKind::GodanMu, vec![Step::Te, Step::Continuous]));
    // ていた/てた
    assert!(has_root("ゆらめいていた", "ゆらめ", RootKind::GodanKu, vec![Step::Te, Step::Continuous, Step::Ta]));
    assert!(has_root("あこがれてた", "あこがれ", RootKind::Ichidan, vec![Step::Te, Step::ContRuAbbrev, Step::Ta]));
    // くる (irregular)
    assert!(has_root("きます", "", RootKind::Kuru, vec![Step::Masu]));
    assert!(has_root("きました", "", RootKind::Kuru, vec![Step::Masu, Step::Ta]));
    assert!(has_root("きません", "", RootKind::Kuru, vec![Step::Masen]));
    assert!(has_root("こよう", "こ", RootKind::Kuru, vec![Step::Volitional]));
    assert!(has_root("こい", "", RootKind::Kuru, vec![Step::Imperative]));
    assert!(has_root("きて", "", RootKind::Kuru, vec![Step::Te]));
    assert!(has_root("きた", "", RootKind::Kuru, vec![Step::Ta]));
    assert!(has_root("こられる", "", RootKind::Kuru, vec![Step::Passive]));
    assert!(has_root("でてこない", "でて", RootKind::Kuru, vec![Step::Nai]));
    // ず
    assert!(has_root("およがず", "およ", RootKind::GodanGu, vec![Step::Zu]));
    assert!(has_root("しんじられず", "しんじ", RootKind::Ichidan, vec![Step::Potential, Step::Zu]));
    // なさい
    assert!(has_root("あそびなさい", "あそ", RootKind::GodanBu, vec![Step::Nasai]));
    assert!(has_root("たのみなさい", "たの", RootKind::GodanMu, vec![Step::Nasai]));
    // ながら
    assert!(has_root("まよいながら", "まよ", RootKind::GodanU, vec![Step::Nagara]));
    assert!(has_root("まちながら", "ま", RootKind::GodanTsu, vec![Step::Nagara]));
    // Causative
    assert!(has_root("しなせる", "し", RootKind::GodanNu, vec![Step::Causative]));
    assert!(has_root("みつけさせる", "みつけ", RootKind::Ichidan, vec![Step::Causative]));
    assert!(has_root("ださせる", "だ", RootKind::GodanSu, vec![Step::Causative]));
    assert!(has_root("じゃまさせる", "じゃま", RootKind::Suru, vec![Step::Causative]));
    // Causative stem
    assert!(has_root("さかせ", "さ", RootKind::GodanKu, vec![Step::Causative, Step::Stem]));
    // Causative nai
    assert!(has_root("いわせない", "い", RootKind::GodanU, vec![Step::Causative, Step::Nai]));
    // Passive
    assert!(has_root("うごかれる", "うご", RootKind::GodanKu, vec![Step::Passive]));
    assert!(has_root("あけられる", "あけ", RootKind::Ichidan, vec![Step::Passive]));
    // Causative passive
    assert!(has_root("まわらされる", "まわ", RootKind::GodanRu, vec![Step::Causative, Step::Passive]));
    // Passive casual past
    assert!(has_root("なられた", "な", RootKind::GodanRu, vec![Step::Passive, Step::Ta]));
    // Passive て
    assert!(has_root("さらわれて", "さら", RootKind::GodanU, vec![Step::Passive, Step::Te]));
    // Yes, it's true, it's both passive AND potential. Same conjugation.
    assert!(has_root("あけられる", "あけ", RootKind::Ichidan, vec![Step::Potential]));
    // ば
    assert!(has_root("さわげば", "さわ", RootKind::GodanGu, vec![Step::Ba]));
    assert!(has_root("ふりだせば", "ふりだ", RootKind::GodanSu, vec![Step::Ba]));
    assert!(has_root("すすめば", "すす", RootKind::GodanMu, vec![Step::Ba]));
    assert!(has_root("いれば", "い", RootKind::GodanRu, vec![Step::Ba]));
    assert!(has_root("うければ", "うけ", RootKind::Ichidan, vec![Step::Ba]));
    // Potential
    assert!(has_root("あげられる", "あげ", RootKind::Ichidan, vec![Step::Potential]));
    assert!(has_root("とれる", "と", RootKind::GodanRu, vec![Step::Potential]));
    assert!(has_root("よべる", "よ", RootKind::GodanBu, vec![Step::Potential]));
    assert!(has_root("こられる", "こ", RootKind::Kuru, vec![Step::Potential]));
    assert!(has_root("ぬげる", "ぬ", RootKind::GodanGu, vec![Step::Potential]));
    assert!(has_root("すすめる", "すす", RootKind::GodanMu, vec![Step::Potential]));
    assert!(has_root("ゆける", "ゆ", RootKind::GodanKu, vec![Step::Potential]));
    assert!(has_root("ゆける", "ゆ", RootKind::Iku, vec![Step::Potential]));
    assert!(has_root("いける", "い", RootKind::Iku, vec![Step::Potential]));
    // ちゃう/じゃう
    assert!(has_root("のんじゃう", "の", RootKind::GodanMu, vec![Step::Chau]));
    assert!(has_root("おちちゃった", "おち", RootKind::Ichidan, vec![Step::Chau, Step::Ta]));
    assert!(has_root("しんじゃった", "し", RootKind::GodanNu, vec![Step::Chau, Step::Ta]));
    assert!(has_root("かっちゃった", "か", RootKind::GodanU, vec![Step::Chau, Step::Ta]));
    assert!(has_root("まちがっちゃった", "まちが", RootKind::GodanU, vec![Step::Chau, Step::Ta]));
    // Verb stems
    assert!(has_root("かけめぐり", "かけめぐ", RootKind::GodanRu, vec![Step::Stem]));
    assert!(has_root("もやし", "もや", RootKind::GodanSu, vec![Step::Stem]));
    assert!(has_root("ふりむき", "ふりむ", RootKind::GodanKu, vec![Step::Stem]));
    assert!(has_root("しずみ", "しず", RootKind::GodanMu, vec![Step::Stem]));
    assert!(has_root("ひろげ", "ひろげ", RootKind::Ichidan, vec![Step::Stem]));
    assert!(has_root("あい", "あ", RootKind::GodanU, vec![Step::Stem]));
    // い Adjectives
    assert!(has_root("はやく", "はや", RootKind::IAdjective, vec![Step::AdverbialKu]));
    // い past
    assert!(has_root("つまらなかった", "つまらな", RootKind::IAdjective, vec![Step::Katta]));
    // い stem
    assert!(has_root("おいし", "おいし", RootKind::IAdjective, vec![]));
    // い adjective archaic き
    assert!(has_root("ちゃいろき", "ちゃいろ", RootKind::IAdjective, vec![Step::Ki]));
    assert!(has_root("あつき", "あつ", RootKind::IAdjective, vec![Step::Ki]));
    // な Adjectives
    assert!(has_root("かすかな", "かすか", RootKind::NaAdjective, vec![Step::Na]));
    assert!(has_root("にぎやかな", "にぎやか", RootKind::NaAdjective, vec![Step::Na]));
    // んだ
    assert!(has_root("だいすきなんだ", "だいすき", RootKind::NaAdjective, vec![Step::Na, Step::Nda]));
    assert!(has_root("はじめたんだ", "はじめ", RootKind::Ichidan, vec![Step::Ta, Step::Nda]));
    // ければ
    assert!(has_root("かわいければ", "かわい", RootKind::IAdjective, vec![Step::Kereba]));
    assert!(has_root("にげださなければ", "にげだ", RootKind::GodanSu, vec![Step::Nai, Step::Kereba]));
    // なきゃ
    assert!(has_root("たちあがらなきゃ", "たちあが", RootKind::GodanRu, vec![Step::Nakya]));
    // さ
    assert!(has_root("やさしさ", "やさし", RootKind::IAdjective, vec![Step::Sa]));
    assert!(has_root("つよさ", "つよ", RootKind::IAdjective, vec![Step::Sa]));
    // てく
    assert!(has_root("ふりはらってく", "ふりはら", RootKind::GodanU, vec![Step::Teku]));
    assert!(has_root("かわってく", "かわ", RootKind::GodanRu, vec![Step::Teku]));
    assert!(has_root("よべ", "よ", RootKind::GodanBu, vec![Step::Imperative]));
}

#[test]
fn test_deconjugate_negative() {
    assert!(!has_root("いかない", "いか", RootKind::Suru, vec![Step::Nai]));
}
