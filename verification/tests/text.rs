use cyrio::kana::{contains_kana, is_kana, kana_syllables, kana_to_romaji};
use cyrio::slug::{to_slug, SlugOptions};
use cyrio::rules::is_builtin_stop_word;
use cyrio::strip::{strip_noise, StripOptions};

#[test]
fn hiragana_basic() {
    assert_eq!(kana_to_romaji("あいうえお"), "aiueo");
    assert_eq!(kana_to_romaji("かきくけこ"), "kakikukeko");
    assert_eq!(kana_to_romaji("さしすせそ"), "sashisuseso");
    assert_eq!(kana_to_romaji("たちつてと"), "tachitsuteto");
    assert_eq!(kana_to_romaji("なにぬねの"), "naninuneno");
    assert_eq!(kana_to_romaji("はひふへほ"), "hahifuheho");
    assert_eq!(kana_to_romaji("まみむめも"), "mamimumemo");
    assert_eq!(kana_to_romaji("やゆよ"), "yayuyo");
    assert_eq!(kana_to_romaji("らりるれろ"), "rarirurero");
}

#[test]
fn hiragana_dakuten() {
    assert_eq!(kana_to_romaji("がぎぐげご"), "gagigugego");
    assert_eq!(kana_to_romaji("ざじずぜぞ"), "zajizuzezo");
    assert_eq!(kana_to_romaji("だぢづでど"), "dadidudedo");
    assert_eq!(kana_to_romaji("ばびぶべぼ"), "babibubebo");
    assert_eq!(kana_to_romaji("ぱぴぷぺぽ"), "papipupepo");
}

#[test]
fn katakana_basic() {
    assert_eq!(kana_to_romaji("アイウエオ"), "aiueo");
    assert_eq!(kana_to_romaji("カキクケコ"), "kakikukeko");
    assert_eq!(kana_to_romaji("サシスセソ"), "sashisuseso");
    assert_eq!(kana_to_romaji("タチツテト"), "tachitsuteto");
}

#[test]
fn yoon_combinations() {
    assert_eq!(kana_to_romaji("きゃ"), "kya");
    assert_eq!(kana_to_romaji("きゅ"), "kyu");
    assert_eq!(kana_to_romaji("きょ"), "kyo");
    assert_eq!(kana_to_romaji("しゃ"), "sha");
    assert_eq!(kana_to_romaji("しゅ"), "shu");
    assert_eq!(kana_to_romaji("しょ"), "sho");
    assert_eq!(kana_to_romaji("ちゃ"), "cha");
    assert_eq!(kana_to_romaji("ちゅ"), "chu");
    assert_eq!(kana_to_romaji("ちょ"), "cho");
    assert_eq!(kana_to_romaji("にゃ"), "nya");
    assert_eq!(kana_to_romaji("りゃ"), "rya");
    // 片假名拗音
    assert_eq!(kana_to_romaji("キャ"), "kya");
    assert_eq!(kana_to_romaji("シュ"), "shu");
    assert_eq!(kana_to_romaji("チョ"), "cho");
}

#[test]
fn sokuon() {
    assert_eq!(kana_to_romaji("がっこう"), "gakkou");
    assert_eq!(kana_to_romaji("まった"), "matta");
    assert_eq!(kana_to_romaji("きって"), "kitte");
    assert_eq!(kana_to_romaji("サッカ"), "sakka");
}

#[test]
fn prolonged_mark() {
    assert_eq!(kana_to_romaji("すー"), "suu");
    assert_eq!(kana_to_romaji("かー"), "kaa");
    assert_eq!(kana_to_romaji("コー"), "koo");
}

#[test]
fn n_before_bpm() {
    assert_eq!(kana_to_romaji("さんぽ"), "sampo");
    assert_eq!(kana_to_romaji("しんぶん"), "shimbun");
}

#[test]
fn mixed_kana() {
    assert_eq!(kana_to_romaji("ありがとう"), "arigatou");
    assert_eq!(kana_to_romaji("サクラ"), "sakura");
    assert_eq!(kana_to_romaji("おはよう"), "ohayou");
}

#[test]
fn non_kana_passthrough() {
    assert_eq!(kana_to_romaji("hello"), "hello");
    assert_eq!(kana_to_romaji("test 123"), "test 123");
}

#[test]
fn mixed_text() {
    // 混合假名和非假名
    assert_eq!(kana_to_romaji("Song ありがとう"), "Song arigatou");
}

#[test]
fn contains_kana_check() {
    assert!(contains_kana("ありがとう"));
    assert!(contains_kana("サクラ"));
    assert!(!contains_kana("hello"));
    assert!(!contains_kana("中文"));
}

#[test]
fn empty_string() {
    assert_eq!(kana_to_romaji(""), "");
}

#[test]
fn to_slug_basic() {
    let opts = SlugOptions::default();
    assert_eq!(
        to_slug("【洛天依 原创】赛马", &opts),
        "【Luo-Tian-Yi Yuan-Chuang】 Sai-Ma"
    );
}

#[test]
fn to_slug_single_word() {
    let opts = SlugOptions::default();
    assert_eq!(to_slug("赛马", &opts), "Sai-Ma");
}

#[test]
fn to_slug_keeps_english() {
    let opts = SlugOptions::default();
    // 英文原样保留，中文转拼音
    assert_eq!(to_slug("My Song 我的歌", &opts), "My Song Wo-De-Ge");
}

#[test]
fn to_slug_pure_chinese() {
    let opts = SlugOptions::default();
    assert_eq!(to_slug("测试", &opts), "Ce-Shi");
}

#[test]
fn to_slug_no_capitalize() {
    let opts = SlugOptions {
        capitalize: false,
        ..Default::default()
    };
    assert_eq!(to_slug("赛马", &opts), "sai-ma");
}

#[test]
fn to_slug_custom_separator() {
    let opts = SlugOptions {
        separator: '_',
        ..Default::default()
    };
    assert_eq!(to_slug("赛马", &opts), "Sai_Ma");
}

#[test]
fn to_slug_no_punctuation() {
    let opts = SlugOptions {
        keep_punctuation: false,
        ..Default::default()
    };
    // 去除标点：【】 被移除
    assert_eq!(to_slug("【洛天依】赛马", &opts), "Luo-Tian-Yi Sai-Ma");
}

#[test]
fn to_slug_empty() {
    let opts = SlugOptions::default();
    assert_eq!(to_slug("", &opts), "");
}

#[test]
fn to_slug_pure_english() {
    let opts = SlugOptions::default();
    assert_eq!(to_slug("Hello World", &opts), "Hello World");
}

#[test]
fn to_slug_with_parentheses() {
    let opts = SlugOptions::default();
    // 圆括号也是开括号，后不插空格
    assert_eq!(to_slug("(洛天依)赛马", &opts), "(Luo-Tian-Yi) Sai-Ma");
}

#[test]
fn to_slug_katakana() {
    let opts = SlugOptions::default();
    assert_eq!(to_slug("サクラ", &opts), "Sa-Ku-Ra");
}

#[test]
fn to_slug_hiragana() {
    let opts = SlugOptions::default();
    assert_eq!(to_slug("ありがとう", &opts), "A-Ri-Ga-To-U");
}

#[test]
fn to_slug_mixed_chinese_kana() {
    let opts = SlugOptions::default();
    // 中文和假名混合，中文和假名部分用分隔符连接
    let result = to_slug("歌サクラ", &opts);
    assert_eq!(result, "Ge-Sa-Ku-Ra");
}

#[test]
fn to_slug_japanese_with_yoon() {
    let opts = SlugOptions::default();
    // 拗音测试
    assert_eq!(to_slug("きょう", &opts), "Kyo-U");
}

#[test]
fn to_slug_japanese_with_sokuon() {
    let opts = SlugOptions::default();
    // 促音测试
    assert_eq!(to_slug("がっこう", &opts), "Ga-Kko-U");
}

#[test]
fn to_slug_fullwidth_to_halfwidth() {
    let opts = SlugOptions::default();
    // 全角字母数字转半角
    assert_eq!(to_slug("ＡＢＣ１２３", &opts), "ABC123");
}

#[test]
fn to_slug_fullwidth_space() {
    let opts = SlugOptions::default();
    // 全角空格转半角空格，中文仍转拼音
    assert_eq!(to_slug("歌　曲", &opts), "Ge Qu");
}

#[test]
fn to_slug_mixed_all() {
    let opts = SlugOptions::default();
    // 中文 + 日语 + 英文混合
    let result = to_slug("我的歌 My Song サクラ", &opts);
    assert_eq!(result, "Wo-De-Ge My Song Sa-Ku-Ra");
}

#[test]
fn syllables_split_and_rejoin() {
    let s = kana_syllables("がっこうー abc");
    assert_eq!(s, vec!["が", "っこ", "うー", " ", "a", "b", "c"]);
    assert_eq!(s.concat(), "がっこうー abc");
}

#[test]
fn syllables_of_yoon_and_leading_mark() {
    assert_eq!(kana_syllables("ーきょう"), vec!["ー", "きょ", "う"]);
    assert_eq!(kana_syllables("っ"), vec!["っ"]);
    assert_eq!(kana_syllables(""), Vec::<String>::new());
}

#[test]
fn kana_range_edges() {
    assert!(is_kana('\u{3040}'));
    assert!(is_kana('\u{30FF}'));
    assert!(!is_kana('\u{303F}'));
    assert!(!is_kana('\u{3100}'));
}

#[test]
fn sokuon_after_n_is_not_doubled() {
    assert_eq!(kana_to_romaji("んっか"), "nka");
    assert_eq!(kana_to_romaji("っ"), "");
    assert_eq!(kana_to_romaji("ー"), "");
}

#[test]
fn builtin_stop_words_are_case_sensitive() {
    assert!(is_builtin_stop_word("Hi-Res"));
    assert!(is_builtin_stop_word("在百万级播音室大声听"));
    assert!(!is_builtin_stop_word("HI-RES"));
    assert!(!is_builtin_stop_word(""));
}

#[test]
fn slug_plain_text_unchanged() {
    let opts = SlugOptions::default();
    assert_eq!(to_slug("Track 01 - (Live)!", &opts), "Track 01 - (Live)!");
}

#[test]
fn slug_drops_punctuation_when_asked() {
    let opts = SlugOptions { keep_punctuation: false, ..Default::default() };
    assert_eq!(to_slug("a-b!c", &opts), "abc");
}

#[test]
fn slug_default_options() {
    let opts = SlugOptions::default();
    assert!(opts.keep_punctuation);
    assert_eq!(opts.separator, '-');
    assert!(opts.capitalize);
}

#[test]
fn strip_removes_quality_tags() {
    let opts = StripOptions::default();
    let result = strip_noise("歌曲 Hi-Res 无损 4K", &opts);
    assert_eq!(result.cleaned, "歌曲");
}

#[test]
fn strip_removes_parens() {
    let opts = StripOptions::default();
    let result = strip_noise("歌曲（活动名称）", &opts);
    assert_eq!(result.cleaned, "歌曲");
    assert!(result.removed.contains(&"活动名称".to_string()));
}

#[test]
fn strip_removes_brackets() {
    let opts = StripOptions::default();
    let result = strip_noise("歌曲【现场版】", &opts);
    assert_eq!(result.cleaned, "歌曲");
    assert!(result.removed.contains(&"现场版".to_string()));
}

#[test]
fn strip_removes_english_parens() {
    let opts = StripOptions::default();
    let result = strip_noise("歌曲 (Live Version)", &opts);
    assert_eq!(result.cleaned, "歌曲");
}

#[test]
fn strip_removes_quotes() {
    let opts = StripOptions::default();
    let result = strip_noise("歌曲 \"歌词片段\"", &opts);
    assert_eq!(result.cleaned, "歌曲");
}

#[test]
fn strip_removes_chinese_quotes() {
    let opts = StripOptions::default();
    let result = strip_noise("歌曲“歌词片段”", &opts);
    assert_eq!(result.cleaned, "歌曲");
}

#[test]
fn strip_preserves_normal() {
    let opts = StripOptions::default();
    let result = strip_noise("我的歌曲", &opts);
    assert_eq!(result.cleaned, "我的歌曲");
    assert!(result.removed.is_empty());
}

#[test]
fn strip_custom_words() {
    let opts = StripOptions {
        custom_stop_words: vec!["自定义词".to_string()],
        ..Default::default()
    };
    let result = strip_noise("歌曲 自定义词", &opts);
    assert_eq!(result.cleaned, "歌曲");
}

#[test]
fn strip_combined() {
    let opts = StripOptions::default();
    let result = strip_noise("【洛天依 原创】Hi-Res 无损 4K 赛马", &opts);
    assert_eq!(result.cleaned, "赛马");
}

#[test]
fn strip_preserves_content_no_quality_tags() {
    let opts = StripOptions {
        strip_quality_tags: false,
        ..Default::default()
    };
    let result = strip_noise("歌曲 4K", &opts);
    assert_eq!(result.cleaned, "歌曲 4K");
}

#[test]
fn strip_nested_parens() {
    let opts = StripOptions::default();
    let result = strip_noise("歌曲（活动（内层）名称）", &opts);
    assert_eq!(result.cleaned, "歌曲");
}

#[test]
fn strip_unclosed_parens_preserved() {
    let opts = StripOptions::default();
    // 未闭合括号 - 内容保留（避免数据丢失）
    let result = strip_noise("歌曲（未闭合", &opts);
    assert_eq!(result.cleaned, "歌曲（未闭合");
}

#[test]
fn strip_bilibili_source() {
    let opts = StripOptions::default();
    let result = strip_noise("歌曲 bilibili 4K", &opts);
    assert_eq!(result.cleaned, "歌曲");
}

#[test]
fn strip_user_example() {
    // 用户示例：去除"在百万级播音室大声听"
    let opts = StripOptions::default();
    let result = strip_noise("歌曲 在百万级播音室大声听", &opts);
    assert_eq!(result.cleaned, "歌曲");
}

#[test]
fn strip_collapse_whitespace() {
    let opts = StripOptions::default();
    let result = strip_noise("歌曲    4K   无损", &opts);
    assert_eq!(result.cleaned, "歌曲");
}

#[test]
fn strip_reports_removed_in_order() {
    let opts = StripOptions::default();
    let r = strip_noise("A (x) \"y\" 4K B", &opts);
    assert_eq!(r.cleaned, "A B");
    assert_eq!(r.removed, vec!["x".to_string(), "y".to_string(), "4K".to_string()]);
}

#[test]
fn strip_longer_word_first() {
    // "Hi-Res" is removed as a whole before any shorter tag could split it.
    let opts = StripOptions::default();
    let r = strip_noise("Song Hi-Res", &opts);
    assert_eq!(r.cleaned, "Song");
    assert_eq!(r.removed, vec!["Hi-Res".to_string()]);
}

#[test]
fn strip_unclosed_quote_keeps_text() {
    let opts = StripOptions::default();
    let r = strip_noise("Song \"part", &opts);
    assert_eq!(r.cleaned, "Song part");
    assert!(r.removed.is_empty());
}

#[test]
fn strip_nothing_when_all_off() {
    let opts = StripOptions {
        custom_stop_words: vec![],
        strip_parentheses: false,
        strip_quotes: false,
        strip_quality_tags: false,
    };
    let r = strip_noise("  A  (4K)  ", &opts);
    assert_eq!(r.cleaned, "A (4K)");
    assert!(r.removed.is_empty());
}

#[test]
fn strip_stray_closing_bracket_kept() {
    let opts = StripOptions::default();
    let r = strip_noise("A) B", &opts);
    assert_eq!(r.cleaned, "A) B");
}

#[test]
fn unicode_whitespace_collapses_to_one_space() {
    let opts = StripOptions {
        strip_parentheses: false,
        strip_quotes: false,
        strip_quality_tags: false,
        custom_stop_words: Vec::new(),
    };
    let r = strip_noise("\u{2003}a\u{2003}\u{3000}\u{85}b\u{A0}", &opts);
    assert_eq!(r.cleaned, "a b");
    let r = strip_noise("x\u{200B}y", &opts);
    assert_eq!(r.cleaned, "x\u{200B}y");
}

#[test]
fn romaji_keeps_text_without_kana() {
    assert_eq!(kana_to_romaji("hello 世界 123"), "hello 世界 123");
}

#[test]
fn syllables_are_short_and_nonempty() {
    let s = kana_syllables("がっこうきょう");
    assert!(s.iter().all(|x| !x.is_empty() && x.chars().count() <= 3));
    assert_eq!(s.concat(), "がっこうきょう");
}
