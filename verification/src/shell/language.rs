//! The languages of the shell.

use crate::text;
use vstd::prelude::*;

verus! {

pub const ENGLISH_NAMES: [&'static str; 5] = ["en", "eng", "english", "英文", "英语"];

pub const CHINESE_NAMES: [&'static str; 7] = [
    "zh",
    "cn",
    "chi",
    "chinese",
    "中文",
    "简体中文",
    "汉语",
];

pub const LANGUAGE_STATUS_WORDS: [&'static str; 9] = [
    "list",
    "status",
    "current",
    "show",
    "?",
    "列表",
    "状态",
    "当前",
    "查看",
];

#[derive(Debug, Clone, Copy, PartialEq, Eq, Structural)]
pub enum ShellLanguage {
    English,
    Chinese,
}

/// The English or the Chinese text.
pub open spec fn pick(language: ShellLanguage, english: Seq<char>, chinese: Seq<char>) -> Seq<char> {
    match language {
        ShellLanguage::English => english,
        ShellLanguage::Chinese => chinese,
    }
}

impl ShellLanguage {
    pub fn label(self) -> (r: &'static str)
        ensures
            r@ == pick(self, "English"@, "中文"@),
    {
        match self {
            ShellLanguage::English => "English",
            ShellLanguage::Chinese => "中文",
        }
    }

    pub fn code(self) -> (r: &'static str)
        ensures
            r@ == code_spec(self),
    {
        match self {
            ShellLanguage::English => "en",
            ShellLanguage::Chinese => "zh",
        }
    }

    pub fn toggled(self) -> (r: Self)
        ensures
            r == toggled_spec(self),
    {
        match self {
            ShellLanguage::English => ShellLanguage::Chinese,
            ShellLanguage::Chinese => ShellLanguage::English,
        }
    }

    /// The text in this language.
    pub fn text(self, english: &'static str, chinese: &'static str) -> (r: &'static str)
        ensures
            r@ == pick(self, english@, chinese@),
    {
        match self {
            ShellLanguage::English => english,
            ShellLanguage::Chinese => chinese,
        }
    }
}

/// The English or the Chinese lines.
pub open spec fn pick_lines(
    language: ShellLanguage,
    english: Seq<&str>,
    chinese: Seq<&str>,
) -> Seq<Seq<char>> {
    match language {
        ShellLanguage::English => text::literals(english),
        ShellLanguage::Chinese => text::literals(chinese),
    }
}

/// The lines in this language.
pub fn lines_in(
    language: ShellLanguage,
    english: &[&'static str],
    chinese: &[&'static str],
) -> (r: Vec<String>)
    ensures
        text::texts(r@) == pick_lines(language, english@, chinese@),
{
    match language {
        ShellLanguage::English => text::lines_of(english),
        ShellLanguage::Chinese => text::lines_of(chinese),
    }
}

pub open spec fn code_spec(language: ShellLanguage) -> Seq<char> {
    pick(language, "en"@, "zh"@)
}

pub open spec fn toggled_spec(language: ShellLanguage) -> ShellLanguage {
    match language {
        ShellLanguage::English => ShellLanguage::Chinese,
        ShellLanguage::Chinese => ShellLanguage::English,
    }
}

/// Trimmed and in lower case, one of the names of a language.
pub open spec fn parse_language_spec(value: Seq<char>) -> Option<ShellLanguage> {
    let word = text::ascii_lower_spec(text::trim_spec(value));
    if text::literals(ENGLISH_NAMES@).contains(word) {
        Some(ShellLanguage::English)
    } else if text::literals(CHINESE_NAMES@).contains(word) {
        Some(ShellLanguage::Chinese)
    } else {
        None
    }
}

pub fn parse_language(value: &str) -> (r: Option<ShellLanguage>)
    ensures
        r == parse_language_spec(value@),
{
    let word = text::ascii_lower(text::trim(value));
    if text::is_one_of(&word, &ENGLISH_NAMES) {
        Some(ShellLanguage::English)
    } else if text::is_one_of(&word, &CHINESE_NAMES) {
        Some(ShellLanguage::Chinese)
    } else {
        None
    }
}

/// The language that a saved file names; English where it is missing or names none.
pub fn saved_language(contents: Option<&str>) -> (r: ShellLanguage)
    ensures
        r == saved_language_spec(
            match contents {
                Some(value) => Some(value@),
                None => None,
            },
        ),
{
    match contents {
        Some(value) => match parse_language(text::trim(value)) {
            Some(language) => language,
            None => ShellLanguage::English,
        },
        None => ShellLanguage::English,
    }
}

pub open spec fn saved_language_spec(contents: Option<Seq<char>>) -> ShellLanguage {
    match contents {
        Some(value) => match parse_language_spec(text::trim_spec(value)) {
            Some(language) => language,
            None => ShellLanguage::English,
        },
        None => ShellLanguage::English,
    }
}

pub fn is_language_status_argument(value: &str) -> (r: bool)
    ensures
        r == text::literals(LANGUAGE_STATUS_WORDS@).contains(
            text::ascii_lower_spec(text::trim_spec(value@)),
        ),
{
    let word = text::ascii_lower(text::trim(value));
    text::is_one_of(&word, &LANGUAGE_STATUS_WORDS)
}

/// Switching the language twice gives the language back.
pub proof fn toggling_twice_returns(language: ShellLanguage)
    ensures
        toggled_spec(toggled_spec(language)) == language,
        toggled_spec(language) != language,
{
}

/// A saved language is the language that is read back.
pub proof fn saved_language_is_read_back(language: ShellLanguage)
    ensures
        saved_language_spec(Some(code_spec(language))) == language,
{
    reveal_strlit("en");
    reveal_strlit("zh");
    let code = code_spec(language);
    assert(code.len() == 2);
    assert(!text::white_space(code[0]) && !text::white_space(code.last()));
    assert(text::trim_spec(code) == code);
    assert(text::ascii_lower_spec(code) == code);
    assert(text::literals(ENGLISH_NAMES@)[0] == "en"@);
    assert(text::literals(CHINESE_NAMES@)[0] == "zh"@);
    if language == ShellLanguage::Chinese {
        reveal_strlit("eng");
        reveal_strlit("english");
        reveal_strlit("英文");
        reveal_strlit("英语");
        assert forall|i: int| 0 <= i < 5 implies text::literals(ENGLISH_NAMES@)[i] != code by {
            assert(text::literals(ENGLISH_NAMES@)[i] == ENGLISH_NAMES@[i]@);
            assert(code[0] == 'z');
            assert(ENGLISH_NAMES@[i]@[0] != 'z');
        }
    }
}

/// Each language speaks for itself.
pub proof fn languages_pick_their_own(english: Seq<char>, chinese: Seq<char>)
    ensures
        pick(ShellLanguage::English, english, chinese) == english,
        pick(ShellLanguage::Chinese, english, chinese) == chinese,
{
}

/// The names of the languages.
pub proof fn languages_are_known_by_their_names()
    ensures
        parse_language_spec("en"@) == Some(ShellLanguage::English),
        parse_language_spec("english"@) == Some(ShellLanguage::English),
        parse_language_spec("zh"@) == Some(ShellLanguage::Chinese),
        parse_language_spec("cn"@) == Some(ShellLanguage::Chinese),
        parse_language_spec("chinese"@) == Some(ShellLanguage::Chinese),
        parse_language_spec("中文"@) == Some(ShellLanguage::Chinese),
        parse_language_spec("英文"@) == Some(ShellLanguage::English),
        saved_language_spec(None) == ShellLanguage::English,
{
    reveal_strlit("en");
    reveal_strlit("eng");
    reveal_strlit("english");
    reveal_strlit("英文");
    reveal_strlit("英语");
    reveal_strlit("zh");
    reveal_strlit("cn");
    reveal_strlit("chinese");
    reveal_strlit("中文");
    let e = text::literals(ENGLISH_NAMES@);
    let c = text::literals(CHINESE_NAMES@);
    assert(e[0] == "en"@ && e[1] == "eng"@ && e[2] == "english"@ && e[3] == "英文"@ && e[4]
        == "英语"@);
    assert(c[0] == "zh"@ && c[1] == "cn"@ && c[3] == "chinese"@ && c[4] == "中文"@);
    assert(forall|w: Seq<char>| e.contains(w) ==> w[0] == 'e' || w[0] == '英');
    text::single_word_is_the_first("en"@);
    text::single_word_is_the_first("english"@);
    text::single_word_is_the_first("zh"@);
    text::single_word_is_the_first("cn"@);
    text::single_word_is_the_first("chinese"@);
    text::single_word_is_the_first("中文"@);
    text::single_word_is_the_first("英文"@);
    text::lemma_lower_stays("en"@);
    text::lemma_lower_stays("english"@);
    text::lemma_lower_stays("zh"@);
    text::lemma_lower_stays("cn"@);
    text::lemma_lower_stays("chinese"@);
    text::lemma_lower_stays("中文"@);
    text::lemma_lower_stays("英文"@);
    assert("zh"@[0] == 'z' && "cn"@[0] == 'c' && "chinese"@[0] == 'c' && "中文"@[0] == '中');
}

} // verus!
