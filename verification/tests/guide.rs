use echo_cli::shell::catalogue::{localized_command_description, DESCRIPTIONS};
use echo_cli::shell::help::{help_lines, HelpPage, TOPICS_EN, TOPICS_ZH};
use echo_cli::shell::language::ShellLanguage;

#[test]
fn alias_topics_give_the_same_help() {
    for (alias, topic) in [
        ("add", "scan"),
        ("find", "search"),
        ("list", "library"),
        ("songs", "library"),
        ("tracks", "library"),
        ("results", "library"),
        ("shuffle", "play"),
        ("reveal", "open"),
        ("where", "open"),
        ("current", "info"),
        ("repeat", "again"),
        ("cls", "clear"),
        ("exit", "quit"),
        ("outputs", "devices"),
        ("health", "doctor"),
        ("status", "devices"),
        ("previous", "next"),
        ("keys", "shortcuts"),
    ] {
        let lines = help_lines(alias);
        assert_eq!(lines, help_lines(topic), "{}", alias);
        assert_eq!(lines, help_lines(&format!(" /{} ", topic.to_uppercase())));
        assert!(!lines[0].starts_with("no help topic for"), "{}", alias);
    }
    assert_eq!(help_lines("nonsense")[0], "no help topic for: nonsense");
}

#[test]
fn every_topic_has_one_page() {
    for table in [&TOPICS_EN[..], &TOPICS_ZH[..]] {
        for pair in table.windows(2) {
            assert!(pair[0].0 < pair[1].0, "{:?}", pair);
        }
    }
    for (topic, page) in TOPICS_EN {
        for (other, other_page) in TOPICS_EN {
            if page == other_page {
                assert_eq!(help_lines(topic), help_lines(other));
            }
        }
    }
    assert!(TOPICS_EN.iter().any(|(topic, page)| topic.is_empty() && *page == HelpPage::Overview));
}

#[test]
fn descriptions_are_translated_once() {
    for (english, chinese) in DESCRIPTIONS {
        assert_eq!(localized_command_description(english, ShellLanguage::English), english);
        let translated = localized_command_description(english, ShellLanguage::Chinese);
        assert_eq!(translated, chinese);
        for language in [ShellLanguage::English, ShellLanguage::Chinese] {
            assert_eq!(localized_command_description(translated, language), translated);
        }
    }
    assert_eq!(
        localized_command_description("not listed", ShellLanguage::Chinese),
        "not listed"
    );
}
