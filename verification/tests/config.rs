use discord_playerlist::structs::config::{ConfigProblem, Games, SenderConfig};

#[test]
fn games_from_selector() {
    assert_eq!(Games::from("bf4"), Games::Bf4);
    assert_eq!(Games::from("bf1"), Games::Bf1);
}

#[test]
fn unknown_selector_falls_back_to_the_first_game() {
    assert_eq!(Games::from(""), Games::Bf1);
    assert_eq!(Games::from("BF4"), Games::Bf1);
    assert_eq!(Games::from("bf44"), Games::Bf1);
    assert_eq!(Games::from("bf"), Games::Bf1);
    assert_eq!(Games::from("bf5"), Games::Bf1);
}

#[test]
fn default_configuration_is_blank() {
    let cfg = SenderConfig::default();
    assert_eq!(cfg.server_name, "");
    assert_eq!(cfg.token, "");
    assert_eq!(cfg.channel, 0);
    assert!(cfg.messages.is_empty());
    assert_eq!(cfg.game, Games::Bf1);
}

#[test]
fn failed_load_falls_back_to_the_default() {
    let cfg = SenderConfig::loaded_or_default(None);
    assert_eq!(cfg.server_name, "");
    assert_eq!(cfg.channel, 0);
    assert!(cfg.messages.is_empty());
    let stored = SenderConfig {
        server_name: "srv".to_string(),
        game: Games::Bf4,
        token: "SECRET-REDACTED".to_string(),
        channel: 9,
        messages: vec![1, 2, 3],
    };
    let cfg = SenderConfig::loaded_or_default(Some(stored));
    assert_eq!(cfg.server_name, "srv");
    assert_eq!(cfg.game, Games::Bf4);
    assert_eq!(cfg.channel, 9);
    assert_eq!(cfg.messages, vec![1, 2, 3]);
}

#[test]
fn each_required_field_is_judged_by_itself() {
    let blank = SenderConfig::default();
    assert_eq!(
        blank.problems(),
        vec![ConfigProblem::ServerNameUnset, ConfigProblem::TokenUnset, ConfigProblem::ChannelUnset]
    );
    let mut cfg = SenderConfig::default();
    cfg.token = "t".to_string();
    assert_eq!(cfg.problems(), vec![ConfigProblem::ServerNameUnset, ConfigProblem::ChannelUnset]);
    cfg.channel = 5;
    assert_eq!(cfg.problems(), vec![ConfigProblem::ServerNameUnset]);
    cfg.server_name = "srv".to_string();
    assert_eq!(cfg.problems(), vec![]);
    cfg.token = String::new();
    assert_eq!(cfg.problems(), vec![ConfigProblem::TokenUnset]);
}

#[test]
fn message_table_is_replaced_and_nothing_else() {
    let cfg = SenderConfig {
        server_name: "srv".to_string(),
        game: Games::Bf4,
        token: "t".to_string(),
        channel: 9,
        messages: vec![1, 2, 3],
    };
    let cfg = cfg.with_messages(vec![]);
    assert!(cfg.messages.is_empty());
    assert_eq!(cfg.server_name, "srv");
    assert_eq!(cfg.game, Games::Bf4);
    assert_eq!(cfg.token, "t");
    assert_eq!(cfg.channel, 9);
}
