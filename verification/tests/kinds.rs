use discordanalytics::data::InteractionType;

const KINDS: [(InteractionType, &str); 5] = [
    (InteractionType::Ping, "Ping"),
    (InteractionType::ApplicationCommand, "ApplicationCommand"),
    (InteractionType::MessageComponent, "MessageComponent"),
    (InteractionType::ApplicationCommandAutocomplete, "ApplicationCommandAutocomplete"),
    (InteractionType::ModalSubmit, "ModalSubmit"),
];

#[test]
fn kind_names() {
    for (kind, name) in KINDS {
        assert_eq!(kind.to_string(), name);
    }
}

#[test]
fn kind_names_lead_back() {
    for (kind, name) in KINDS {
        assert_eq!(InteractionType::from_name(name), Some(kind));
        assert_eq!(InteractionType::from_name(&kind.to_string()), Some(kind));
    }
}

#[test]
fn unknown_kind_names() {
    assert_eq!(InteractionType::from_name(""), None);
    assert_eq!(InteractionType::from_name("ping"), None);
    assert_eq!(InteractionType::from_name("Ping "), None);
    assert_eq!(InteractionType::from_name("ApplicationCommandAuto"), None);
    assert_eq!(InteractionType::from_name("2"), None);
}
