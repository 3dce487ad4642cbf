use discordanalytics::counters::{
    count_interaction, count_locale, interaction_count, interactions_fit, locale_count,
    locales_fit, merge_interactions, merge_locales,
};
use discordanalytics::data::{InteractionData, InteractionType, LocaleData};

fn interaction(name: &str, number: i32, interaction_type: InteractionType) -> InteractionData {
    InteractionData { name: name.to_string(), number, interaction_type }
}

fn locale(locale: &str, number: i32) -> LocaleData {
    LocaleData { locale: locale.to_string(), number }
}

#[test]
fn counting_a_locale_several_times_at_once() {
    let mut list = vec![locale("fr", 2), locale("de", 7)];
    count_locale(&mut list, "de".to_string(), 5);
    assert_eq!(list, vec![locale("fr", 2), locale("de", 12)]);
    count_locale(&mut list, "es".to_string(), 3);
    assert_eq!(list, vec![locale("fr", 2), locale("de", 12), locale("es", 3)]);
    count_locale(&mut list, "fr".to_string(), i32::MAX - 2);
    assert_eq!(list, vec![locale("fr", i32::MAX), locale("de", 12), locale("es", 3)]);
}

#[test]
fn counting_an_interaction_several_times_at_once() {
    let mut list = vec![interaction("a", 1, InteractionType::ModalSubmit)];
    count_interaction(&mut list, "a".to_string(), InteractionType::MessageComponent, 4);
    count_interaction(&mut list, "a".to_string(), InteractionType::ModalSubmit, 2);
    assert_eq!(
        list,
        vec![
            interaction("a", 3, InteractionType::ModalSubmit),
            interaction("a", 4, InteractionType::MessageComponent),
        ]
    );
}

#[test]
fn looking_counters_up() {
    let locales = vec![locale("fr", 2), locale("de", 7)];
    assert_eq!(locale_count(&locales, &"fr".to_string()), 2);
    assert_eq!(locale_count(&locales, &"de".to_string()), 7);
    assert_eq!(locale_count(&locales, &"FR".to_string()), 0);
    assert_eq!(locale_count(&Vec::new(), &"fr".to_string()), 0);
    let interactions = vec![
        interaction("a", 3, InteractionType::ModalSubmit),
        interaction("a", 4, InteractionType::MessageComponent),
    ];
    let a = "a".to_string();
    assert_eq!(interaction_count(&interactions, &a, InteractionType::ModalSubmit), 3);
    assert_eq!(interaction_count(&interactions, &a, InteractionType::MessageComponent), 4);
    assert_eq!(interaction_count(&interactions, &a, InteractionType::Ping), 0);
    assert_eq!(interaction_count(&interactions, &"b".to_string(), InteractionType::ModalSubmit), 0);
}

#[test]
fn merging_keeps_the_first_list_in_front() {
    let mut into = vec![locale("fr", 2), locale("de", 7)];
    let from = vec![locale("es", 1), locale("de", 3), locale("it", 4)];
    assert!(locales_fit(&into, &from));
    merge_locales(&mut into, &from);
    assert_eq!(into, vec![locale("fr", 2), locale("de", 10), locale("es", 1), locale("it", 4)]);
    merge_locales(&mut into, &Vec::new());
    assert_eq!(into, vec![locale("fr", 2), locale("de", 10), locale("es", 1), locale("it", 4)]);

    let mut into = vec![interaction("a", 1, InteractionType::Ping)];
    let from = vec![
        interaction("a", 1, InteractionType::ApplicationCommand),
        interaction("a", 5, InteractionType::Ping),
    ];
    assert!(interactions_fit(&into, &from));
    merge_interactions(&mut into, &from);
    assert_eq!(
        into,
        vec![
            interaction("a", 6, InteractionType::Ping),
            interaction("a", 1, InteractionType::ApplicationCommand),
        ]
    );
}

#[test]
fn lists_that_fit_and_lists_that_do_not() {
    let into = vec![locale("fr", i32::MAX - 3), locale("de", 1)];
    assert!(locales_fit(&into, &vec![locale("fr", 3), locale("de", i32::MAX - 1)]));
    assert!(locales_fit(&into, &vec![locale("es", i32::MAX)]));
    assert!(locales_fit(&into, &Vec::new()));
    assert!(!locales_fit(&into, &vec![locale("fr", 4)]));
    assert!(!locales_fit(&into, &vec![locale("es", 1), locale("de", i32::MAX)]));
    let into = vec![interaction("a", i32::MAX, InteractionType::Ping)];
    assert!(interactions_fit(&into, &vec![interaction("a", 1, InteractionType::ModalSubmit)]));
    assert!(!interactions_fit(&into, &vec![interaction("a", 1, InteractionType::Ping)]));
}
