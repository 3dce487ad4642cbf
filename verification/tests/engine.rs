use discordanalytics::analytics::{
    flush_interval, registration_step, reporting_goes_on, retry_delay, DiscordAnalytics,
    InteractionEvent, RegistrationStep, FREQUENT_INTERVAL, NORMAL_INTERVAL,
};
use discordanalytics::data::{
    Data, GuildMembersData, InteractionData, InteractionType, LocaleData,
};
use discordanalytics::guilds::GuildInfo;
use discordanalytics::payload::{BotIdentity, InteractionEntry};
use discordanalytics::report::{Header, Method, ReportError};

fn engine() -> DiscordAnalytics {
    DiscordAnalytics::with_date("secret".to_string(), true, "2024-02-29".to_string())
}

fn ready_engine() -> DiscordAnalytics {
    let mut engine = engine();
    assert_eq!(engine.initialize(Some(200)), Ok(()));
    engine
}

fn command(name: &str, locale: &str) -> InteractionEvent {
    InteractionEvent::Command { locale: locale.to_string(), name: name.to_string() }
}

fn track(engine: &mut DiscordAnalytics, event: InteractionEvent) {
    assert!(engine.is_ready());
    assert!(engine.can_track(&event));
    engine.track_interactions(event);
}

fn guild(member_count: u64, preferred_locale: &str) -> GuildInfo {
    GuildInfo { member_count, preferred_locale: preferred_locale.to_string() }
}

fn interaction(name: &str, number: i32, interaction_type: InteractionType) -> InteractionData {
    InteractionData { name: name.to_string(), number, interaction_type }
}

fn locale(locale: &str, number: i32) -> LocaleData {
    LocaleData { locale: locale.to_string(), number }
}

fn zero() -> GuildMembersData {
    GuildMembersData { little: 0, medium: 0, big: 0, huge: 0 }
}

#[test]
fn new_engine_is_not_ready_and_has_counted_nothing() {
    let engine = engine();
    assert!(!engine.is_ready());
    assert!(engine.debug());
    assert_eq!(
        engine.data(),
        &Data {
            date: "2024-02-29".to_string(),
            guilds: 0,
            users: 0,
            interactions: vec![],
            locales: vec![],
            guilds_locales: vec![],
            guild_members: zero(),
        }
    );
}

#[test]
fn new_engine_is_dated_today() {
    let before = chrono::Utc::now().date_naive();
    let engine = DiscordAnalytics::new("secret".to_string(), false);
    let after = chrono::Utc::now().date_naive();
    assert!(!engine.is_ready());
    assert!(!engine.debug());
    let date = chrono::NaiveDate::parse_from_str(&engine.data().date, "%Y-%m-%d").unwrap();
    assert!(before <= date && date <= after);
    assert_eq!(engine.data().date.len(), 10);
    assert_eq!(engine.data().guilds, 0);
    assert_eq!(engine.data().users, 0);
    assert_eq!(engine.data().interactions, vec![]);
    assert_eq!(engine.data().locales, vec![]);
    assert_eq!(engine.data().guilds_locales, vec![]);
    assert_eq!(engine.data().guild_members, zero());
}

#[test]
fn registration_taken_makes_ready() {
    let mut engine = engine();
    assert_eq!(engine.initialize(Some(200)), Ok(()));
    assert!(engine.is_ready());
}

#[test]
fn registration_rejected_for_the_credential_is_fatal() {
    let mut engine = engine();
    let outcome = engine.initialize(Some(401));
    assert_eq!(outcome, Err(ReportError::AuthError));
    assert!(outcome.unwrap_err().is_fatal());
    assert!(!engine.is_ready());
    assert_eq!(engine.initialize(Some(401)), Err(ReportError::AuthError));
    assert!(!engine.is_ready());
}

#[test]
fn registration_of_a_suspended_bot_is_fatal() {
    let mut engine = engine();
    let outcome = engine.initialize(Some(423));
    assert_eq!(outcome, Err(ReportError::SuspendedError));
    assert!(outcome.unwrap_err().is_fatal());
    assert!(!engine.is_ready());
}

#[test]
fn registration_that_fails_otherwise_can_be_tried_again() {
    let mut engine = engine();
    let outcome = engine.initialize(Some(503));
    assert_eq!(outcome, Err(ReportError::ProtocolError));
    assert!(!outcome.unwrap_err().is_fatal());
    assert!(!engine.is_ready());
    let outcome = engine.initialize(None);
    assert_eq!(outcome, Err(ReportError::TransportError));
    assert!(!outcome.unwrap_err().is_fatal());
    assert!(!engine.is_ready());
    assert_eq!(engine.initialize(Some(200)), Ok(()));
    assert!(engine.is_ready());
}

#[test]
fn a_ready_engine_stays_ready() {
    let mut engine = ready_engine();
    assert_eq!(engine.initialize(Some(401)), Err(ReportError::AuthError));
    assert!(engine.is_ready());
    assert_eq!(engine.initialize(None), Err(ReportError::TransportError));
    assert!(engine.is_ready());
}

#[test]
fn events_are_counted_by_kind() {
    let mut engine = ready_engine();
    track(&mut engine, command("help", "fr"));
    track(
        &mut engine,
        InteractionEvent::Autocomplete { locale: "fr".to_string(), name: "help".to_string() },
    );
    track(
        &mut engine,
        InteractionEvent::Component { locale: "de".to_string(), custom_id: "button".to_string() },
    );
    track(
        &mut engine,
        InteractionEvent::Modal { locale: "de".to_string(), custom_id: "form".to_string() },
    );
    track(&mut engine, InteractionEvent::Ping);
    track(&mut engine, command("help", "en-GB"));
    assert_eq!(
        engine.data().interactions,
        vec![
            interaction("help", 2, InteractionType::ApplicationCommand),
            interaction("help", 1, InteractionType::ApplicationCommandAutocomplete),
            interaction("button", 1, InteractionType::MessageComponent),
            interaction("form", 1, InteractionType::ModalSubmit),
            interaction("", 1, InteractionType::Ping),
        ]
    );
    assert_eq!(
        engine.data().locales,
        vec![locale("fr", 2), locale("de", 2), locale("", 1), locale("en-GB", 1)]
    );
}

#[test]
fn two_commands_are_reported_as_one_entry_of_two() {
    let mut engine = engine();
    assert_eq!(engine.initialize(Some(200)), Ok(()));
    track(&mut engine, command("test", "en-US"));
    track(&mut engine, command("test", "en-US"));
    let sent = engine.send_data_at("2024-03-01".to_string(), 1, 10, &vec![guild(10, "en-US")]);
    let (endpoint, payload) = engine.stats_request(42, &sent);
    assert_eq!(endpoint.method, Method::Post);
    assert_eq!(endpoint.url, "https://discordanalytics.xyz/api/bots/42/stats");
    assert_eq!(
        payload.interactions,
        vec![InteractionEntry {
            name: "test".to_string(),
            number: 2,
            interaction_type: "ApplicationCommand".to_string(),
        }]
    );
    assert_eq!(payload.locales, vec![locale("en-US", 2)]);
    assert_eq!(payload.guilds_locales, vec![locale("en-US", 1)]);
    assert_eq!(payload.guild_members, GuildMembersData { little: 1, medium: 0, big: 0, huge: 0 });
    assert_eq!(payload.date, "2024-03-01");
    assert_eq!(payload.guilds, 1);
    assert_eq!(payload.users, 10);
}

#[test]
fn the_window_sent_carries_what_is_derived_from_the_guilds() {
    let mut engine = ready_engine();
    track(&mut engine, command("a", "fr"));
    let guilds = vec![guild(50, "fr"), guild(5000, ""), guild(101, "de"), guild(100, "fr")];
    let sent = engine.send_data_at("2024-03-01".to_string(), 4, 5251, &guilds);
    assert_eq!(
        sent,
        Data {
            date: "2024-03-01".to_string(),
            guilds: 4,
            users: 5251,
            interactions: vec![interaction("a", 1, InteractionType::ApplicationCommand)],
            locales: vec![locale("fr", 1)],
            guilds_locales: vec![locale("fr", 2), locale("de", 1)],
            guild_members: GuildMembersData { little: 2, medium: 1, big: 0, huge: 1 },
        }
    );
}

#[test]
fn after_a_report_that_was_taken_the_window_is_fresh() {
    let mut engine = ready_engine();
    track(&mut engine, command("a", "fr"));
    track(&mut engine, command("b", "fr"));
    let guilds = vec![guild(50, "fr"), guild(600, "de")];
    let sent = engine.send_data_at("2024-03-01".to_string(), 2, 650, &guilds);
    let fresh = Data {
        date: "2024-03-01".to_string(),
        guilds: 2,
        users: 650,
        interactions: vec![],
        locales: vec![],
        guilds_locales: vec![],
        guild_members: GuildMembersData { little: 1, medium: 0, big: 1, huge: 0 },
    };
    assert_eq!(engine.data(), &fresh);
    assert_eq!(engine.data_sent(sent, Some(200)), Ok(()));
    assert_eq!(engine.data(), &fresh);
    assert!(engine.is_ready());
}

#[test]
fn any_status_of_success_counts_as_taken() {
    for status in [200, 201, 204, 299] {
        let mut engine = ready_engine();
        track(&mut engine, command("a", "fr"));
        let sent = engine.send_data_at("d".to_string(), 0, 0, &vec![]);
        assert_eq!(engine.data_sent(sent, Some(status)), Ok(()));
        assert_eq!(engine.data().interactions, vec![]);
        assert_eq!(engine.data().locales, vec![]);
    }
}

#[test]
fn after_a_report_that_failed_the_counters_are_sent_again() {
    let mut engine = ready_engine();
    track(&mut engine, command("test", "fr"));
    track(&mut engine, command("test", "de"));
    track(&mut engine, command("other", "de"));
    let counters = engine.data().interactions.clone();
    let locales = engine.data().locales.clone();
    let guilds = vec![guild(50, "fr")];

    let sent = engine.send_data_at("2024-03-01".to_string(), 1, 50, &guilds);
    let first = engine.stats_request(7, &sent).1;
    assert!(engine.can_restore(&sent));
    let outcome = engine.data_sent(sent, Some(500));
    assert_eq!(outcome, Err(ReportError::ProtocolError));
    assert!(!outcome.unwrap_err().is_fatal());
    assert!(engine.is_ready());
    assert_eq!(engine.data().interactions, counters);
    assert_eq!(engine.data().locales, locales);

    let sent = engine.send_data_at("2024-03-01".to_string(), 1, 50, &guilds);
    let second = engine.stats_request(7, &sent).1;
    assert_eq!(second, first);
    assert_eq!(
        second.interactions,
        vec![
            InteractionEntry {
                name: "test".to_string(),
                number: 2,
                interaction_type: "ApplicationCommand".to_string(),
            },
            InteractionEntry {
                name: "other".to_string(),
                number: 1,
                interaction_type: "ApplicationCommand".to_string(),
            },
        ]
    );
    assert_eq!(engine.data_sent(sent, Some(200)), Ok(()));
    assert_eq!(engine.data().interactions, vec![]);
}

#[test]
fn events_go_on_counting_over_a_report_that_failed() {
    let mut engine = ready_engine();
    track(&mut engine, command("a", "fr"));
    let sent = engine.send_data_at("d1".to_string(), 3, 4, &vec![]);
    track(&mut engine, command("a", "fr"));
    track(&mut engine, command("b", "es"));
    assert!(engine.can_restore(&sent));
    assert_eq!(engine.data_sent(sent, None), Err(ReportError::TransportError));
    track(&mut engine, command("a", "de"));
    assert_eq!(
        engine.data().interactions,
        vec![
            interaction("a", 3, InteractionType::ApplicationCommand),
            interaction("b", 1, InteractionType::ApplicationCommand),
        ]
    );
    assert_eq!(
        engine.data().locales,
        vec![locale("fr", 2), locale("es", 1), locale("de", 1)]
    );
    let sent = engine.send_data_at("d2".to_string(), 5, 6, &vec![]);
    assert_eq!(sent.date, "d2");
    assert_eq!(sent.guilds, 5);
    assert_eq!(sent.users, 6);
    assert_eq!(
        sent.interactions,
        vec![
            interaction("a", 3, InteractionType::ApplicationCommand),
            interaction("b", 1, InteractionType::ApplicationCommand),
        ]
    );
}

#[test]
fn a_report_rejected_for_the_credential_is_fatal_and_keeps_the_counters() {
    let mut engine = ready_engine();
    track(&mut engine, command("a", "fr"));
    let sent = engine.send_data_at("d".to_string(), 0, 0, &vec![]);
    assert!(engine.can_restore(&sent));
    let outcome = engine.data_sent(sent, Some(401));
    assert_eq!(outcome, Err(ReportError::AuthError));
    assert!(outcome.unwrap_err().is_fatal());
    assert_eq!(
        engine.data().interactions,
        vec![interaction("a", 1, InteractionType::ApplicationCommand)]
    );
    let sent = engine.send_data_at("d".to_string(), 0, 0, &vec![]);
    assert!(engine.can_restore(&sent));
    let outcome = engine.data_sent(sent, Some(423));
    assert_eq!(outcome, Err(ReportError::SuspendedError));
    assert!(outcome.unwrap_err().is_fatal());
    assert_eq!(engine.data().locales, vec![locale("fr", 1)]);
}

#[test]
fn send_data_dates_both_windows_today() {
    let mut engine = ready_engine();
    track(&mut engine, command("a", "fr"));
    let before = chrono::Utc::now().date_naive();
    let sent = engine.send_data(3, 9, &vec![guild(3, "fr"), guild(2000, "fr")]);
    let after = chrono::Utc::now().date_naive();
    let date = chrono::NaiveDate::parse_from_str(&sent.date, "%Y-%m-%d").unwrap();
    assert!(before <= date && date <= after);
    assert_eq!(engine.data().date, sent.date);
    assert_eq!(sent.guilds, 3);
    assert_eq!(sent.users, 9);
    assert_eq!(sent.interactions, vec![interaction("a", 1, InteractionType::ApplicationCommand)]);
    assert_eq!(sent.guilds_locales, vec![locale("fr", 2)]);
    assert_eq!(sent.guild_members, GuildMembersData { little: 1, medium: 0, big: 0, huge: 1 });
    assert_eq!(engine.data().guilds, 3);
    assert_eq!(engine.data().users, 9);
    assert_eq!(engine.data().guild_members, sent.guild_members);
    assert_eq!(engine.data().interactions, vec![]);
}

#[test]
fn registration_request_declares_the_bot() {
    let engine = engine();
    let identity =
        BotIdentity { id: 1234567890123456789, username: "robot".to_string(), avatar: None };
    let (endpoint, payload) = engine.registration_request(&identity);
    assert_eq!(endpoint.method, Method::Patch);
    assert_eq!(endpoint.url, "https://discordanalytics.xyz/api/bots/1234567890123456789");
    assert_eq!(
        endpoint.headers,
        vec![
            Header { name: "Content-Type".to_string(), value: "application/json".to_string() },
            Header { name: "Authorization".to_string(), value: "Bot secret".to_string() },
        ]
    );
    assert_eq!(payload.username, "robot");
    assert_eq!(payload.avatar, None);
    assert_eq!(payload.framework, "serenity");
    assert_eq!(payload.version, "0.1.0");
}

#[test]
fn intervals_between_reports() {
    assert_eq!(flush_interval(true), 30);
    assert_eq!(flush_interval(false), 300);
    assert_eq!(FREQUENT_INTERVAL, 30);
    assert_eq!(NORMAL_INTERVAL, 300);
}

#[test]
fn delays_between_registrations() {
    let delays: Vec<u64> = (0..7).map(retry_delay).collect();
    assert_eq!(delays, vec![30, 60, 120, 240, 300, 300, 300]);
    assert_eq!(retry_delay(u32::MAX), 300);
}

#[test]
fn steps_after_a_registration() {
    assert_eq!(registration_step(Ok(()), 0), RegistrationStep::Ready);
    assert_eq!(registration_step(Ok(()), 9), RegistrationStep::Ready);
    assert_eq!(registration_step(Err(ReportError::AuthError), 0), RegistrationStep::GiveUp);
    assert_eq!(registration_step(Err(ReportError::SuspendedError), 3), RegistrationStep::GiveUp);
    assert_eq!(
        registration_step(Err(ReportError::ProtocolError), 0),
        RegistrationStep::RetryAfter(30)
    );
    assert_eq!(
        registration_step(Err(ReportError::TransportError), 2),
        RegistrationStep::RetryAfter(120)
    );
    assert_eq!(
        registration_step(Err(ReportError::ProtocolError), 40),
        RegistrationStep::RetryAfter(300)
    );
}

#[test]
fn registration_is_tried_again_until_it_is_taken() {
    let mut engine = engine();
    let mut waits = Vec::new();
    let mut failures = 0;
    for response in [None, Some(500), Some(502), Some(200)] {
        let outcome = engine.initialize(response);
        match registration_step(outcome, failures) {
            RegistrationStep::RetryAfter(seconds) => {
                waits.push(seconds);
                failures += 1;
            }
            step => {
                assert_eq!(step, RegistrationStep::Ready);
                assert_eq!(response, Some(200));
            }
        }
    }
    assert_eq!(waits, vec![30, 60, 120]);
    assert!(engine.is_ready());
}

#[test]
fn reporting_stops_only_after_a_fatal_failure() {
    assert!(reporting_goes_on(Ok(())));
    assert!(reporting_goes_on(Err(ReportError::ProtocolError)));
    assert!(reporting_goes_on(Err(ReportError::TransportError)));
    assert!(!reporting_goes_on(Err(ReportError::AuthError)));
    assert!(!reporting_goes_on(Err(ReportError::SuspendedError)));
}

#[test]
fn an_event_raises_its_two_counters_and_no_other() {
    let mut engine = ready_engine();
    track(&mut engine, command("a", "fr"));
    track(&mut engine, command("b", "de"));
    track(&mut engine, command("a", "de"));
    assert_eq!(
        engine.data().interactions,
        vec![
            interaction("a", 2, InteractionType::ApplicationCommand),
            interaction("b", 1, InteractionType::ApplicationCommand),
        ]
    );
    assert_eq!(engine.data().locales, vec![locale("fr", 1), locale("de", 2)]);
    assert!(engine.is_ready());
}
