use discordanalytics::analytics::DiscordAnalytics;
use discordanalytics::data::{GuildMembersData, LocaleData};
use discordanalytics::guilds::{guild_locales, guild_members_repartition, GuildInfo};

fn guilds_of(counts: &[u64]) -> Vec<GuildInfo> {
    counts
        .iter()
        .map(|&member_count| GuildInfo { member_count, preferred_locale: String::new() })
        .collect()
}

fn guilds_speaking(locales: &[&str]) -> Vec<GuildInfo> {
    locales
        .iter()
        .map(|locale| GuildInfo { member_count: 1, preferred_locale: locale.to_string() })
        .collect()
}

fn locale(locale: &str, number: i32) -> LocaleData {
    LocaleData { locale: locale.to_string(), number }
}

#[test]
fn repartition_at_the_class_boundaries() {
    let guilds = guilds_of(&[50, 100, 101, 500, 501, 1500, 1501]);
    let buckets = guild_members_repartition(&guilds);
    assert_eq!(buckets, GuildMembersData { little: 2, medium: 2, big: 2, huge: 1 });
}

#[test]
fn repartition_of_no_guilds_is_empty() {
    let buckets = guild_members_repartition(&Vec::new());
    assert_eq!(buckets, GuildMembersData { little: 0, medium: 0, big: 0, huge: 0 });
    assert_eq!(buckets, GuildMembersData::empty());
}

#[test]
fn repartition_of_the_extremes() {
    let buckets = guild_members_repartition(&guilds_of(&[0, u64::MAX]));
    assert_eq!(buckets, GuildMembersData { little: 1, medium: 0, big: 0, huge: 1 });
}

#[test]
fn repartition_counts_a_guild_too_large_for_a_counter_as_huge() {
    let buckets = guild_members_repartition(&guilds_of(&[1 << 32, (1 << 31) + 5]));
    assert_eq!(buckets, GuildMembersData { little: 0, medium: 0, big: 0, huge: 2 });
}

#[test]
fn repartition_counts_every_guild_once() {
    let counts: Vec<u64> = (0..2000).collect();
    let buckets = guild_members_repartition(&guilds_of(&counts));
    assert_eq!(buckets, GuildMembersData { little: 101, medium: 400, big: 1000, huge: 499 });
    assert_eq!(buckets.little + buckets.medium + buckets.big + buckets.huge, 2000);
}

#[test]
fn repartition_does_not_depend_on_the_order() {
    let one = guild_members_repartition(&guilds_of(&[1501, 50, 500, 101, 1500, 100, 501]));
    let other = guild_members_repartition(&guilds_of(&[50, 100, 101, 500, 501, 1500, 1501]));
    assert_eq!(one, other);
}

#[test]
fn repartition_through_the_engine_leaves_it_alone() {
    let mut engine =
        DiscordAnalytics::with_date("key".to_string(), false, "2024-01-01".to_string());
    let before = engine.data().clone();
    let buckets =
        engine.calculate_guild_members_repartition(&guilds_of(&[50, 100, 101, 500, 501, 1500, 1501]));
    assert_eq!(buckets, GuildMembersData { little: 2, medium: 2, big: 2, huge: 1 });
    assert_eq!(engine.data(), &before);
    assert!(!engine.is_ready());
}

#[test]
fn guild_locales_in_order_of_first_sight() {
    let list = guild_locales(&guilds_speaking(&["fr", "en-US", "fr", "de", "en-US", "fr"]));
    assert_eq!(list, vec![locale("fr", 3), locale("en-US", 2), locale("de", 1)]);
}

#[test]
fn guild_locales_skip_guilds_without_locale() {
    let list = guild_locales(&guilds_speaking(&["", "fr", "", ""]));
    assert_eq!(list, vec![locale("fr", 1)]);
    assert_eq!(guild_locales(&guilds_speaking(&["", ""])), Vec::new());
    assert_eq!(guild_locales(&Vec::new()), Vec::new());
}

#[test]
fn guild_locales_tell_case_apart() {
    let list = guild_locales(&guilds_speaking(&["en-us", "en-US"]));
    assert_eq!(list, vec![locale("en-us", 1), locale("en-US", 1)]);
}
