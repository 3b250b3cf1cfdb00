use dex::guilds::{
    truncate, ChannelKind, ChannelRecord, GuildList, GuildRecord,
};
use dex::screen::{TermBuf, TermSize};
use dex::state::{Context, Preferences, State};

fn chan(
    id: u64,
    name: &str,
    kind: ChannelKind,
    position: i64,
    category_id: Option<u64>,
    can_send: bool,
) -> ChannelRecord {
    ChannelRecord { id, name: name.to_string(), kind, position, category_id, can_send }
}

fn sample_guild() -> GuildRecord {
    GuildRecord {
        name: "hackers".to_string(),
        channels: vec![
            chan(1, "general", ChannelKind::Text, 2, Some(100), true),
            chan(100, "chat", ChannelKind::Category, 0, None, true),
            chan(2, "random", ChannelKind::Text, 1, Some(100), true),
            chan(3, "secret", ChannelKind::Text, 0, Some(100), false),
            chan(4, "floating", ChannelKind::Text, 5, None, true),
            chan(5, "lost", ChannelKind::Text, 4, Some(999), true),
        ],
    }
}

#[test]
fn populate_categorizes_and_sorts() {
    let mut list = GuildList::new();
    list.populate_guild_list(vec![sample_guild()]);
    let entries = list.entries();
    assert_eq!(entries.len(), 1);
    let g = &entries[0];
    assert_eq!(g.name, "hackers");
    assert_eq!(g.categories.len(), 1);
    let cat = &g.categories[0];
    assert_eq!(cat.category.name, "chat");
    // Writable channels of the category, sorted by position; the
    // unwritable one is dropped.
    let names: Vec<&str> = cat.channels.iter().map(|c| c.name.as_str()).collect();
    assert_eq!(names, ["random", "general"]);
    // Channels without a known category land in misc, sorted.
    let misc: Vec<&str> = g.misc.iter().map(|c| c.name.as_str()).collect();
    assert_eq!(misc, ["lost", "floating"]);
}

#[test]
fn repopulating_replaces_the_listing() {
    let mut list = GuildList::new();
    list.populate_guild_list(vec![sample_guild()]);
    list.populate_guild_list(vec![]);
    assert!(list.entries().is_empty());
}

#[test]
fn truncate_keeps_short_names_and_elides_long_ones() {
    assert_eq!(truncate("abc".to_string(), 10), "abc");
    assert_eq!(truncate("abcdefgh".to_string(), 5), "abcd…");
    assert_eq!(truncate("ab".to_string(), 2), "a…");
    assert_eq!(truncate(String::new(), 0), "…");
}

#[test]
fn sidebar_render_lists_guilds_and_channels() {
    let mut list = GuildList::new();
    list.populate_guild_list(vec![sample_guild()]);
    let prefs = Preferences::new("SECRET-REDACTED".to_string(), None, None);
    let state = State { guild: None, channel: None, guild_sidebar_visible: true };
    let context = Context::new(&prefs, &state);
    let mut buf = TermBuf::new(TermSize { width: 40, height: 20 });
    list.render(&mut buf, TermSize { width: 40, height: 20 }, &context);
    let rows = buf.draw_rows();
    assert!(rows[2].contains("hackers"));
    assert!(rows[3].contains("chat"));
    assert!(rows[4].contains("random"));
    assert!(rows[5].contains("general"));
    assert!(rows[6].contains("lost"));
    assert!(rows[7].contains("floating"));
    // The dividing line runs down column 27.
    assert!(rows[1].contains("│"));
}
