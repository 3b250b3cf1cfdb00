use dex::chars::CharSet;
use dex::command::{CommandHandler, CommandOutcome};
use dex::errors::{HomeDirError, InternalSerenityError, NonInteractiveTty};
use dex::event::{Event, Key};
use dex::input::Input;
use dex::messages::{color_to_8bit, Colour, Messages};
use dex::state::{Context, Preferences, State, _true};

#[test]
fn charset_picks_glyphs_per_font() {
    let uni = CharSet::unicode();
    let nerd = CharSet::nerd();
    assert_eq!(uni.volume(), '\u{1F50A}');
    assert_eq!(nerd.volume(), '\u{f028}');
    assert_eq!(uni.volume_off(), '\u{1F508}');
    assert_eq!(nerd.volume_off(), '\u{f026}');
    assert_eq!(uni.paper_clip(), '\u{1f4f7}');
    assert_eq!(nerd.paper_clip(), '\u{f5ff}');
}

#[test]
fn error_messages() {
    assert_eq!(HomeDirError.message(), "Unable to locate user home directory");
    assert_eq!(
        NonInteractiveTty.message(),
        "Must be run in a interactive terminal"
    );
    let e = InternalSerenityError("socket closed".to_string());
    assert_eq!(
        e.message(),
        "Error originating from Serentity:\nsocket closed"
    );
}

#[test]
fn preferences_fall_back_to_defaults() {
    let p = Preferences::new("SECRET-REDACTED".to_string(), None, None);
    assert_eq!(p.timestamp_fmt(), "%_I:%M");
    assert!(!p.nerd_fonts());
    assert!(_true());
    let q = Preferences::new(
        "SECRET-REDACTED".to_string(),
        Some("%H:%M".to_string()),
        Some(true),
    );
    assert_eq!(q.timestamp_fmt(), "%H:%M");
    assert!(q.nerd_fonts());
}

#[test]
fn context_is_built_from_preferences_and_state() {
    let p = Preferences::new("SECRET-REDACTED".to_string(), None, Some(true));
    let s = State { guild: Some(1), channel: Some(2), guild_sidebar_visible: false };
    let c = Context::new(&p, &s);
    assert_eq!(c.timestamp_fmt, "%_I:%M");
    assert!(c.nerd_fonts);
    assert_eq!(c.guild, Some(1));
    assert_eq!(c.channel, Some(2));
    assert!(!c.guild_sidebar_visible);
    assert!(c.current_user.is_none());
    let back = c.get_state();
    assert_eq!(back.guild, Some(1));
    assert_eq!(back.channel, Some(2));
    assert!(!back.guild_sidebar_visible);
}

#[test]
fn colour_channels_and_palette_index() {
    let c = Colour(0xFF8000);
    assert_eq!(c.r(), 255);
    assert_eq!(c.g(), 128);
    assert_eq!(c.b(), 0);
    // 255 -> 5, 128 -> 2, 0 -> 0: cube cell 16 + 36*5 + 6*2 + 0.
    assert_eq!(color_to_8bit(c), 208);
    assert_eq!(color_to_8bit(Colour(0xFF0000)), 196);
    assert_eq!(color_to_8bit(Colour(0)), 16);
}

#[test]
fn colorize_nick_wraps_the_name_in_escapes() {
    let mut v = Messages::new("%H:%M".to_string(), false);
    let coloured = v.colorize_nick(
        1,
        "Bob",
        Some((Some("Bobby".to_string()), Some(Colour(0xFF0000)))),
    );
    assert_eq!(coloured, "\u{1b}[38;5;196mBobby\u{1b}[m");
    // The entry is cached: the member record is no longer consulted.
    let again = v.colorize_nick(1, "Bob", None);
    assert_eq!(again, "\u{1b}[38;5;196mBobby\u{1b}[m");
    // With no colour known, the plain account name is shown.
    let plain = v.colorize_nick(2, "Eve", None);
    assert_eq!(plain, "Eve");
}

#[test]
fn colorize_nick_uses_full_colour_when_the_terminal_can() {
    let mut v = Messages::new("%H:%M".to_string(), true);
    let coloured = v.colorize_nick(1, "Bob", Some((None, Some(Colour(0x123456)))));
    assert_eq!(coloured, "\u{1b}[38;2;18;52;86mBob\u{1b}[m");
}

#[test]
fn command_table_resolves_words_after_the_range() {
    let h = CommandHandler::new();
    assert!(matches!(h.execute(None, "quit"), CommandOutcome::Quit));
    assert!(matches!(h.execute(None, "q"), CommandOutcome::Quit));
    // A leading address range is stripped before the lookup.
    assert!(matches!(h.execute(None, "5,quit"), CommandOutcome::Quit));
    assert!(matches!(h.execute(None, "togglesidebar"), CommandOutcome::ToggleSidebar));
    assert!(matches!(h.execute(None, "tbar"), CommandOutcome::ToggleSidebar));
    assert!(matches!(h.execute(None, "frobnicate"), CommandOutcome::Nothing));
    assert!(matches!(h.execute(None, ""), CommandOutcome::Nothing));
}

#[test]
fn nickname_commands_need_a_guild() {
    let h = CommandHandler::new();
    assert!(matches!(h.execute(None, "nick neo"), CommandOutcome::Nothing));
    match h.execute(Some(7), "nick neo") {
        CommandOutcome::EditNickname(7, Some(n)) => assert_eq!(n, "neo"),
        other => panic!("unexpected outcome {:?}", other),
    }
    assert!(matches!(h.execute(Some(7), "nick"), CommandOutcome::Nothing));
    assert!(matches!(h.execute(Some(7), "cnick"), CommandOutcome::EditNickname(7, None)));
    assert!(matches!(h.execute(Some(7), "clearnick"), CommandOutcome::EditNickname(7, None)));
}

#[test]
fn channel_switch_parses_the_id_as_a_number() {
    let h = CommandHandler::new();
    assert!(matches!(h.execute(None, "setchannel 42"), CommandOutcome::SetChannel(42)));
    assert!(matches!(h.execute(None, "schan +42"), CommandOutcome::SetChannel(42)));
    assert!(matches!(h.execute(None, "schan"), CommandOutcome::Nothing));
    assert!(matches!(h.execute(None, "schan x42"), CommandOutcome::Nothing));
    assert!(matches!(
        h.execute(None, "schan 99999999999999999999999999"),
        CommandOutcome::Nothing
    ));
}

#[test]
fn typing_a_colon_first_starts_a_command() {
    let mut input = Input::new();
    // The first keypress of a fresh line consumes the initial typing
    // grace; the second announces the user is typing.
    let out = input.key_press(Key::Char(':'));
    assert!(out.is_empty());
    let out = input.key_press(Key::Char('q'));
    assert_eq!(out.len(), 1);
    assert!(matches!(out[0], Event::UserTyping));
    let out = input.key_press(Key::Char('\n'));
    assert_eq!(out.len(), 1);
    match &out[0] {
        Event::UserCommand(c) => assert_eq!(c, "q"),
        other => panic!("expected a command, got {:?}", other),
    }
}

#[test]
fn plain_text_submits_as_a_message() {
    let mut input = Input::new();
    input.key_press(Key::Char('h'));
    input.key_press(Key::Char('i'));
    let out = input.key_press(Key::Char('\n'));
    match &out[0] {
        Event::UserMessage(m) => assert_eq!(m, "hi"),
        other => panic!("expected a message, got {:?}", other),
    }
}

#[test]
fn backspace_on_the_colon_leaves_command_mode() {
    let mut input = Input::new();
    input.key_press(Key::Char(':'));
    input.key_press(Key::Backspace);
    input.key_press(Key::Char('h'));
    let out = input.key_press(Key::Char('\n'));
    assert!(matches!(&out[0], Event::UserMessage(m) if m == "h"));
}
