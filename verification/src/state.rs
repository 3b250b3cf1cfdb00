use vstd::prelude::*;
use crate::chars::CharSet;
use crate::message::CurrentUser;

verus! {

/// The persisted state of the client, read once at startup and written
/// once on exit.
#[derive(Debug, Clone)]
pub struct State {
    pub guild: Option<u64>,
    pub channel: Option<u64>,
    pub guild_sidebar_visible: bool,
}

/// The default for the sidebar flag when it is absent from saved state.
pub fn _true() -> (r: bool)
    ensures
        r == true,
{
    true
}

/// The user's preferences, read once at startup from configuration.
#[derive(Debug, Clone)]
pub struct Preferences {
    pub token: String,
    timestamp_fmt: Option<String>,
    nerd_fonts: Option<bool>,
}

impl Preferences {
    pub closed spec fn spec_token(self) -> String {
        self.token
    }

    pub closed spec fn spec_timestamp_fmt(self) -> Option<String> {
        self.timestamp_fmt
    }

    pub closed spec fn spec_nerd_fonts(self) -> Option<bool> {
        self.nerd_fonts
    }

    pub fn new(token: String, timestamp_fmt: Option<String>, nerd_fonts: Option<bool>) -> (r:
        Preferences)
        ensures
            r.spec_token() == token,
            r.spec_timestamp_fmt() == timestamp_fmt,
            r.spec_nerd_fonts() == nerd_fonts,
    {
        Preferences { token, timestamp_fmt, nerd_fonts }
    }

    /// The timestamp format to display, or the built-in default.
    pub fn timestamp_fmt(&self) -> (r: String)
        ensures
            r@ == match self.spec_timestamp_fmt() {
                Some(f) => f@,
                None => "%_I:%M"@,
            },
    {
        match &self.timestamp_fmt {
            Some(f) => f.clone(),
            None => String::from_str("%_I:%M"),
        }
    }

    /// Whether Nerd Fonts glyphs should be used.
    pub fn nerd_fonts(&self) -> (r: bool)
        ensures
            r == match self.spec_nerd_fonts() {
                Some(b) => b,
                None => false,
            },
    {
        match self.nerd_fonts {
            Some(b) => b,
            None => false,
        }
    }
}

/// The shared application context: identity, the active guild and
/// channel, and display preferences.
#[derive(Debug)]
pub struct Context {
    /// The user's authentication token.
    pub token: String,
    /// Format string for displaying timestamps.
    pub timestamp_fmt: String,
    /// Whether to use Nerd Fonts glyphs.
    pub nerd_fonts: bool,
    /// Whether the guild sidebar is shown.
    pub guild_sidebar_visible: bool,
    /// The active guild.
    pub guild: Option<u64>,
    /// The active channel.
    pub channel: Option<u64>,
    /// The logged-in user, once the gateway is ready.
    pub current_user: Option<CurrentUser>,
    /// The icon characters to use throughout the client.
    pub char_set: CharSet,
}

impl Context {
    pub fn new(prefs: &Preferences, state: &State) -> (r: Context)
        ensures
            r.token == prefs.spec_token(),
            r.timestamp_fmt@ == match prefs.spec_timestamp_fmt() {
                Some(f) => f@,
                None => "%_I:%M"@,
            },
            r.nerd_fonts == match prefs.spec_nerd_fonts() {
                Some(b) => b,
                None => false,
            },
            r.char_set.spec_is_nerd() == r.nerd_fonts,
            r.guild_sidebar_visible == state.guild_sidebar_visible,
            r.guild == state.guild,
            r.channel == state.channel,
            r.current_user is None,
    {
        let token = prefs.token.clone();
        let timestamp_fmt = prefs.timestamp_fmt();
        let nerd_fonts = prefs.nerd_fonts();
        let char_set = if nerd_fonts {
            CharSet::nerd()
        } else {
            CharSet::unicode()
        };
        Context {
            token,
            timestamp_fmt,
            nerd_fonts,
            guild_sidebar_visible: state.guild_sidebar_visible,
            guild: state.guild,
            channel: state.channel,
            current_user: None,
            char_set,
        }
    }

    /// The record persisted on exit.
    pub fn get_state(&self) -> (r: State)
        ensures
            r.guild == self.guild,
            r.channel == self.channel,
            r.guild_sidebar_visible == self.guild_sidebar_visible,
    {
        State {
            guild: self.guild,
            channel: self.channel,
            guild_sidebar_visible: self.guild_sidebar_visible,
        }
    }
}

} // verus!
