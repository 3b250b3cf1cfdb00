use vstd::prelude::*;
use std::collections::HashMap;
use std::fmt::Write;
use crate::cmd_parsing::find_char;
use crate::markdown::lemma_find_char_bounds;
use crate::message::{Message, MessageItem, MessageUpdate, spec_patched, update_msg};
use crate::screen::{TermBuf, TermSize, graphemes_of, spec_put};

verus! {

broadcast use vstd::std_specs::hash::group_hash_axioms;

/// Columns reserved to the left of message bodies for author names.
pub const LEFT_PADDING: usize = 20;

/// Columns reserved to the right of message bodies for timestamps.
pub const RIGHT_PADDING: usize = 5;

/// Extra columns between a message body and its timestamp.
pub const TIME_PADDING: usize = 3;

/// The column where the message area starts.
pub const LEFT_START: usize = 0;

/// The row where the message area starts.
pub const TOP_START: usize = 5;

/// Rows under the message area kept for the input line and indicator.
pub const BOTTOM_DIFF: usize = 10;

/// A colour as the chat platform carries it: `0x00RRGGBB`.
#[derive(Debug, Clone, Copy, PartialEq, Eq, Structural)]
pub struct Colour(pub u32);

impl Colour {
    pub open spec fn spec_r(self) -> u32 {
        (self.0 >> 16u32) & 0xFFu32
    }

    pub open spec fn spec_g(self) -> u32 {
        (self.0 >> 8u32) & 0xFFu32
    }

    pub open spec fn spec_b(self) -> u32 {
        self.0 & 0xFFu32
    }

    pub fn r(&self) -> (v: u8)
        ensures
            v == self.spec_r(),
    {
        proof {
            let x = self.0;
            assert((x >> 16u32) & 0xFFu32 < 256) by (bit_vector);
        }
        ((self.0 >> 16) & 0xFF) as u8
    }

    pub fn g(&self) -> (v: u8)
        ensures
            v == self.spec_g(),
    {
        proof {
            let x = self.0;
            assert((x >> 8u32) & 0xFFu32 < 256) by (bit_vector);
        }
        ((self.0 >> 8) & 0xFF) as u8
    }

    pub fn b(&self) -> (v: u8)
        ensures
            v == self.spec_b(),
    {
        proof {
            let x = self.0;
            assert(x & 0xFFu32 < 256) by (bit_vector);
        }
        (self.0 & 0xFF) as u8
    }
}

/// The 256-colour palette index nearest a full-colour value: the
/// 6x6x6 colour-cube cell of the scaled channels.
pub fn color_to_8bit(colour: Colour) -> (v: u8)
    ensures
        v == 16 + 36 * (colour.spec_r() * 5 / 255) + 6 * (colour.spec_g() * 5 / 255) + (
        colour.spec_b() * 5 / 255),
{
    let r = colour.r();
    let g = colour.g();
    let b = colour.b();
    proof {
        let x = colour.0;
        assert((x >> 16u32) & 0xFFu32 <= 255) by (bit_vector);
        assert((x >> 8u32) & 0xFFu32 <= 255) by (bit_vector);
        assert(x & 0xFFu32 <= 255) by (bit_vector);
    }
    let rs = (r as u16 * 5 / 255) as u8;
    let gs = (g as u16 * 5 / 255) as u8;
    let bs = (b as u16 * 5 / 255) as u8;
    16 + 36 * rs + 6 * gs + bs
}

/// The decimal digit characters of a non-negative number, as the
/// standard numeric formatters write them.
pub open spec fn spec_dec(n: int) -> Seq<char>
    decreases n,
{
    if n < 0 {
        Seq::empty()
    } else if n < 10 {
        seq![spec_digit_char(n)]
    } else {
        spec_dec(n / 10).push(spec_digit_char(n % 10))
    }
}

pub open spec fn spec_digit_char(d: int) -> char {
    if d == 0 {
        '0'
    } else if d == 1 {
        '1'
    } else if d == 2 {
        '2'
    } else if d == 3 {
        '3'
    } else if d == 4 {
        '4'
    } else if d == 5 {
        '5'
    } else if d == 6 {
        '6'
    } else if d == 7 {
        '7'
    } else if d == 8 {
        '8'
    } else {
        '9'
    }
}

/// Relies on termion's `AnsiValue::fg_string`: the escape sequence
/// selecting palette colour `v` as the foreground.
#[verifier::external_body]
fn fg_ansi_string(v: u8) -> (r: String)
    ensures
        r@ == "\u{1b}[38;5;"@ + spec_dec(v as int) + "m"@,
{
    termion::color::AnsiValue(v).fg_string()
}

/// Relies on termion's `Rgb::fg_string`: the escape sequence selecting
/// the full colour as the foreground.
#[verifier::external_body]
fn fg_rgb_string(cr: u8, cg: u8, cb: u8) -> (r: String)
    ensures
        r@ == "\u{1b}[38;2;"@ + spec_dec(cr as int) + ";"@ + spec_dec(cg as int) + ";"@ + spec_dec(
            cb as int,
        ) + "m"@,
{
    termion::color::Rgb(cr, cg, cb).fg_string()
}

/// Relies on termion's `style::Reset`: the escape sequence resetting
/// all display attributes.
#[verifier::external_body]
fn reset_style_string() -> (r: String)
    ensures
        r@ == "\u{1b}[m"@,
{
    format!("{}", termion::style::Reset)
}

/// What `textwrap::fill` makes of one line at the given width. Relies
/// on textwrap: the result depends on the line and the width alone.
pub uninterp spec fn filled_of(line: Seq<char>, width: int) -> Seq<char>;

/// Relies on `textwrap::fill`: wraps one line to the width.
#[verifier::external_body]
fn fill_line(line: &str, width: usize) -> (r: String)
    ensures
        r@ == filled_of(line@, width as int),
{
    textwrap::fill(line, width)
}

/// Relies on chrono's `Local.timestamp_opt` and `DateTime::format`:
/// renders the moment in the machine's local time zone. The result
/// depends on the time zone, so nothing is promised of it. An
/// out-of-range moment or a format string chrono rejects yields None.
#[verifier::external_body]
fn format_local_timestamp(secs: i64, fmt: &str) -> (r: Option<String>) {
    let dt = match chrono::TimeZone::timestamp_opt(&chrono::Local, secs, 0) {
        chrono::LocalResult::Single(dt) => dt,
        _ => {
            return None;
        },
    };
    let mut s = String::new();
    match write!(s, "{}", dt.format(fmt)) {
        Ok(()) => Some(s),
        Err(_) => None,
    }
}

/// The message inside a view item.
pub open spec fn msg_of(item: MessageItem) -> Message {
    match item {
        MessageItem::DiscordMessage(b) => *b,
    }
}

/// The messages kept by a bulk delete: those not matching the channel
/// together with one of the listed ids.
pub open spec fn bulk_deleted(msgs: Seq<MessageItem>, ch: u64, ids: Seq<u64>) -> Seq<MessageItem> {
    msgs.filter(|m: MessageItem| !(msg_of(m).channel_id == ch && ids.contains(msg_of(m).id)))
}

/// The first index at or after `from` of the message with this channel
/// and id, if any.
pub open spec fn spec_find_msg(msgs: Seq<MessageItem>, from: int, ch: u64, id: u64) -> Option<int>
    decreases msgs.len() - from,
{
    if from < 0 || from >= msgs.len() {
        None
    } else if msg_of(msgs[from]).channel_id == ch && msg_of(msgs[from]).id == id {
        Some(from)
    } else {
        spec_find_msg(msgs, from + 1, ch, id)
    }
}

/// A field-for-field copy of a message.
pub fn clone_message(m: &Message) -> (r: Message)
    ensures
        r == *m,
{
    Message {
        id: m.id,
        channel_id: m.channel_id,
        author_name: m.author_name.clone(),
        content: m.content.clone(),
        timestamp: m.timestamp,
        edited_timestamp: m.edited_timestamp,
        has_attachments: m.has_attachments,
        is_own: m.is_own,
    }
}

/// The message view: the list of messages of the active channel, the
/// timestamp format, the colour capability of the terminal, whether
/// the sidebar is shown, and a cache of nicknames and colours.
pub struct Messages {
    messages: Vec<MessageItem>,
    timestamp_fmt: String,
    truecolor: bool,
    show_sidebar: bool,
    nickname_cache: HashMap<u64, (String, Option<Colour>)>,
}

/// The name and colour the view shows for an author: the cached pair
/// wins; otherwise the member record fills the cache, falling back to
/// the author's account name and no colour.
pub open spec fn spec_nick_of(
    cache: Map<u64, (String, Option<Colour>)>,
    id: u64,
    author: Seq<char>,
    member: Option<(Option<String>, Option<Colour>)>,
) -> (Seq<char>, Option<Colour>) {
    if cache.contains_key(id) {
        (cache[id].0@, cache[id].1)
    } else {
        match member {
            Some((nick, colour)) => (
                match nick {
                    Some(n) => n@,
                    None => author,
                },
                colour,
            ),
            None => (author, None),
        }
    }
}

/// The coloured rendering of a nickname: the foreground escape, the
/// name, and a style reset; or the plain author name when no colour is
/// known.
pub open spec fn spec_colorized(
    nick: Seq<char>,
    colour: Option<Colour>,
    truecolor: bool,
    author: Seq<char>,
) -> Seq<char> {
    match colour {
        Some(c) => if truecolor {
            "\u{1b}[38;2;"@ + spec_dec(c.spec_r() as int) + ";"@ + spec_dec(c.spec_g() as int)
                + ";"@ + spec_dec(c.spec_b() as int) + "m"@ + nick + "\u{1b}[m"@
        } else {
            let v = 16 + 36 * (c.spec_r() * 5 / 255) + 6 * (c.spec_g() * 5 / 255) + (c.spec_b() * 5
                / 255);
            "\u{1b}[38;5;"@ + spec_dec(v as int) + "m"@ + nick + "\u{1b}[m"@
        },
        None => author,
    }
}

impl Messages {
    pub closed spec fn view_messages(self) -> Seq<MessageItem> {
        self.messages@
    }

    pub closed spec fn spec_timestamp_fmt(self) -> Seq<char> {
        self.timestamp_fmt@
    }

    pub closed spec fn spec_truecolor(self) -> bool {
        self.truecolor
    }

    pub closed spec fn spec_show_sidebar(self) -> bool {
        self.show_sidebar
    }

    pub closed spec fn spec_nick_cache(self) -> Map<u64, (String, Option<Colour>)> {
        self.nickname_cache@
    }

    pub fn new(timestamp_fmt: String, truecolor: bool) -> (r: Messages)
        ensures
            r.view_messages() == Seq::<MessageItem>::empty(),
            r.spec_timestamp_fmt() == timestamp_fmt@,
            r.spec_truecolor() == truecolor,
            r.spec_show_sidebar(),
            r.spec_nick_cache() == Map::<u64, (String, Option<Colour>)>::empty(),
    {
        let r = Messages {
            messages: Vec::new(),
            timestamp_fmt,
            truecolor,
            show_sidebar: true,
            nickname_cache: HashMap::new(),
        };
        proof {
            assert(r.view_messages() =~= Seq::<MessageItem>::empty());
        }
        r
    }

    /// The messages currently in the view.
    pub fn messages(&self) -> (r: &Vec<MessageItem>)
        ensures
            r@ == self.view_messages(),
    {
        &self.messages
    }

    pub fn showing_sidebar(&self) -> (r: bool)
        ensures
            r == self.spec_show_sidebar(),
    {
        self.show_sidebar
    }

    pub fn set_show_sidebar(&mut self, show: bool)
        ensures
            final(self).spec_show_sidebar() == show,
            final(self).view_messages() == old(self).view_messages(),
            final(self).spec_timestamp_fmt() == old(self).spec_timestamp_fmt(),
            final(self).spec_truecolor() == old(self).spec_truecolor(),
            final(self).spec_nick_cache() == old(self).spec_nick_cache(),
    {
        self.show_sidebar = show;
    }

    /// Appends a message to the view.
    pub fn add_msg(&mut self, msg: MessageItem)
        ensures
            final(self).view_messages() == old(self).view_messages().push(msg),
            final(self).spec_timestamp_fmt() == old(self).spec_timestamp_fmt(),
            final(self).spec_truecolor() == old(self).spec_truecolor(),
            final(self).spec_show_sidebar() == old(self).spec_show_sidebar(),
            final(self).spec_nick_cache() == old(self).spec_nick_cache(),
    {
        self.messages.push(msg);
    }

    /// Replaces the view's contents with freshly loaded history.
    pub fn load_messages(&mut self, msgs: Vec<MessageItem>)
        ensures
            final(self).view_messages() == msgs@,
            final(self).spec_timestamp_fmt() == old(self).spec_timestamp_fmt(),
            final(self).spec_truecolor() == old(self).spec_truecolor(),
            final(self).spec_show_sidebar() == old(self).spec_show_sidebar(),
            final(self).spec_nick_cache() == old(self).spec_nick_cache(),
    {
        self.messages = msgs;
    }

    /// Removes the first message matching the channel and message id.
    pub fn delete_msg(&mut self, channel_id: u64, message_id: u64)
        ensures
            final(self).view_messages() == match spec_find_msg(
                old(self).view_messages(),
                0,
                channel_id,
                message_id,
            ) {
                Some(i) => old(self).view_messages().remove(i),
                None => old(self).view_messages(),
            },
            final(self).spec_timestamp_fmt() == old(self).spec_timestamp_fmt(),
            final(self).spec_truecolor() == old(self).spec_truecolor(),
            final(self).spec_show_sidebar() == old(self).spec_show_sidebar(),
            final(self).spec_nick_cache() == old(self).spec_nick_cache(),
    {
        let mut i: usize = 0;
        while i < self.messages.len()
            invariant
                i <= self.messages@.len(),
                self.messages@ == old(self).view_messages(),
                self.timestamp_fmt@ == old(self).spec_timestamp_fmt(),
                self.truecolor == old(self).spec_truecolor(),
                self.show_sidebar == old(self).spec_show_sidebar(),
                self.nickname_cache@ == old(self).spec_nick_cache(),
                spec_find_msg(self.messages@, 0, channel_id, message_id) == spec_find_msg(
                    self.messages@,
                    i as int,
                    channel_id,
                    message_id,
                ),
            decreases self.messages@.len() - i,
        {
            let hit = match &self.messages[i] {
                MessageItem::DiscordMessage(m) => m.channel_id == channel_id && m.id == message_id,
            };
            if hit {
                self.messages.remove(i);
                return ;
            }
            i = i + 1;
        }
    }

    /// Removes every message of the channel whose id is in the list.
    pub fn delete_msg_bulk(&mut self, channel_id: u64, message_ids: &Vec<u64>)
        ensures
            final(self).view_messages() == bulk_deleted(
                old(self).view_messages(),
                channel_id,
                message_ids@,
            ),
            final(self).spec_timestamp_fmt() == old(self).spec_timestamp_fmt(),
            final(self).spec_truecolor() == old(self).spec_truecolor(),
            final(self).spec_show_sidebar() == old(self).spec_show_sidebar(),
            final(self).spec_nick_cache() == old(self).spec_nick_cache(),
    {
        let ghost pred = |m: MessageItem|
            !(msg_of(m).channel_id == channel_id && message_ids@.contains(msg_of(m).id));
        let ghost ms0 = self.messages@;
        let mut kept: Vec<MessageItem> = Vec::new();
        let mut i: usize = 0;
        proof {
            reveal(Seq::filter);
            assert(ms0.take(0).filter(pred) =~= Seq::<MessageItem>::empty());
        }
        while i < self.messages.len()
            invariant
                i <= ms0.len(),
                self.messages@ == ms0,
                pred == (|m: MessageItem|
                    !(msg_of(m).channel_id == channel_id && message_ids@.contains(msg_of(m).id))),
                kept@ == ms0.take(i as int).filter(pred),
            decreases ms0.len() - i,
        {
            let keep = match &self.messages[i] {
                MessageItem::DiscordMessage(m) => !(m.channel_id == channel_id && contains_u64(
                    message_ids,
                    m.id,
                )),
            };
            proof {
                assert(keep == pred(ms0[i as int]));
            }
            if keep {
                let copied = match &self.messages[i] {
                    MessageItem::DiscordMessage(m) => MessageItem::DiscordMessage(
                        Box::new(clone_message(m)),
                    ),
                };
                proof {
                    assert(copied == ms0[i as int]);
                }
                kept.push(copied);
            }
            proof {
                reveal(Seq::filter);
                assert(ms0.take(i as int + 1).drop_last() =~= ms0.take(i as int));
                assert(ms0.take(i as int + 1).last() == ms0[i as int]);
                assert(kept@ =~= ms0.take(i as int + 1).filter(pred));
            }
            i = i + 1;
        }
        proof {
            assert(ms0.take(ms0.len() as int) =~= ms0);
        }
        self.messages = kept;
        proof {
            assert(pred =~= (|m: MessageItem|
                !(msg_of(m).channel_id == channel_id && message_ids@.contains(msg_of(m).id))));
        }
    }

    /// Patches the first message matching the update's channel and id
    /// with the fields the update carries.
    pub fn update_message(&mut self, update: MessageUpdate)
        ensures
            final(self).view_messages() == match spec_find_msg(
                old(self).view_messages(),
                0,
                update.channel_id,
                update.id,
            ) {
                Some(i) => old(self).view_messages().update(
                    i,
                    MessageItem::DiscordMessage(
                        Box::new(spec_patched(msg_of(old(self).view_messages()[i]), update)),
                    ),
                ),
                None => old(self).view_messages(),
            },
            final(self).spec_timestamp_fmt() == old(self).spec_timestamp_fmt(),
            final(self).spec_truecolor() == old(self).spec_truecolor(),
            final(self).spec_show_sidebar() == old(self).spec_show_sidebar(),
            final(self).spec_nick_cache() == old(self).spec_nick_cache(),
    {
        let mut i: usize = 0;
        while i < self.messages.len()
            invariant
                i <= self.messages@.len(),
                self.messages@ == old(self).view_messages(),
                self.timestamp_fmt@ == old(self).spec_timestamp_fmt(),
                self.truecolor == old(self).spec_truecolor(),
                self.show_sidebar == old(self).spec_show_sidebar(),
                self.nickname_cache@ == old(self).spec_nick_cache(),
                spec_find_msg(self.messages@, 0, update.channel_id, update.id) == spec_find_msg(
                    self.messages@,
                    i as int,
                    update.channel_id,
                    update.id,
                ),
            decreases self.messages@.len() - i,
        {
            let hit = match &self.messages[i] {
                MessageItem::DiscordMessage(m) => update.id == m.id && update.channel_id
                    == m.channel_id,
            };
            if hit {
                let mut patched = match &self.messages[i] {
                    MessageItem::DiscordMessage(m) => clone_message(m),
                };
                update_msg(&mut patched, update);
                self.messages.set(i, MessageItem::DiscordMessage(Box::new(patched)));
                return ;
            }
            i = i + 1;
        }
    }

    /// The coloured name shown for an author, taken from or filled
    /// into the nickname cache; `member` is the author's guild record,
    /// when one is known, consulted only on a cache miss.
    pub fn colorize_nick(
        &mut self,
        author_id: u64,
        author_name: &str,
        member: Option<(Option<String>, Option<Colour>)>,
    ) -> (r: String)
        ensures
            ({
                let entry = spec_nick_of(
                    old(self).spec_nick_cache(),
                    author_id,
                    author_name@,
                    member,
                );
                &&& r@ == spec_colorized(
                    entry.0,
                    entry.1,
                    old(self).spec_truecolor(),
                    author_name@,
                )
                &&& final(self).spec_nick_cache().contains_key(author_id)
                &&& final(self).spec_nick_cache()[author_id].0@ == entry.0
                &&& final(self).spec_nick_cache()[author_id].1 == entry.1
            }),
            final(self).view_messages() == old(self).view_messages(),
            final(self).spec_timestamp_fmt() == old(self).spec_timestamp_fmt(),
            final(self).spec_truecolor() == old(self).spec_truecolor(),
            final(self).spec_show_sidebar() == old(self).spec_show_sidebar(),
    {
        let cached = self.nickname_cache.contains_key(&author_id);
        if !cached {
            let entry: (String, Option<Colour>) = match member {
                Some((nick, colour)) => (
                    match nick {
                        Some(n) => n,
                        None => author_name.to_owned(),
                    },
                    colour,
                ),
                None => (author_name.to_owned(), None),
            };
            self.nickname_cache.insert(author_id, entry);
        }
        let (nick, colour) = match self.nickname_cache.get(&author_id) {
            Some(pair) => (pair.0.clone(), pair.1),
            None => {
                proof {
                    assert(false);
                }
                (String::new(), None)
            },
        };
        match colour {
            Some(c) => {
                let mut s = if self.truecolor {
                    fg_rgb_string(c.r(), c.g(), c.b())
                } else {
                    fg_ansi_string(color_to_8bit(c))
                };
                s.append(nick.as_str());
                let reset = reset_style_string();
                s.append(reset.as_str());
                s
            },
            None => author_name.to_owned(),
        }
    }
}

/// Whether the vector holds the value.
fn contains_u64(v: &Vec<u64>, x: u64) -> (r: bool)
    ensures
        r == v@.contains(x),
{
    let mut i: usize = 0;
    while i < v.len()
        invariant
            i <= v@.len(),
            forall|k: int| 0 <= k < i ==> v@[k] != x,
        decreases v@.len() - i,
    {
        if v[i] == x {
            return true;
        }
        i = i + 1;
    }
    proof {
        assert(!v@.contains(x));
    }
    false
}


/// A line before the newline that ended it, as the standard line
/// iterator hands it out: a carriage return before the newline is
/// stripped.
pub open spec fn strip_cr(l: Seq<char>) -> Seq<char> {
    if l.len() > 0 && l.last() == '\r' {
        l.drop_last()
    } else {
        l
    }
}

/// The lines of a text from position `p` on: segments split at
/// newlines, the final line ending optional.
pub open spec fn spec_lines_from(s: Seq<char>, p: int) -> Seq<Seq<char>>
    decreases s.len() - p,
    when 0 <= p <= s.len()
    via spec_lines_from_decreases
{
    if p >= s.len() {
        Seq::empty()
    } else {
        match find_char(s, p, '\n') {
            Some(q) => seq![strip_cr(s.subrange(p, q))] + spec_lines_from(s, q + 1),
            None => seq![s.subrange(p, s.len() as int)],
        }
    }
}

#[via_fn]
proof fn spec_lines_from_decreases(s: Seq<char>, p: int) {
    lemma_find_char_bounds(s, p, '\n');
}

/// The lines of a text, as the standard line iterator yields them.
pub open spec fn spec_lines(s: Seq<char>) -> Seq<Seq<char>> {
    spec_lines_from(s, 0)
}

/// Lines joined back together with single newlines.
pub open spec fn spec_join_nl(ls: Seq<Seq<char>>) -> Seq<char>
    decreases ls.len(),
{
    if ls.len() == 0 {
        Seq::empty()
    } else if ls.len() == 1 {
        ls[0]
    } else {
        spec_join_nl(ls.drop_last()) + seq!['\n'] + ls.last()
    }
}

/// The width message bodies are wrapped to on a screen of the given
/// width, after the fixed paddings; never negative.
pub open spec fn spec_wrap_width(width: int) -> int {
    let w = width - (RIGHT_PADDING as int + LEFT_PADDING as int + LEFT_START as int
        + TIME_PADDING as int);
    if w >= 0 {
        w
    } else {
        0
    }
}

/// A message's body as shown: an attachment indicator when one is
/// present, then the content.
pub open spec fn spec_prefixed(m: Message) -> Seq<char> {
    if m.has_attachments {
        "\u{1f4ce} "@ + m.content@
    } else {
        m.content@
    }
}

/// The message body after wrapping each of its lines to the width.
pub open spec fn spec_wrapped(m: Message, width: int) -> Seq<char> {
    spec_join_nl(
        spec_lines(spec_prefixed(m)).map_values(|l: Seq<char>| filled_of(l, spec_wrap_width(width))),
    )
}

/// The column where a message's timestamp header starts.
pub open spec fn spec_header_x(width: int) -> int {
    if width - RIGHT_PADDING >= 0 {
        width - RIGHT_PADDING
    } else {
        0
    }
}

/// How many bottom-up draw steps one message gets from cursor row
/// `y0`: one per line, stopping at the top edge of the screen.
pub open spec fn spec_msg_iters(n_lines: int, y0: int) -> int {
    if y0 + 1 < n_lines {
        y0 + 1
    } else {
        n_lines
    }
}

/// What is known of a timestamp header whatever the clock library
/// returned: an edited message's header ends in the edit marker.
pub open spec fn spec_header_marked(header: Seq<char>, edited: bool) -> bool {
    edited ==> header.len() > 0 && header.last() == '*'
}

/// The grid after the first `k` bottom-up draw steps of one message:
/// step `j` writes line `lines[lines.len() - 1 - j]` at cursor row
/// `y0 - j`, offset by the top margin; the step that writes the
/// topmost line also writes the author name on the left and the
/// timestamp header on the right, in that order, first.
pub open spec fn spec_draw_msg_upto(
    g: Seq<Seq<Option<Seq<char>>>>,
    lines: Seq<Seq<char>>,
    author: Seq<char>,
    header: Seq<char>,
    width: int,
    y0: int,
    k: int,
) -> Seq<Seq<Option<Seq<char>>>>
    decreases k,
{
    if k <= 0 {
        g
    } else {
        let prev = spec_draw_msg_upto(g, lines, author, header, width, y0, k - 1);
        let row = y0 - (k - 1) + TOP_START;
        let line = lines[lines.len() - k];
        let with_header = if k == lines.len() {
            spec_put(
                spec_put(prev, graphemes_of(author), LEFT_START as int, row),
                graphemes_of(header),
                spec_header_x(width),
                row,
            )
        } else {
            prev
        };
        spec_put(with_header, graphemes_of(line), LEFT_PADDING as int + LEFT_START as int, row)
    }
}

/// How a repaint relates the grid before and after drawing the
/// messages `ms[..hi]` bottom-up from cursor row `y`: each message's
/// wrapped lines are placed newest-lowest, its header text is
/// whatever the clock library returned (marked when edited), and the
/// drawing stops at the top edge.
pub open spec fn msgs_rendered(
    g_pre: Seq<Seq<Option<Seq<char>>>>,
    g_post: Seq<Seq<Option<Seq<char>>>>,
    ms: Seq<MessageItem>,
    width: int,
    y: int,
    hi: int,
) -> bool
    decreases hi,
{
    if hi <= 0 {
        g_post == g_pre
    } else {
        let m = msg_of(ms[hi - 1]);
        let lines = spec_lines(spec_wrapped(m, width));
        exists|header: Seq<char>|
            {
                &&& #[trigger] spec_header_marked(header, m.edited_timestamp is Some)
                &&& if y >= lines.len() {
                    msgs_rendered(
                        spec_draw_msg_upto(
                            g_pre,
                            lines,
                            m.author_name@ + ":"@,
                            header,
                            width,
                            y,
                            lines.len() as int,
                        ),
                        g_post,
                        ms,
                        width,
                        y - lines.len(),
                        hi - 1,
                    )
                } else {
                    g_post == spec_draw_msg_upto(
                        g_pre,
                        lines,
                        m.author_name@ + ":"@,
                        header,
                        width,
                        y,
                        y + 1,
                    )
                }
            }
    }
}

/// Splits a text into its lines, as the standard line iterator does.
fn split_lines(s: &str) -> (r: Vec<String>)
    ensures
        r@.map_values(|l: String| l@) == spec_lines(s@),
{
    let n = s.unicode_len();
    let mut out: Vec<String> = Vec::new();
    let mut p: usize = 0;
    proof {
        assert(out@.map_values(|l: String| l@) + spec_lines_from(s@, 0) =~= spec_lines_from(s@, 0));
    }
    while p < n
        invariant
            p <= n,
            n == s@.len(),
            spec_lines(s@) == out@.map_values(|l: String| l@) + spec_lines_from(s@, p as int),
        decreases n - p,
    {
        let ghost out0 = out@;
        let mut q: usize = p;
        while q < n
            invariant
                p <= q <= n,
                n == s@.len(),
                find_char(s@, p as int, '\n') == find_char(s@, q as int, '\n'),
            ensures
                p <= q <= n,
                q < n ==> find_char(s@, p as int, '\n') == Some(q as int) && s@[q as int] == '\n',
                q == n ==> find_char(s@, p as int, '\n') is None,
            decreases n - q,
        {
            if s.get_char(q) == '\n' {
                proof {
                    assert(find_char(s@, q as int, '\n') == Some(q as int));
                }
                break;
            }
            q = q + 1;
        }
        let line_end: usize = if q < n && q > p && s.get_char(q - 1) == '\r' {
            q - 1
        } else {
            q
        };
        let line = s.substring_char(p, line_end).to_owned();
        proof {
            if q < n {
                assert(line@ =~= strip_cr(s@.subrange(p as int, q as int)));
            }
        }
        out.push(line);
        proof {
            assert(out@.map_values(|l: String| l@) =~= out0.map_values(|l: String| l@)
                + seq![out@[out@.len() - 1]@]);
            if q < n {
                assert(spec_lines_from(s@, p as int) == seq![strip_cr(
                    s@.subrange(p as int, q as int),
                )] + spec_lines_from(s@, q as int + 1));
                assert(out@.map_values(|l: String| l@) + spec_lines_from(s@, q as int + 1)
                    =~= out0.map_values(|l: String| l@) + spec_lines_from(s@, p as int));
            } else {
                assert(spec_lines_from(s@, p as int) == seq![s@.subrange(p as int, n as int)]);
                assert(spec_lines_from(s@, n as int) =~= Seq::<Seq<char>>::empty());
                assert(out@.map_values(|l: String| l@) + spec_lines_from(s@, n as int)
                    =~= out0.map_values(|l: String| l@) + spec_lines_from(s@, p as int));
            }
        }
        if q < n {
            p = q + 1;
        } else {
            p = n;
        }
    }
    proof {
        assert(spec_lines_from(s@, p as int) =~= Seq::<Seq<char>>::empty());
        assert(out@.map_values(|l: String| l@) + spec_lines_from(s@, p as int) =~= out@.map_values(
            |l: String| l@,
        ));
    }
    out
}

/// Joins lines with single newlines.
fn join_nl(v: &Vec<String>) -> (r: String)
    ensures
        r@ == spec_join_nl(v@.map_values(|l: String| l@)),
{
    let ghost lv = v@.map_values(|l: String| l@);
    let mut r = String::new();
    let mut i: usize = 0;
    while i < v.len()
        invariant
            i <= v@.len(),
            lv == v@.map_values(|l: String| l@),
            lv.len() == v@.len(),
            r@ == spec_join_nl(lv.take(i as int)),
        decreases v@.len() - i,
    {
        if i > 0 {
            r.append("\n");
        }
        r.append(v[i].as_str());
        proof {
            reveal_strlit("\n");
            assert(lv.take(i as int + 1).drop_last() =~= lv.take(i as int));
            assert(lv.take(i as int + 1).last() == lv[i as int]);
            assert(r@ =~= spec_join_nl(lv.take(i as int + 1)));
        }
        i = i + 1;
    }
    proof {
        assert(lv.take(lv.len() as int) =~= lv);
    }
    r
}

impl Messages {
    /// Draws one message bottom-up at the cursor row `y`: wraps its
    /// body to the width, then places the body lines, and beside the
    /// topmost one the author name and the local-time timestamp. Hands
    /// back false when the top of the screen was reached.
    pub fn render_discord_msg(
        &self,
        msg: &mut Message,
        size: TermSize,
        buf: &mut TermBuf,
        y: &mut usize,
    ) -> (more: bool)
        requires
            *old(y) + TOP_START <= u16::MAX,
        ensures
            final(msg).content@ == spec_wrapped(*old(msg), size.width as int),
            final(msg).id == old(msg).id,
            final(msg).channel_id == old(msg).channel_id,
            final(msg).author_name == old(msg).author_name,
            final(msg).timestamp == old(msg).timestamp,
            final(msg).edited_timestamp == old(msg).edited_timestamp,
            final(msg).has_attachments == old(msg).has_attachments,
            final(msg).is_own == old(msg).is_own,
            final(buf).spec_size() == old(buf).spec_size(),
            final(buf).spec_cursor_pos() == old(buf).spec_cursor_pos(),
            final(buf).spec_show_cursor() == old(buf).spec_show_cursor(),
            final(buf).wf() == old(buf).wf(),
            ({
                let n_lines = spec_lines(spec_wrapped(*old(msg), size.width as int)).len();
                &&& more == (*old(y) >= n_lines)
                &&& *final(y) == if *old(y) >= n_lines {
                    *old(y) - n_lines
                } else {
                    0
                }
            }),
            exists|header: Seq<char>|
                {
                    let lines = spec_lines(spec_wrapped(*old(msg), size.width as int));
                    &&& #[trigger] spec_header_marked(
                        header,
                        old(msg).edited_timestamp is Some,
                    )
                    &&& final(buf).grid() == spec_draw_msg_upto(
                        old(buf).grid(),
                        lines,
                        old(msg).author_name@ + ":"@,
                        header,
                        size.width as int,
                        *old(y) as int,
                        spec_msg_iters(lines.len() as int, *old(y) as int),
                    )
                },
    {
        let content: String = if msg.has_attachments {
            let mut c = String::from_str("\u{1f4ce} ");
            c.append(msg.content.as_str());
            proof {
                assert(c@ =~= spec_prefixed(*old(msg)));
            }
            c
        } else {
            msg.content.clone()
        };
        let pad = RIGHT_PADDING + LEFT_PADDING + LEFT_START + TIME_PADDING;
        let wrap_width: usize = if (size.width as usize) >= pad {
            size.width as usize - pad
        } else {
            0
        };
        let raw_lines = split_lines(content.as_str());
        let ghost rawv = raw_lines@.map_values(|l: String| l@);
        let mut wrapped: Vec<String> = Vec::new();
        let mut i: usize = 0;
        while i < raw_lines.len()
            invariant
                i <= raw_lines@.len(),
                rawv == raw_lines@.map_values(|l: String| l@),
                rawv.len() == raw_lines@.len(),
                wrap_width as int == spec_wrap_width(size.width as int),
                wrapped@.map_values(|l: String| l@) == rawv.take(i as int).map_values(
                    |l: Seq<char>| filled_of(l, spec_wrap_width(size.width as int)),
                ),
            decreases raw_lines@.len() - i,
        {
            let ghost w0 = wrapped@;
            let f = fill_line(raw_lines[i].as_str(), wrap_width);
            wrapped.push(f);
            proof {
                assert(wrapped@.map_values(|l: String| l@) =~= w0.map_values(|l: String| l@)
                    + seq![wrapped@[wrapped@.len() - 1]@]);
                assert(rawv.take(i as int + 1).map_values(
                    |l: Seq<char>| filled_of(l, spec_wrap_width(size.width as int)),
                ) =~= rawv.take(i as int).map_values(
                    |l: Seq<char>| filled_of(l, spec_wrap_width(size.width as int)),
                ) + seq![filled_of(rawv[i as int], spec_wrap_width(size.width as int))]);
            }
            i = i + 1;
        }
        proof {
            assert(rawv.take(rawv.len() as int) =~= rawv);
        }
        msg.content = join_nl(&wrapped);
        proof {
            assert(msg.content@ == spec_wrapped(*old(msg), size.width as int));
        }
        let lines = split_lines(msg.content.as_str());
        let ghost linev = lines@.map_values(|l: String| l@);
        let n_lines = lines.len();
        // The topmost drawn line carries the header: the author name
        // on the left, the timestamp on the right.
        let header = self.timestamp_header(msg);
        let mut author = msg.author_name.clone();
        author.append(":");
        let ghost g0 = buf.grid();
        let mut k: usize = 0;
        while k < n_lines
            invariant
                k <= n_lines,
                n_lines == lines@.len(),
                n_lines == linev.len(),
                linev == lines@.map_values(|l: String| l@),
                linev == spec_lines(spec_wrapped(*old(msg), size.width as int)),
                msg.content@ == spec_wrapped(*old(msg), size.width as int),
                *msg == (Message { content: msg.content, ..*old(msg) }),
                *y + TOP_START <= u16::MAX,
                *old(y) >= k,
                *y == *old(y) - k,
                author@ == old(msg).author_name@ + ":"@,
                spec_header_marked(header@, old(msg).edited_timestamp is Some),
                g0 == old(buf).grid(),
                buf.grid() == spec_draw_msg_upto(
                    g0,
                    linev,
                    author@,
                    header@,
                    size.width as int,
                    *old(y) as int,
                    k as int,
                ),
                buf.spec_size() == old(buf).spec_size(),
                buf.spec_cursor_pos() == old(buf).spec_cursor_pos(),
                buf.spec_show_cursor() == old(buf).spec_show_cursor(),
                buf.wf() == old(buf).wf(),
            decreases n_lines - k,
        {
            let line = &lines[n_lines - 1 - k];
            if k == n_lines - 1 {
                buf.put_string(author.as_str(), LEFT_START as u16, (*y + TOP_START) as u16);
                buf.put_string(
                    header.as_str(),
                    size.width.saturating_sub(RIGHT_PADDING as u16),
                    (*y + TOP_START) as u16,
                );
            }
            buf.put_string(
                line.as_str(),
                (LEFT_PADDING + LEFT_START) as u16,
                (*y + TOP_START) as u16,
            );
            proof {
                assert(buf.grid() == spec_draw_msg_upto(
                    g0,
                    linev,
                    author@,
                    header@,
                    size.width as int,
                    *old(y) as int,
                    k as int + 1,
                ));
            }
            if *y == 0 {
                proof {
                    assert(k as int + 1 == spec_msg_iters(linev.len() as int, *old(y) as int));
                }
                return false;
            }
            *y = *y - 1;
            k = k + 1;
        }
        proof {
            assert(n_lines as int == spec_msg_iters(linev.len() as int, *old(y) as int));
        }
        true
    }

    /// The timestamp text shown beside a message: the moment in local
    /// time, marked with a star when the message has been edited. A
    /// moment or format the clock library rejects yields only the
    /// marker. Whatever text came back, an edited message's header
    /// ends in the marker.
    fn timestamp_header(&self, msg: &Message) -> (r: String)
        ensures
            spec_header_marked(r@, msg.edited_timestamp is Some),
    {
        let mut t = match format_local_timestamp(msg.timestamp, self.timestamp_fmt.as_str()) {
            Some(t) => t,
            None => String::new(),
        };
        if msg.edited_timestamp.is_some() {
            t.append("*");
            proof {
                reveal_strlit("*");
            }
        }
        t
    }

    /// Repaints the message area: drops messages beyond what the
    /// screen can roughly hold, then draws the rest bottom-up from one
    /// row above the reserved bottom area, stopping at the top edge.
    /// The wrapped bodies are drawn from copies; the stored messages
    /// keep their original content.
    pub fn render(&mut self, buf: &mut TermBuf, size: TermSize)
        requires
            size.height as int >= BOTTOM_DIFF as int + 1,
        ensures
            ({
                let diff = if old(self).view_messages().len() > size.height as int {
                    old(self).view_messages().len() - size.height as int
                } else {
                    0
                };
                final(self).view_messages() == old(self).view_messages().skip(diff)
            }),
            final(self).spec_timestamp_fmt() == old(self).spec_timestamp_fmt(),
            final(self).spec_truecolor() == old(self).spec_truecolor(),
            final(self).spec_show_sidebar() == old(self).spec_show_sidebar(),
            final(self).spec_nick_cache() == old(self).spec_nick_cache(),
            final(buf).spec_size() == old(buf).spec_size(),
            final(buf).spec_cursor_pos() == old(buf).spec_cursor_pos(),
            final(buf).spec_show_cursor() == old(buf).spec_show_cursor(),
            final(buf).wf() == old(buf).wf(),
            // The retained messages are drawn bottom-up, newest lowest,
            // starting one row above the reserved bottom area.
            msgs_rendered(
                old(buf).grid(),
                final(buf).grid(),
                final(self).view_messages(),
                size.width as int,
                size.height - BOTTOM_DIFF as int - 1,
                final(self).view_messages().len() as int,
            ),
    {
        let rough = size.height as usize;
        let diff: usize = if self.messages.len() > rough {
            self.messages.len() - rough
        } else {
            0
        };
        let mut k: usize = 0;
        while k < diff
            invariant
                k <= diff,
                diff <= old(self).view_messages().len(),
                self.messages@ == old(self).view_messages().skip(k as int),
                self.timestamp_fmt@ == old(self).spec_timestamp_fmt(),
                self.truecolor == old(self).spec_truecolor(),
                self.show_sidebar == old(self).spec_show_sidebar(),
                self.nickname_cache@ == old(self).spec_nick_cache(),
            decreases diff - k,
        {
            self.messages.remove(0);
            proof {
                assert(old(self).view_messages().skip(k as int).remove(0) =~= old(
                    self,
                ).view_messages().skip(k as int + 1));
            }
            k = k + 1;
        }
        let y: usize = size.height as usize - BOTTOM_DIFF - 1;
        let idx: usize = self.messages.len();
        self.render_msgs_from(buf, size, idx, y);
    }

    /// Draws the messages at indices below `idx` bottom-up from cursor
    /// row `y`, stopping when the top edge is reached.
    fn render_msgs_from(&self, buf: &mut TermBuf, size: TermSize, idx: usize, y: usize)
        requires
            idx <= self.view_messages().len(),
            y + TOP_START <= u16::MAX,
        ensures
            final(buf).spec_size() == old(buf).spec_size(),
            final(buf).spec_cursor_pos() == old(buf).spec_cursor_pos(),
            final(buf).spec_show_cursor() == old(buf).spec_show_cursor(),
            final(buf).wf() == old(buf).wf(),
            msgs_rendered(
                old(buf).grid(),
                final(buf).grid(),
                self.view_messages(),
                size.width as int,
                y as int,
                idx as int,
            ),
        decreases idx,
    {
        if idx == 0 {
            return ;
        }
        let i = idx - 1;
        let mut m = match &self.messages[i] {
            MessageItem::DiscordMessage(b) => clone_message(b),
        };
        proof {
            assert(m == msg_of(self.view_messages()[i as int]));
        }
        let ghost m0 = m;
        let ghost g0 = buf.grid();
        let mut ycur = y;
        let more = self.render_discord_msg(&mut m, size, buf, &mut ycur);
        let ghost g1 = buf.grid();
        if more {
            self.render_msgs_from(buf, size, i, ycur);
        }
        proof {
            let lines = spec_lines(spec_wrapped(m0, size.width as int));
            let h = choose|h: Seq<char>|
                {
                    &&& #[trigger] spec_header_marked(h, m0.edited_timestamp is Some)
                    &&& g1 == spec_draw_msg_upto(
                        g0,
                        lines,
                        m0.author_name@ + ":"@,
                        h,
                        size.width as int,
                        y as int,
                        spec_msg_iters(lines.len() as int, y as int),
                    )
                };
            if more {
                assert(spec_msg_iters(lines.len() as int, y as int) == lines.len() as int);
                assert(msgs_rendered(
                    g0,
                    buf.grid(),
                    self.view_messages(),
                    size.width as int,
                    y as int,
                    idx as int,
                )) by {
                    assert(spec_header_marked(h, m0.edited_timestamp is Some));
                }
            } else {
                assert(spec_msg_iters(lines.len() as int, y as int) == y as int + 1);
                assert(msgs_rendered(
                    g0,
                    buf.grid(),
                    self.view_messages(),
                    size.width as int,
                    y as int,
                    idx as int,
                )) by {
                    assert(spec_header_marked(h, m0.edited_timestamp is Some));
                }
            }
        }
    }
}

} // verus!
