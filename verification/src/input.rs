use vstd::prelude::*;
use crate::event::{Event, Key};
use crate::screen::{
    TermBuf, TermSize, char_to_string, graphemes_of, spec_box_grid, spec_put,
};

verus! {

/// Rows up from the bottom edge where the input line is drawn.
pub const INPUT_BOTTOM_START: u16 = 3;

/// Columns of padding on either side of the input line.
pub const INPUT_SIDE_PADDING: u16 = 3;

#[derive(Debug, Clone, Copy, PartialEq, Eq, Structural)]
enum InputMode {
    Message,
    Command,
}

/// The line-editing component: the text being typed, whether it is a
/// command (started with a colon), and whether a typing notice has
/// already been announced for it.
pub struct Input {
    text: String,
    mode: InputMode,
    typing: bool,
}

/// The text clipped to the columns the input box offers: an over-long
/// text is shown as an ellipsis followed by its tail.
pub open spec fn spec_clipped(text: Seq<char>, width: int) -> Seq<char> {
    let side = if width - 2 * (INPUT_SIDE_PADDING as int) >= 0 {
        width - 2 * (INPUT_SIDE_PADDING as int)
    } else {
        0
    };
    if text.len() > side {
        let keep = if side - 1 >= 0 {
            side - 1
        } else {
            0
        };
        let from = if text.len() - keep >= 0 {
            text.len() - keep
        } else {
            0
        };
        seq!['…'] + text.skip(from)
    } else {
        text
    }
}

/// How one keypress transforms the input line, and which events it
/// gives rise to.
pub open spec fn key_press_rel(pre: Input, post: Input, key: Key, out: Seq<Event>) -> bool {
    match key {
                Key::Backspace | Key::Delete => {
                    &&& out.len() == 0
                    &&& post.spec_text() == (if pre.spec_text().len() > 0 {
                        pre.spec_text().drop_last()
                    } else {
                        pre.spec_text()
                    })
                    &&& post.spec_is_command() == (pre.spec_is_command() && pre.spec_text().len() != 1)
                    &&& post.spec_typing() == pre.spec_typing()
                },
                Key::Esc => {
                    &&& out.len() == 0
                    &&& post.spec_text() == pre.spec_text()
                    &&& !post.spec_is_command()
                    &&& post.spec_typing() == pre.spec_typing()
                },
                Key::Char(ch) => if ch == '\n' {
                    &&& out.len() == 1
                    &&& match out[0] {
                        Event::UserMessage(m) => !pre.spec_is_command() && m@ == pre.spec_text(),
                        Event::UserCommand(c) => pre.spec_is_command() && c@ == pre.spec_text().skip(1),
                        _ => false,
                    }
                    &&& post.spec_text() == Seq::<char>::empty()
                    &&& !post.spec_is_command()
                    &&& post.spec_typing() == pre.spec_typing()
                } else if ch == '\t' {
                    &&& out.len() == 0
                    &&& post == pre
                } else {
                    &&& post.spec_text() == pre.spec_text().push(ch)
                    &&& post.spec_is_command() == (pre.spec_is_command() || (ch == ':'
                        && pre.spec_text().len() == 0))
                    &&& post.spec_typing() == (if pre.spec_typing() {
                        pre.spec_text().len() != 0
                    } else {
                        true
                    })
                    &&& if pre.spec_typing() {
                        out.len() == 0
                    } else {
                        out.len() == 1 && out[0] is UserTyping
                    }
                },
                Key::Ctrl(ch) => if ch == 'u' {
                    &&& out.len() == 0
                    &&& post.spec_text() == Seq::<char>::empty()
                    &&& !post.spec_is_command()
                    &&& post.spec_typing() == pre.spec_typing()
                } else {
                    out.len() == 0 && post == pre
                },
                _ => out.len() == 0 && post == pre,
            }
}

impl Input {
    pub closed spec fn spec_text(self) -> Seq<char> {
        self.text@
    }

    /// Whether the line being edited is a command.
    pub closed spec fn spec_is_command(self) -> bool {
        self.mode is Command
    }

    /// Whether a typing notice has been announced for this line.
    pub closed spec fn spec_typing(self) -> bool {
        self.typing
    }

    /// A command line always still carries its leading colon.
    pub open spec fn wf(self) -> bool {
        self.spec_is_command() ==> self.spec_text().len() > 0 && self.spec_text()[0] == ':'
    }

    pub fn new() -> (r: Input)
        ensures
            r.wf(),
            r.spec_text() == Seq::<char>::empty(),
            !r.spec_is_command(),
            r.spec_typing(),
    {
        Input { text: String::new(), mode: InputMode::Message, typing: true }
    }

    /// Finishes the line: hands back the event it stands for — the
    /// message text, or the command after its colon — and clears it.
    pub fn submit(&mut self) -> (ev: Event)
        requires
            old(self).wf(),
        ensures
            final(self).wf(),
            final(self).spec_text() == Seq::<char>::empty(),
            !final(self).spec_is_command(),
            final(self).spec_typing() == old(self).spec_typing(),
            match ev {
                Event::UserMessage(m) => !old(self).spec_is_command() && m@ == old(
                    self,
                ).spec_text(),
                Event::UserCommand(c) => old(self).spec_is_command() && c@ == old(
                    self,
                ).spec_text().skip(1),
                _ => false,
            },
    {
        let ev = match self.mode {
            InputMode::Message => Event::UserMessage(self.text.clone()),
            InputMode::Command => {
                let n = self.text.as_str().unicode_len();
                Event::UserCommand(self.text.as_str().substring_char(1, n).to_owned())
            },
        };
        self.mode = InputMode::Message;
        self.text = String::new();
        ev
    }

    /// Applies one keypress to the line. The events the press gives
    /// rise to — a submitted message or command, or a first typing
    /// notice — are handed back for the caller to enqueue.
    pub fn key_press(&mut self, key: Key) -> (out: Vec<Event>)
        requires
            old(self).wf(),
        ensures
            final(self).wf(),
            key_press_rel(*old(self), *final(self), key, out@),
    {
        let mut out: Vec<Event> = Vec::new();
        match key {
            Key::Backspace | Key::Delete => {
                let n = self.text.as_str().unicode_len();
                if n == 1 {
                    self.mode = InputMode::Message;
                }
                if n > 0 {
                    self.text = self.text.as_str().substring_char(0, n - 1).to_owned();
                    proof {
                        assert(self.text@ =~= old(self).spec_text().drop_last());
                    }
                }
            },
            Key::Esc => {
                self.mode = InputMode::Message;
            },
            Key::Char(ch) => {
                if ch == '\n' {
                    let ev = self.submit();
                    out.push(ev);
                } else if ch == '\t' {
                    // Reserved for channel switching.
                } else {
                    if ch == ':' && self.text.as_str().unicode_len() == 0 {
                        self.mode = InputMode::Command;
                    }
                    if self.typing {
                        if self.text.as_str().unicode_len() == 0 {
                            self.typing = false;
                        }
                    } else {
                        out.push(Event::UserTyping);
                        self.typing = true;
                    }
                    let glyph = char_to_string(ch);
                    self.text.append(glyph.as_str());
                    proof {
                        assert(self.text@ =~= old(self).spec_text().push(ch));
                    }
                }
            },
            Key::Ctrl(ch) => {
                if ch == 'u' {
                    // An emptied line is no longer a command.
                    self.text = String::new();
                    self.mode = InputMode::Message;
                }
            },
            _ => {},
        }
        out
    }

    /// Draws the input box and the clipped line into the buffer, and
    /// places the cursor one column past the end of the shown text.
    pub fn render(&self, buf: &mut TermBuf, size: TermSize)
        requires
            size.width >= 2 * INPUT_SIDE_PADDING + 1,
            size.width + 5 <= u16::MAX,
            size.height >= INPUT_BOTTOM_START + 1,
        ensures
            final(buf).spec_size() == old(buf).spec_size(),
            final(buf).spec_show_cursor() == old(buf).spec_show_cursor(),
            final(buf).wf() == old(buf).wf(),
            ({
                let clipped = spec_clipped(self.spec_text(), size.width as int);
                let boxed = spec_box_grid(
                    old(buf).grid(),
                    INPUT_SIDE_PADDING as int - 1,
                    size.height - (INPUT_BOTTOM_START as int + 1),
                    size.width - 2 * (INPUT_SIDE_PADDING as int) + 1,
                    2,
                );
                &&& final(buf).grid() == spec_put(
                    boxed,
                    graphemes_of(clipped),
                    INPUT_SIDE_PADDING as int,
                    size.height - INPUT_BOTTOM_START as int,
                )
                &&& final(buf).spec_cursor_pos() == (
                    (INPUT_SIDE_PADDING as int + clipped.len() + 1) as u16,
                    (size.height - INPUT_BOTTOM_START + 1) as u16,
                )
            }),
    {
        let side = size.width - 2 * INPUT_SIDE_PADDING;
        let n = self.text.as_str().unicode_len();
        let clipped: String = if n > side as usize {
            let keep = (side - 1) as usize;
            let mut c = char_to_string('…');
            let tail = self.text.as_str().substring_char(n - keep, n);
            c.append(tail);
            proof {
                assert(c@ =~= spec_clipped(self.spec_text(), size.width as int));
            }
            c
        } else {
            self.text.clone()
        };
        buf.draw_box(
            INPUT_SIDE_PADDING - 1,
            size.height - (INPUT_BOTTOM_START + 1),
            side,
            1,
        );
        buf.put_string(clipped.as_str(), INPUT_SIDE_PADDING, size.height - INPUT_BOTTOM_START);
        let cols = clipped.as_str().unicode_len();
        buf.set_cursor_position(
            INPUT_SIDE_PADDING + cols as u16 + 1,
            size.height - INPUT_BOTTOM_START + 1,
        );
    }
}

} // verus!
