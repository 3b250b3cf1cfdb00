use vstd::prelude::*;
use crate::command::{CommandHandler, CommandOutcome, SpecCommandOutcome, spec_execute};
use crate::event::{Event, Key};
use crate::guilds::GuildList;
use crate::guilds::{
    GuildEntry, spec_sidebar_guilds, spec_sidebar_max_y, spec_vline_bottom, valid_category_order,
};
use crate::input::{INPUT_BOTTOM_START, INPUT_SIDE_PADDING, Input, key_press_rel, spec_clipped};
use crate::message::MessageItem;
use crate::message::spec_patched;
use crate::messages::{BOTTOM_DIFF, Messages, bulk_deleted, msg_of, msgs_rendered, spec_find_msg};
use crate::screen::{
    TermBuf, TermSize, graphemes_of, spec_box_grid, spec_empty_grid, spec_put, spec_row_text,
    spec_vline_grid,
};
use crate::chars::CharSet;
use crate::state::{Context, Preferences, State};
use crate::typing::{Indicator, spec_indicator_x, spec_names_text, swept, typing_start_rel};

verus! {

/// The lifecycle of the application: waiting for the gateway, running,
/// or shutting down.
#[derive(Debug, Clone, Copy, PartialEq, Eq, Structural)]
pub enum RunState {
    NotReady,
    Ready,
    Exiting,
}

/// The run state only ever advances along NotReady, Ready, Exiting:
/// never backwards, and never out of Exiting.
pub open spec fn run_state_le(a: RunState, b: RunState) -> bool {
    match (a, b) {
        (RunState::NotReady, _) => true,
        (RunState::Ready, RunState::Ready) => true,
        (RunState::Ready, RunState::Exiting) => true,
        (RunState::Exiting, RunState::Exiting) => true,
        _ => false,
    }
}

/// An outward effect the event loop shell performs on the core's
/// behalf: everything here crosses into I/O, the gateway, or timers.
#[derive(Debug)]
pub enum Action {
    /// Shut the gateway connection down.
    ShutdownGateway,
    /// Raise a desktop notification.
    Notify { summary: String, body: String },
    /// Send a chat message to the channel.
    SendMessage { channel: u64, content: String },
    /// Announce that the user is typing in the channel.
    BroadcastTyping { channel: u64 },
    /// Set or clear the user's nickname on the guild.
    EditNickname { guild: u64, nick: Option<String> },
    /// Fetch recent history of the channel and hand it to the message
    /// view.
    LoadMessages { channel: u64 },
    /// Gather the guild listing and hand it to the sidebar.
    PopulateGuildList,
    /// Put an event back on the bus.
    PostEvent(Event),
    /// Start a timer that will post a sweep-triggering event.
    ScheduleTypingSweep,
    /// Recompute the layout and repaint.
    Redraw,
    /// Record a recoverable error in the diagnostics log.
    LogError(String),
}

/// Whether the quit chord was pressed.
pub open spec fn is_quit_key(key: Key) -> bool {
    key == Key::Ctrl('c') || key == Key::Ctrl('d')
}

/// The view: the cell grid and the components that paint into it.
/// (`AppView` rather than `View`, which names the view trait of vstd.)
pub struct AppView {
    pub terminal: TermBuf,
    pub terminal_size: TermSize,
    pub message_view: Messages,
    pub input_view: Input,
    pub indicator: Indicator,
    pub guild_list: GuildList,
}

/// What one full frame holds: starting from an empty grid, the
/// retained messages drawn bottom-up; over that, the input box with
/// the clipped line; over that, the typing indicator; and, when the
/// sidebar is shown, the guild listing with its dividing line.
pub open spec fn frame_rendered(
    ms: Seq<MessageItem>,
    input: Input,
    ind: Indicator,
    guilds: Seq<GuildEntry>,
    show_sidebar: bool,
    cs: CharSet,
    size: TermSize,
    g_final: Seq<Seq<Option<Seq<char>>>>,
) -> bool {
    let g0 = spec_empty_grid(size.width as int, size.height as int);
    exists|g1: Seq<Seq<Option<Seq<char>>>>|
        {
            &&& #[trigger] msgs_rendered(
                g0,
                g1,
                ms,
                size.width as int,
                size.height - BOTTOM_DIFF as int - 1,
                ms.len() as int,
            )
            &&& ({
                let clipped = spec_clipped(input.spec_text(), size.width as int);
                let boxed = spec_box_grid(
                    g1,
                    INPUT_SIDE_PADDING as int - 1,
                    size.height - (INPUT_BOTTOM_START as int + 1),
                    size.width - 2 * (INPUT_SIDE_PADDING as int) + 1,
                    2,
                );
                let g2 = spec_put(
                    boxed,
                    graphemes_of(clipped),
                    INPUT_SIDE_PADDING as int,
                    size.height - INPUT_BOTTOM_START as int,
                );
                let text = spec_names_text(ind.entries(), ind.names());
                let g3 = spec_put(
                    g2,
                    graphemes_of(text),
                    spec_indicator_x(size.width as int, text.len() as int),
                    size.height - crate::typing::BOTTOM_START as int,
                );
                if show_sidebar {
                    exists|orders: Seq<Seq<usize>>|
                        {
                            &&& #[trigger] orders.len() == guilds.len()
                            &&& forall|gi: int|
                                0 <= gi < orders.len() ==> valid_category_order(
                                    #[trigger] orders[gi],
                                    guilds[gi].categories@,
                                )
                            &&& g_final == spec_vline_grid(
                                spec_sidebar_guilds(
                                    g3,
                                    guilds,
                                    orders,
                                    cs,
                                    0,
                                    spec_sidebar_max_y(size.height as int),
                                    0,
                                ),
                                crate::guilds::MAX_LEN as int - 1,
                                1,
                                spec_vline_bottom(size.height as int),
                            )
                        }
                } else {
                    g_final == g3
                }
            })
        }
}

impl AppView {
    pub fn new(timestamp_fmt: String, truecolor: bool, size: TermSize) -> (r: AppView)
        ensures
            r.terminal_size == size,
            r.terminal.spec_size() == size,
            r.terminal.wf(),
            r.message_view.view_messages() == Seq::<MessageItem>::empty(),
            r.message_view.spec_timestamp_fmt() == timestamp_fmt@,
            r.message_view.spec_truecolor() == truecolor,
            r.message_view.spec_show_sidebar(),
            r.input_view.wf(),
            r.input_view.spec_text() == Seq::<char>::empty(),
            r.indicator.wf(),
            r.indicator.entries() == Seq::<crate::typing::TypingEntry>::empty(),
            r.guild_list.guilds() == Seq::<crate::guilds::GuildEntry>::empty(),
    {
        AppView {
            terminal: TermBuf::new(size),
            terminal_size: size,
            message_view: Messages::new(timestamp_fmt, truecolor),
            input_view: Input::new(),
            indicator: Indicator::new(),
            guild_list: GuildList::new(),
        }
    }

    /// Paints one full frame: clears the grid, draws the messages, the
    /// input line, the typing indicator and, when shown, the guild
    /// sidebar, and hands back the rows of the finished frame for the
    /// shell to write out in one pass.
    pub fn present(&mut self, context: &Context) -> (rows: Vec<String>)
        requires
            old(self).input_view.wf(),
            old(self).indicator.wf(),
            old(self).terminal.spec_size() == old(self).terminal_size,
            old(self).terminal_size.width >= 7,
            old(self).terminal_size.width + 5 <= u16::MAX,
            old(self).terminal_size.height >= 11,
        ensures
            final(self).input_view == old(self).input_view,
            final(self).indicator == old(self).indicator,
            final(self).guild_list == old(self).guild_list,
            final(self).terminal_size == old(self).terminal_size,
            final(self).terminal.spec_size() == old(self).terminal.spec_size(),
            // The backlog is trimmed to roughly one screenful.
            final(self).message_view.view_messages() == (if old(
                self,
            ).message_view.view_messages().len() > old(self).terminal_size.height as int {
                old(self).message_view.view_messages().skip(
                    old(self).message_view.view_messages().len() - old(
                        self,
                    ).terminal_size.height as int,
                )
            } else {
                old(self).message_view.view_messages()
            }),
            msg_view_preserved(old(self).message_view, final(self).message_view),
            final(self).message_view.spec_show_sidebar() == old(
                self,
            ).message_view.spec_show_sidebar(),
            // The finished frame holds exactly the components' output.
            frame_rendered(
                final(self).message_view.view_messages(),
                old(self).input_view,
                old(self).indicator,
                old(self).guild_list.guilds(),
                old(self).message_view.spec_show_sidebar(),
                context.char_set,
                old(self).terminal_size,
                final(self).terminal.grid(),
            ),
            rows@.len() == final(self).terminal.grid().len(),
            forall|i: int|
                0 <= i < rows@.len() ==> #[trigger] rows@[i]@ == spec_row_text(
                    final(self).terminal.grid()[i],
                ),
    {
        let size = self.terminal_size;
        self.terminal.clear();
        self.message_view.render(&mut self.terminal, size);
        let ghost g1 = self.terminal.grid();
        self.input_view.render(&mut self.terminal, size);
        self.indicator.render(&mut self.terminal, size);
        if self.message_view.showing_sidebar() {
            self.guild_list.render(&mut self.terminal, size, context);
        }
        proof {
            assert(frame_rendered(
                self.message_view.view_messages(),
                old(self).input_view,
                old(self).indicator,
                old(self).guild_list.guilds(),
                old(self).message_view.spec_show_sidebar(),
                context.char_set,
                old(self).terminal_size,
                self.terminal.grid(),
            )) by {
                assert(msgs_rendered(
                    spec_empty_grid(size.width as int, size.height as int),
                    g1,
                    self.message_view.view_messages(),
                    size.width as int,
                    size.height - BOTTOM_DIFF as int - 1,
                    self.message_view.view_messages().len() as int,
                ));
            }
        }
        self.terminal.draw_rows()
    }

    /// Adopts a new terminal size: the grid keeps its overlapping
    /// top-left contents and exposes new cells empty.
    pub fn update_size(&mut self, new_size: TermSize)
        ensures
            final(self).terminal_size == new_size,
            final(self).terminal.spec_size() == new_size,
            final(self).terminal.wf(),
            final(self).message_view == old(self).message_view,
            final(self).input_view == old(self).input_view,
            final(self).indicator == old(self).indicator,
            final(self).guild_list == old(self).guild_list,
    {
        self.terminal.resize(new_size);
        self.terminal_size = new_size;
    }
}

/// The application core: the consumer of the event bus. It owns the
/// run state, the shared context and the view, and turns each event
/// into state changes and outward actions.
pub struct Application {
    pub view: AppView,
    pub context: Context,
    pub command_handler: CommandHandler,
    /// Public so that the state-machine contracts can speak of it;
    /// the contracts of `handle_event` govern every transition.
    pub run_state: RunState,
}

/// The parts of the message view that no event handler touches.
pub open spec fn msg_view_preserved(pre: Messages, post: Messages) -> bool {
    &&& post.spec_timestamp_fmt() == pre.spec_timestamp_fmt()
    &&& post.spec_truecolor() == pre.spec_truecolor()
    &&& post.spec_nick_cache() == pre.spec_nick_cache()
}

impl Application {
    pub open spec fn spec_run_state(self) -> RunState {
        self.run_state
    }

    /// The input line and the typing indicator keep their invariants.
    pub open spec fn wf(self) -> bool {
        &&& self.view.input_view.wf()
        &&& self.view.indicator.wf()
    }

    /// Builds the core from the loaded preferences and saved state,
    /// with the terminal's size and colour capability as the shell
    /// found them.
    pub fn new(preferences: &Preferences, state: &State, size: TermSize, truecolor: bool) -> (r:
        Application)
        ensures
            r.wf(),
            r.spec_run_state() is NotReady,
            r.context.guild == state.guild,
            r.context.channel == state.channel,
            r.context.guild_sidebar_visible == state.guild_sidebar_visible,
            r.context.current_user is None,
            r.view.terminal_size == size,
            r.view.message_view.view_messages() == Seq::<MessageItem>::empty(),
    {
        let context = Context::new(preferences, state);
        let view = AppView::new(context.timestamp_fmt.clone(), truecolor, size);
        let command_handler = CommandHandler::new();
        Application { view, context, command_handler, run_state: RunState::NotReady }
    }

    pub fn run_state(&self) -> (r: RunState)
        ensures
            r == self.spec_run_state(),
    {
        self.run_state
    }

    /// The record to persist when the application exits.
    pub fn save_state(&self) -> (r: State)
        ensures
            r.guild == self.context.guild,
            r.channel == self.context.channel,
            r.guild_sidebar_visible == self.context.guild_sidebar_visible,
    {
        self.context.get_state()
    }

    /// Consumes one event: updates the run state, the context and the
    /// view, and hands back the outward actions the shell must
    /// perform. `now` is the shell's clock reading, in seconds since
    /// the epoch, used to age typing notifications.
    ///
    /// The run state only ever advances along NotReady, Ready,
    /// Exiting; a shutdown event, the quit chord, and nothing else,
    /// drives it to Exiting, exactly once.
    pub fn handle_event(&mut self, event: Event, now: u64) -> (actions: Vec<Action>)
        requires
            old(self).wf(),
        ensures
            final(self).wf(),
            run_state_le(old(self).spec_run_state(), final(self).spec_run_state()),
            old(self).spec_run_state() is Exiting ==> *final(self) == *old(self) && actions@.len()
                == 0,
            final(self).spec_run_state() is Exiting ==> old(self).spec_run_state() is Exiting || (
            event matches Event::ShutdownAll) || (event matches Event::Keypress(k)
                && is_quit_key(k)),
            !(old(self).spec_run_state() is Exiting) ==> spec_handle(
                *old(self),
                *final(self),
                event,
                now,
                actions@,
            ),
    {
        if let RunState::Exiting = self.run_state {
            return Vec::new();
        }
        let mut actions: Vec<Action> = Vec::new();
        match event {
            Event::InternalError(err) => {
                actions.push(Action::LogError(err));
            },
            Event::DiscordReady(user) => {
                self.context.current_user = Some(*user);
                self.run_state = RunState::Ready;
                actions.push(Action::PopulateGuildList);
            },
            Event::Keypress(key) => {
                let quit = match key {
                    Key::Ctrl(c) => c == 'c' || c == 'd',
                    _ => false,
                };
                if quit {
                    self.run_state = RunState::Exiting;
                    actions.push(Action::ShutdownGateway);
                } else {
                    let evs = self.view.input_view.key_press(key);
                    let ghost evs0 = evs@;
                    let mut rest = evs;
                    while rest.len() > 0
                        invariant
                            actions@.len() + rest@.len() == evs0.len(),
                            forall|k: int|
                                0 <= k < actions@.len() ==> #[trigger] actions@[k]
                                    == Action::PostEvent(evs0[k]),
                            forall|k: int|
                                0 <= k < rest@.len() ==> #[trigger] rest@[k] == evs0[actions@.len()
                                    + k],
                        decreases rest@.len(),
                    {
                        let ev = rest.remove(0);
                        actions.push(Action::PostEvent(ev));
                    }
                }
            },
            Event::ShutdownAll => {
                self.run_state = RunState::Exiting;
                actions.push(Action::ShutdownGateway);
            },
            Event::NewMessage(msg) => {
                let relevant = match self.context.channel {
                    Some(ch) => ch == msg.channel_id,
                    None => false,
                };
                if relevant {
                    if !msg.is_own {
                        actions.push(
                            Action::Notify {
                                summary: msg.author_name.clone(),
                                body: msg.content.clone(),
                            },
                        );
                    }
                    self.view.message_view.add_msg(MessageItem::DiscordMessage(msg));
                }
            },
            Event::MessageDelete(channel_id, message_id) => {
                self.view.message_view.delete_msg(channel_id, message_id);
            },
            Event::MessageDeleteBulk(channel_id, message_ids) => {
                self.view.message_view.delete_msg_bulk(channel_id, &message_ids);
            },
            Event::MessageUpdateEvent(update) => {
                self.view.message_view.update_message(*update);
            },
            Event::ChannelUpdateEvent => {
                actions.push(Action::PopulateGuildList);
            },
            Event::UserMessage(msg) => {
                match self.context.channel {
                    Some(ch) => {
                        actions.push(Action::SendMessage { channel: ch, content: msg });
                    },
                    None => {
                        actions.push(
                            Action::PostEvent(
                                Event::InternalError(
                                    String::from_str("Unable to send message in current channel"),
                                ),
                            ),
                        );
                    },
                }
            },
            Event::SetChannel(new_chan) => {
                self.context.channel = Some(new_chan);
                actions.push(Action::LoadMessages { channel: new_chan });
            },
            Event::UserCommand(cmd) => {
                let outcome = self.command_handler.execute(self.context.guild, cmd.as_str());
                match outcome {
                    CommandOutcome::Quit => {
                        actions.push(Action::PostEvent(Event::ShutdownAll));
                    },
                    CommandOutcome::EditNickname(g, nick) => {
                        actions.push(Action::EditNickname { guild: g, nick });
                    },
                    CommandOutcome::SetChannel(id) => {
                        actions.push(Action::PostEvent(Event::SetChannel(id)));
                    },
                    CommandOutcome::ToggleSidebar => {
                        let new_state = !self.view.message_view.showing_sidebar();
                        self.context.guild_sidebar_visible = new_state;
                        self.view.message_view.set_show_sidebar(new_state);
                    },
                    CommandOutcome::Nothing => {},
                }
            },
            Event::UserTyping => {
                match self.context.channel {
                    Some(ch) => {
                        actions.push(Action::BroadcastTyping { channel: ch });
                    },
                    None => {},
                }
            },
            Event::TypingStart(ev) => {
                let scheduled = self.view.indicator.typing_start(ev);
                if scheduled {
                    actions.push(Action::ScheduleTypingSweep);
                }
            },
            Event::WindowSizeChange => {
                // A timer's follow-up event lands here too: ages are
                // re-checked against the clock before the repaint.
                self.view.indicator.sweep(now);
                actions.push(Action::Redraw);
            },
        }
        actions
    }
}

/// What consuming one event does, from a state that is not exiting:
/// one rule per event kind.
pub open spec fn spec_handle(
    pre: Application,
    post: Application,
    event: Event,
    now: u64,
    actions: Seq<Action>,
) -> bool {
    match event {
        Event::InternalError(err) => {
            &&& post.spec_run_state() == pre.spec_run_state()
            &&& post.view == pre.view
            &&& post.context == pre.context
            &&& actions.len() == 1
            &&& (actions[0] matches Action::LogError(e) && e@ == err@)
        },
        Event::DiscordReady(user) => {
            &&& post.spec_run_state() is Ready
            &&& post.context == (Context { current_user: Some(*user), ..pre.context })
            &&& post.view == pre.view
            &&& actions.len() == 1
            &&& actions[0] is PopulateGuildList
        },
        Event::Keypress(key) => if is_quit_key(key) {
            &&& post.spec_run_state() is Exiting
            &&& post.view == pre.view
            &&& post.context == pre.context
            &&& actions.len() == 1
            &&& actions[0] is ShutdownGateway
        } else {
            &&& post.spec_run_state() == pre.spec_run_state()
            &&& post.context == pre.context
            &&& post.view == (AppView { input_view: post.view.input_view, ..pre.view })
            &&& exists|evs: Seq<Event>|
                {
                    &&& key_press_rel(pre.view.input_view, post.view.input_view, key, evs)
                    &&& actions.len() == evs.len()
                    &&& forall|k: int|
                        0 <= k < actions.len() ==> #[trigger] actions[k] == Action::PostEvent(
                            evs[k],
                        )
                }
        },
        Event::ShutdownAll => {
            &&& post.spec_run_state() is Exiting
            &&& post.view == pre.view
            &&& post.context == pre.context
            &&& actions.len() == 1
            &&& actions[0] is ShutdownGateway
        },
        Event::NewMessage(msg) => {
            &&& post.spec_run_state() == pre.spec_run_state()
            &&& post.context == pre.context
            &&& post.view == (AppView { message_view: post.view.message_view, ..pre.view })
            &&& if pre.context.channel == Some(msg.channel_id) {
                &&& post.view.message_view.view_messages()
                    == pre.view.message_view.view_messages().push(
                    MessageItem::DiscordMessage(msg),
                )
                &&& msg_view_preserved(pre.view.message_view, post.view.message_view)
                &&& post.view.message_view.spec_show_sidebar()
                    == pre.view.message_view.spec_show_sidebar()
                &&& if msg.is_own {
                    actions.len() == 0
                } else {
                    &&& actions.len() == 1
                    &&& (actions[0] matches Action::Notify { summary, body } && summary@
                        == msg.author_name@ && body@ == msg.content@)
                }
            } else {
                post.view == pre.view && actions.len() == 0
            }
        },
        Event::MessageDelete(channel_id, message_id) => {
            &&& post.spec_run_state() == pre.spec_run_state()
            &&& post.context == pre.context
            &&& post.view == (AppView { message_view: post.view.message_view, ..pre.view })
            &&& post.view.message_view.view_messages() == (match spec_find_msg(
                pre.view.message_view.view_messages(),
                0,
                channel_id,
                message_id,
            ) {
                Some(i) => pre.view.message_view.view_messages().remove(i),
                None => pre.view.message_view.view_messages(),
            })
            &&& msg_view_preserved(pre.view.message_view, post.view.message_view)
            &&& post.view.message_view.spec_show_sidebar()
                == pre.view.message_view.spec_show_sidebar()
            &&& actions.len() == 0
        },
        Event::MessageDeleteBulk(channel_id, message_ids) => {
            &&& post.spec_run_state() == pre.spec_run_state()
            &&& post.context == pre.context
            &&& post.view == (AppView { message_view: post.view.message_view, ..pre.view })
            &&& post.view.message_view.view_messages() == bulk_deleted(
                pre.view.message_view.view_messages(),
                channel_id,
                message_ids@,
            )
            &&& msg_view_preserved(pre.view.message_view, post.view.message_view)
            &&& post.view.message_view.spec_show_sidebar()
                == pre.view.message_view.spec_show_sidebar()
            &&& actions.len() == 0
        },
        Event::MessageUpdateEvent(update) => {
            &&& post.spec_run_state() == pre.spec_run_state()
            &&& post.context == pre.context
            &&& post.view == (AppView { message_view: post.view.message_view, ..pre.view })
            &&& post.view.message_view.view_messages() == (match spec_find_msg(
                pre.view.message_view.view_messages(),
                0,
                update.channel_id,
                update.id,
            ) {
                Some(i) => pre.view.message_view.view_messages().update(
                    i,
                    MessageItem::DiscordMessage(
                        Box::new(
                            spec_patched(msg_of(pre.view.message_view.view_messages()[i]), *update),
                        ),
                    ),
                ),
                None => pre.view.message_view.view_messages(),
            })
            &&& msg_view_preserved(pre.view.message_view, post.view.message_view)
            &&& post.view.message_view.spec_show_sidebar()
                == pre.view.message_view.spec_show_sidebar()
            &&& actions.len() == 0
        },
        Event::ChannelUpdateEvent => {
            &&& post == pre
            &&& actions.len() == 1
            &&& actions[0] is PopulateGuildList
        },
        Event::UserMessage(msg) => {
            &&& post == pre
            &&& actions.len() == 1
            &&& match pre.context.channel {
                Some(ch) => actions[0] matches Action::SendMessage { channel, content } && channel
                    == ch && content@ == msg@,
                None => actions[0] matches Action::PostEvent(Event::InternalError(e)) && e@
                    == "Unable to send message in current channel"@,
            }
        },
        Event::SetChannel(new_chan) => {
            &&& post.spec_run_state() == pre.spec_run_state()
            &&& post.view == pre.view
            &&& post.context == (Context { channel: Some(new_chan), ..pre.context })
            &&& actions.len() == 1
            &&& (actions[0] matches Action::LoadMessages { channel } && channel == new_chan)
        },
        Event::UserCommand(cmd) => {
            &&& post.spec_run_state() == pre.spec_run_state()
            &&& match spec_execute(pre.context.guild, cmd@) {
                SpecCommandOutcome::Quit => {
                    &&& post == pre
                    &&& actions.len() == 1
                    &&& actions[0] == Action::PostEvent(Event::ShutdownAll)
                },
                SpecCommandOutcome::EditNickname(g, n) => {
                    &&& post == pre
                    &&& actions.len() == 1
                    &&& (actions[0] matches Action::EditNickname { guild, nick } && guild == g
                        && (match (nick, n) {
                        (Some(s), Some(t)) => s@ == t,
                        (None, None) => true,
                        _ => false,
                    }))
                },
                SpecCommandOutcome::SetChannel(id) => {
                    &&& post == pre
                    &&& actions.len() == 1
                    &&& actions[0] == Action::PostEvent(Event::SetChannel(id))
                },
                SpecCommandOutcome::ToggleSidebar => {
                    &&& actions.len() == 0
                    &&& post.context == (Context {
                        guild_sidebar_visible: !pre.view.message_view.spec_show_sidebar(),
                        ..pre.context
                    })
                    &&& post.view == (AppView { message_view: post.view.message_view, ..pre.view })
                    &&& post.view.message_view.spec_show_sidebar()
                        == !pre.view.message_view.spec_show_sidebar()
                    &&& post.view.message_view.view_messages()
                        == pre.view.message_view.view_messages()
                    &&& msg_view_preserved(pre.view.message_view, post.view.message_view)
                },
                SpecCommandOutcome::Nothing => {
                    &&& post == pre
                    &&& actions.len() == 0
                },
            }
        },
        Event::UserTyping => {
            &&& post == pre
            &&& match pre.context.channel {
                Some(ch) => actions.len() == 1 && (actions[0] matches Action::BroadcastTyping {
                    channel,
                } && channel == ch),
                None => actions.len() == 0,
            }
        },
        Event::TypingStart(ev) => {
            &&& post.spec_run_state() == pre.spec_run_state()
            &&& post.context == pre.context
            &&& post.view == (AppView { indicator: post.view.indicator, ..pre.view })
            &&& exists|scheduled: bool|
                {
                    &&& typing_start_rel(pre.view.indicator, post.view.indicator, ev, scheduled)
                    &&& if scheduled {
                        actions.len() == 1 && actions[0] is ScheduleTypingSweep
                    } else {
                        actions.len() == 0
                    }
                }
        },
        Event::WindowSizeChange => {
            &&& post.spec_run_state() == pre.spec_run_state()
            &&& post.context == pre.context
            &&& post.view == (AppView { indicator: post.view.indicator, ..pre.view })
            &&& post.view.indicator.entries() == swept(pre.view.indicator.entries(), now)
            &&& post.view.indicator.names() == pre.view.indicator.names()
            &&& actions.len() == 1
            &&& actions[0] is Redraw
        },
    }
}


/// The run-state order is transitive: over any chain of handled
/// events the state only ever moves forward along NotReady, Ready,
/// Exiting, and never backwards.
pub proof fn lemma_run_state_order_transitive(a: RunState, b: RunState, c: RunState)
    requires
        run_state_le(a, b),
        run_state_le(b, c),
    ensures
        run_state_le(a, c),
{
}

/// Exiting is terminal in the run-state order: once a handled event
/// has driven the state there, every later state is still Exiting.
pub proof fn lemma_exiting_is_terminal(a: RunState, b: RunState)
    requires
        a is Exiting,
        run_state_le(a, b),
    ensures
        b is Exiting,
{
}

} // verus!
