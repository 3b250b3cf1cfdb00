use vstd::prelude::*;
use std::collections::HashMap;
use crate::event::TypingEvent;
use crate::screen::{TermBuf, TermSize, graphemes_of, spec_put};

verus! {

broadcast use vstd::std_specs::hash::group_hash_axioms;

/// Seconds a typing notification stays alive before a sweep drops it.
pub const TYPING_TTL_SECS: u64 = 10;

/// Columns kept free to the right of the indicator text.
pub const SIDE_PADDING: u16 = 3;

/// Rows up from the bottom edge where the indicator is drawn.
pub const BOTTOM_START: u16 = 1;

/// One live typing notification.
#[derive(Debug, Clone, Copy, PartialEq, Eq, Structural)]
pub struct TypingEntry {
    pub user_id: u64,
    pub timestamp: u64,
}

/// The "who is typing" indicator: a set of typing notifications keyed
/// by user id, plus a cache of user display names.
pub struct Indicator {
    events: Vec<TypingEntry>,
    user_names: HashMap<u64, String>,
}

/// No two entries carry the same user id.
pub open spec fn unique_ids(es: Seq<TypingEntry>) -> bool {
    forall|k: int, l: int| 0 <= k < l < es.len() ==> es[k].user_id != es[l].user_id
}

/// Whether some entry carries this user id.
pub open spec fn spec_has_user(es: Seq<TypingEntry>, user_id: u64) -> bool {
    exists|i: int| 0 <= i < es.len() && es[i].user_id == user_id
}

/// The text the indicator shows: the users' display names joined by
/// a comma and a space.
pub open spec fn spec_names_text(es: Seq<TypingEntry>, names: Map<u64, String>) -> Seq<char>
    decreases es.len(),
{
    if es.len() == 0 {
        Seq::empty()
    } else if es.len() == 1 {
        names[es[0].user_id]@
    } else {
        spec_names_text(es.drop_last(), names) + ", "@ + names[es.last().user_id]@
    }
}

/// The entries that survive a sweep at `now`: those younger than the
/// TTL, future-stamped ones included.
pub open spec fn swept(es: Seq<TypingEntry>, now: u64) -> Seq<TypingEntry> {
    es.filter(|e: TypingEntry| now < e.timestamp + TYPING_TTL_SECS)
}

/// How a typing notification transforms the indicator, and whether a
/// TTL sweep is to be scheduled.
pub open spec fn typing_start_rel(
    pre: Indicator,
    post: Indicator,
    event: TypingEvent,
    scheduled: bool,
) -> bool {
    let known = pre.names().contains_key(event.user_id) || event.user_name is Some;
    if !known {
        &&& !scheduled
        &&& post.entries() == pre.entries()
        &&& post.names() == pre.names()
    } else {
        &&& scheduled
        &&& post.names() == (if pre.names().contains_key(event.user_id) {
            pre.names()
        } else {
            pre.names().insert(event.user_id, event.user_name->Some_0)
        })
        &&& if spec_has_user(pre.entries(), event.user_id) {
            // Re-notification: the entry's timestamp is refreshed.
            &&& post.entries().len() == pre.entries().len()
            &&& forall|i: int|
                0 <= i < pre.entries().len() ==> #[trigger] post.entries()[i] == (if pre.entries()[
                    i
                ].user_id == event.user_id {
                    TypingEntry { user_id: event.user_id, timestamp: event.timestamp }
                } else {
                    pre.entries()[i]
                })
        } else {
            post.entries() == pre.entries().push(
                TypingEntry { user_id: event.user_id, timestamp: event.timestamp },
            )
        }
    }
}

/// The column where the indicator text starts: right-aligned with a
/// padded margin, clamped at the left edge.
pub open spec fn spec_indicator_x(width: int, text_cols: int) -> int {
    if width - (SIDE_PADDING as int + 1 + text_cols) >= 0 {
        width - (SIDE_PADDING as int + 1 + text_cols)
    } else {
        0
    }
}

impl Indicator {
    pub closed spec fn entries(self) -> Seq<TypingEntry> {
        self.events@
    }

    pub closed spec fn names(self) -> Map<u64, String> {
        self.user_names@
    }

    /// No two entries share a user id, and every entry's user has a
    /// cached display name.
    pub closed spec fn wf(self) -> bool {
        &&& unique_ids(self.events@)
        &&& forall|i: int|
            0 <= i < self.events@.len() ==> self.user_names@.contains_key(
                #[trigger] self.events@[i].user_id,
            )
    }

    pub fn new() -> (r: Indicator)
        ensures
            r.wf(),
            unique_ids(r.entries()),
            r.entries() == Seq::<TypingEntry>::empty(),
    {
        let r = Indicator { events: Vec::new(), user_names: HashMap::new() };
        proof {
            assert(r.entries() =~= Seq::<TypingEntry>::empty());
        }
        r
    }

    /// Registers or refreshes a typing notification. A user whose name
    /// can not be resolved (neither cached nor carried by the event) is
    /// ignored. Returns whether a TTL sweep should be scheduled.
    pub fn typing_start(&mut self, event: TypingEvent) -> (scheduled: bool)
        requires
            old(self).wf(),
        ensures
            final(self).wf(),
            // No two entries ever share a user id: a re-notification
            // refreshes, it does not duplicate.
            unique_ids(final(self).entries()),
            typing_start_rel(*old(self), *final(self), event, scheduled),
    {
        // Resolve the display name: a cached name wins; a name carried
        // by the event fills the cache; otherwise the event is ignored.
        if !self.user_names.contains_key(&event.user_id) {
            match event.user_name {
                Some(name) => {
                    self.user_names.insert(event.user_id, name);
                },
                None => {
                    return false;
                },
            }
        }
        // Register or refresh the entry for this user.
        let mut i: usize = 0;
        while i < self.events.len()
            invariant
                i <= self.events@.len(),
                forall|k: int| 0 <= k < i ==> #[trigger] self.events@[k].user_id != event.user_id,
                self.events@ == old(self).entries(),
                unique_ids(self.events@),
                forall|k: int|
                    0 <= k < self.events@.len() ==> self.user_names@.contains_key(
                        #[trigger] self.events@[k].user_id,
                    ),
                self.user_names@.contains_key(event.user_id),
                old(self).names().contains_key(event.user_id) || event.user_name is Some,
                self.user_names@ == (if old(self).names().contains_key(event.user_id) {
                    old(self).names()
                } else {
                    old(self).names().insert(event.user_id, event.user_name->Some_0)
                }),
            decreases self.events@.len() - i,
        {
            if self.events[i].user_id == event.user_id {
                let refreshed = TypingEntry { user_id: event.user_id, timestamp: event.timestamp };
                self.events.set(i, refreshed);
                proof {
                    assert(spec_has_user(old(self).entries(), event.user_id)) by {
                        assert(old(self).entries()[i as int].user_id == event.user_id);
                    }
                    assert forall|j: int| 0 <= j < old(self).entries().len()
                        implies #[trigger] self.events@[j] == (if old(self).entries()[j].user_id
                        == event.user_id {
                        TypingEntry { user_id: event.user_id, timestamp: event.timestamp }
                    } else {
                        old(self).entries()[j]
                    }) by {
                        if j != i as int && old(self).entries()[j].user_id == event.user_id {
                            if j < i as int {
                                assert(old(self).entries()[j].user_id != old(self).entries()[
                                    i as int
                                ].user_id);
                            } else {
                                assert(old(self).entries()[i as int].user_id != old(
                                    self,
                                ).entries()[j].user_id);
                            }
                        }
                    }
                    assert(unique_ids(self.events@)) by {
                        assert forall|k: int, l: int| 0 <= k < l < self.events@.len() implies self
                            .events@[k].user_id != self.events@[l].user_id by {
                            assert(self.events@[k].user_id == old(self).entries()[k].user_id);
                            assert(self.events@[l].user_id == old(self).entries()[l].user_id);
                        }
                    }
                }
                return true;
            }
            i = i + 1;
        }
        proof {
            assert(!spec_has_user(self.events@, event.user_id));
        }
        self.events.push(TypingEntry { user_id: event.user_id, timestamp: event.timestamp });
        return true;
    }

    /// Drops every entry whose age has reached the TTL at `now`.
    /// Entries stamped in the future are kept as fresh.
    pub fn sweep(&mut self, now: u64)
        requires
            old(self).wf(),
        ensures
            final(self).wf(),
            unique_ids(final(self).entries()),
            final(self).names() == old(self).names(),
            final(self).entries() == swept(old(self).entries(), now),
    {
        let ghost pred = |e: TypingEntry| now < e.timestamp + TYPING_TTL_SECS;
        let ghost es0 = self.events@;
        let mut kept: Vec<TypingEntry> = Vec::new();
        let mut i: usize = 0;
        proof {
            reveal(Seq::filter);
            assert(es0.take(0).filter(pred) =~= Seq::<TypingEntry>::empty());
        }
        while i < self.events.len()
            invariant
                i <= es0.len(),
                self.events@ == es0,
                pred == (|e: TypingEntry| now < e.timestamp + TYPING_TTL_SECS),
                kept@ == es0.take(i as int).filter(pred),
            decreases es0.len() - i,
        {
            let e = self.events[i];
            let keep = if e.timestamp >= now {
                true
            } else {
                now - e.timestamp < TYPING_TTL_SECS
            };
            proof {
                assert(keep == pred(e));
            }
            if keep {
                kept.push(e);
            }
            proof {
                reveal(Seq::filter);
                assert(es0.take(i as int + 1).drop_last() =~= es0.take(i as int));
                assert(es0.take(i as int + 1).last() == es0[i as int]);
                assert(kept@ =~= es0.take(i as int + 1).filter(pred));
            }
            i = i + 1;
        }
        proof {
            assert(es0.take(es0.len() as int) =~= es0);
        }
        self.events = kept;
        proof {
            assert(pred =~= (|e: TypingEntry| now < e.timestamp + TYPING_TTL_SECS));
        }
        proof {
            lemma_filter_unique(es0, pred);
            assert forall|i: int| 0 <= i < self.events@.len() implies self.user_names@.contains_key(
                #[trigger] self.events@[i].user_id,
            ) by {
                assert(es0.contains(self.events@[i]));
                let k = choose|k: int| 0 <= k < es0.len() && es0[k] == self.events@[i];
                assert(old(self).user_names@.contains_key(es0[k].user_id));
            }
        }
    }

    /// Draws the indicator text right-aligned one row above the bottom
    /// edge of the screen.
    pub fn render(&self, buf: &mut TermBuf, size: TermSize)
        requires
            self.wf(),
            size.height >= 1,
        ensures
            ({
                let text = spec_names_text(self.entries(), self.names());
                final(buf).grid() == spec_put(
                    old(buf).grid(),
                    graphemes_of(text),
                    spec_indicator_x(size.width as int, text.len() as int),
                    size.height - BOTTOM_START,
                )
            }),
            final(buf).spec_size() == old(buf).spec_size(),
            final(buf).spec_cursor_pos() == old(buf).spec_cursor_pos(),
            final(buf).spec_show_cursor() == old(buf).spec_show_cursor(),
            final(buf).wf() == old(buf).wf(),
    {
        let text = self.names_text();
        let cols = text.as_str().unicode_len();
        let w = size.width as usize;
        let margin = SIDE_PADDING as usize + 1;
        let x: usize = if w >= cols && w - cols >= margin {
            w - cols - margin
        } else {
            0
        };
        buf.put_string(text.as_str(), x as u16, size.height - BOTTOM_START);
    }

    /// The names of every user with a live entry, joined by ", ".
    fn names_text(&self) -> (r: String)
        requires
            self.wf(),
        ensures
            r@ == spec_names_text(self.entries(), self.names()),
    {
        let mut r = String::new();
        let mut i: usize = 0;
        while i < self.events.len()
            invariant
                self.wf(),
                i <= self.events@.len(),
                r@ == spec_names_text(self.events@.take(i as int), self.user_names@),
            decreases self.events@.len() - i,
        {
            if i > 0 {
                r.append(", ");
            }
            let uid = self.events[i].user_id;
            match self.user_names.get(&uid) {
                Some(name) => {
                    r.append(name.as_str());
                },
                None => {
                    proof {
                        assert(false);
                    }
                },
            }
            proof {
                assert(self.events@.take(i as int + 1).drop_last() =~= self.events@.take(i as int));
                assert(self.events@.take(i as int + 1).last() == self.events@[i as int]);
                assert(r@ =~= spec_names_text(
                    self.events@.take(i as int + 1),
                    self.user_names@,
                ));
            }
            i = i + 1;
        }
        proof {
            assert(self.events@.take(self.events@.len() as int) =~= self.events@);
        }
        r
    }
}

/// Filtering keeps only elements of the original sequence, and keeps
/// user ids unique, so a sweep preserves the indicator's invariant.
proof fn lemma_filter_unique(es: Seq<TypingEntry>, pred: spec_fn(TypingEntry) -> bool)
    requires
        unique_ids(es),
    ensures
        forall|i: int|
            0 <= i < es.filter(pred).len() ==> es.contains(#[trigger] es.filter(pred)[i]),
        unique_ids(es.filter(pred)),
    decreases es.len(),
{
    reveal(Seq::filter);
    if es.len() > 0 {
        let d = es.drop_last();
        let df = d.filter(pred);
        assert(unique_ids(d)) by {
            assert forall|k: int, l: int| 0 <= k < l < d.len() implies d[k].user_id
                != d[l].user_id by {
                assert(d[k] == es[k]);
                assert(d[l] == es[l]);
            }
        }
        lemma_filter_unique(d, pred);
        assert forall|i: int| 0 <= i < df.len() implies es.contains(#[trigger] df[i]) by {
            assert(d.contains(df[i]));
            let k = choose|k: int| 0 <= k < d.len() && d[k] == df[i];
            assert(es[k] == df[i]);
        }
        let f = es.filter(pred);
        if pred(es.last()) {
            assert(f == df.push(es.last()));
            assert(es.contains(es.last())) by {
                assert(es[es.len() - 1] == es.last());
            }
            assert forall|i: int, j: int| 0 <= i < j < f.len() implies f[i].user_id
                != f[j].user_id by {
                if j < df.len() {
                    assert(f[i] == df[i] && f[j] == df[j]);
                } else {
                    assert(f[j] == es.last());
                    assert(f[i] == df[i]);
                    assert(d.contains(df[i]));
                    let k = choose|k: int| 0 <= k < d.len() && d[k] == df[i];
                    assert(es[k] == df[i]);
                    assert(es[k].user_id != es[es.len() - 1].user_id);
                }
            }
        } else {
            assert(f == df);
        }
    }
}


/// A notification whose age has reached the TTL is absent after a
/// sweep; one younger than the TTL survives it.
pub proof fn lemma_sweep_expiry(es: Seq<TypingEntry>, now: u64, e: TypingEntry)
    ensures
        e.timestamp + TYPING_TTL_SECS <= now ==> !swept(es, now).contains(e),
        es.contains(e) && now < e.timestamp + TYPING_TTL_SECS ==> swept(es, now).contains(e),
{
    broadcast use vstd::seq_lib::group_filter_ensures;

    if e.timestamp + TYPING_TTL_SECS <= now {
        assert forall|i: int| 0 <= i < swept(es, now).len() implies swept(es, now)[i] != e by {}
    }
    if es.contains(e) && now < e.timestamp + TYPING_TTL_SECS {
        let i = choose|i: int| 0 <= i < es.len() && es[i] == e;
        assert(swept(es, now).contains(es[i]));
    }
}

/// Registering or refreshing a typing notification never makes two
/// entries share a user id: re-notification replaces the timestamp,
/// it does not duplicate the entry.
pub proof fn lemma_typing_start_keeps_ids_unique(
    pre: Indicator,
    post: Indicator,
    event: TypingEvent,
    scheduled: bool,
)
    requires
        unique_ids(pre.entries()),
        typing_start_rel(pre, post, event, scheduled),
    ensures
        unique_ids(post.entries()),
{
    let known = pre.names().contains_key(event.user_id) || event.user_name is Some;
    if known {
        if spec_has_user(pre.entries(), event.user_id) {
            assert forall|k: int, l: int|
                0 <= k < l < post.entries().len() implies post.entries()[k].user_id
                != post.entries()[l].user_id by {
                assert(post.entries()[k].user_id == pre.entries()[k].user_id);
                assert(post.entries()[l].user_id == pre.entries()[l].user_id);
            }
        } else {
            assert forall|k: int, l: int|
                0 <= k < l < post.entries().len() implies post.entries()[k].user_id
                != post.entries()[l].user_id by {
                if l == post.entries().len() - 1 {
                    assert(post.entries()[k] == pre.entries()[k]);
                    assert(!spec_has_user(pre.entries(), event.user_id));
                }
            }
        }
    }
}

} // verus!
