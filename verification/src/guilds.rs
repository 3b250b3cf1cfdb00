use vstd::prelude::*;
use vstd::utf8::encode_utf8;
use crate::chars::CharSet;
use crate::screen::{TermBuf, TermSize, char_to_string, graphemes_of, spec_put, spec_vline_grid};
use crate::state::Context;

verus! {

broadcast use vstd::seq_lib::group_to_multiset_ensures;

/// The row where the sidebar starts.
pub const TOP_START: u16 = 2;

/// The column where the sidebar starts.
pub const LEFT_START: u16 = 2;

/// The width of the sidebar in columns.
pub const MAX_LEN: u16 = 28;

/// What kind of channel a record describes.
#[derive(Debug, Clone, Copy, PartialEq, Eq, Structural)]
pub enum ChannelKind {
    Text,
    Voice,
    Category,
    Other,
}

/// The plain model of a guild channel: what the sidebar reads of it.
#[derive(Debug, Clone)]
pub struct ChannelRecord {
    pub id: u64,
    pub name: String,
    pub kind: ChannelKind,
    pub position: i64,
    /// The category the channel is filed under, if any.
    pub category_id: Option<u64>,
    /// Whether the user may send messages here.
    pub can_send: bool,
}

/// The plain model of a guild: its name and its channels.
#[derive(Debug, Clone)]
pub struct GuildRecord {
    pub name: String,
    pub channels: Vec<ChannelRecord>,
}

/// A category with the channels filed under it.
#[derive(Debug)]
pub struct CategoryEntry {
    pub category: ChannelRecord,
    pub channels: Vec<ChannelRecord>,
}

impl CategoryEntry {
    pub fn new(category: ChannelRecord) -> (r: CategoryEntry)
        ensures
            r.category == category,
            r.channels@ == Seq::<ChannelRecord>::empty(),
    {
        let r = CategoryEntry { category, channels: Vec::new() };
        proof {
            assert(r.channels@ =~= Seq::<ChannelRecord>::empty());
        }
        r
    }
}

/// One guild of the sidebar: its name, its categorized channels, and
/// the channels under no category.
#[derive(Debug)]
pub struct GuildEntry {
    pub name: String,
    pub categories: Vec<CategoryEntry>,
    pub misc: Vec<ChannelRecord>,
}

impl GuildEntry {
    pub fn new(name: String) -> (r: GuildEntry)
        ensures
            r.name == name,
            r.categories@ == Seq::<CategoryEntry>::empty(),
            r.misc@ == Seq::<ChannelRecord>::empty(),
    {
        let r = GuildEntry { name, categories: Vec::new(), misc: Vec::new() };
        proof {
            assert(r.categories@ =~= Seq::<CategoryEntry>::empty());
            assert(r.misc@ =~= Seq::<ChannelRecord>::empty());
        }
        r
    }
}

/// A field-for-field copy of a channel record.
pub fn clone_channel(c: &ChannelRecord) -> (r: ChannelRecord)
    ensures
        r == *c,
{
    ChannelRecord {
        id: c.id,
        name: c.name.clone(),
        kind: c.kind,
        position: c.position,
        category_id: c.category_id,
        can_send: c.can_send,
    }
}

/// The category channels of a guild, in their original order.
pub open spec fn cats_of(chs: Seq<ChannelRecord>) -> Seq<ChannelRecord>
    decreases chs.len(),
{
    if chs.len() == 0 {
        Seq::empty()
    } else if chs.last().kind is Category {
        cats_of(chs.drop_last()).push(chs.last())
    } else {
        cats_of(chs.drop_last())
    }
}

/// Whether some category channel carries this id.
pub open spec fn spec_has_category(chs: Seq<ChannelRecord>, id: u64) -> bool {
    exists|i: int| 0 <= i < chs.len() && chs[i].kind is Category && chs[i].id == id
}

/// Whether a channel is filed under the category with this id: it can
/// be written to, is not itself a category, and names the category.
pub open spec fn spec_belongs(c: ChannelRecord, cat_id: u64) -> bool {
    c.can_send && !(c.kind is Category) && c.category_id == Some(cat_id)
}

/// The channels of `chs` filed under the category with this id, in
/// their original order.
pub open spec fn cat_channels_of(chs: Seq<ChannelRecord>, cat_id: u64) -> Seq<ChannelRecord>
    decreases chs.len(),
{
    if chs.len() == 0 {
        Seq::empty()
    } else if spec_belongs(chs.last(), cat_id) {
        cat_channels_of(chs.drop_last(), cat_id).push(chs.last())
    } else {
        cat_channels_of(chs.drop_last(), cat_id)
    }
}

/// Whether a channel lands in the miscellaneous list: writable, not a
/// category, and without a category known to the guild.
pub open spec fn spec_is_misc(whole: Seq<ChannelRecord>, c: ChannelRecord) -> bool {
    c.can_send && !(c.kind is Category) && match c.category_id {
        None => true,
        Some(cid) => !spec_has_category(whole, cid),
    }
}

/// The channels of the prefix `upto` that land in the miscellaneous
/// list of a guild whose channels are `whole`, in original order.
pub open spec fn misc_of(whole: Seq<ChannelRecord>, upto: Seq<ChannelRecord>) -> Seq<ChannelRecord>
    decreases upto.len(),
{
    if upto.len() == 0 {
        Seq::empty()
    } else if spec_is_misc(whole, upto.last()) {
        misc_of(whole, upto.drop_last()).push(upto.last())
    } else {
        misc_of(whole, upto.drop_last())
    }
}

/// No two channels share an id.
pub open spec fn unique_channel_ids(chs: Seq<ChannelRecord>) -> bool {
    forall|i: int, j: int| 0 <= i < j < chs.len() ==> chs[i].id != chs[j].id
}

/// Sorted by ascending position.
pub open spec fn sorted_by_position(chs: Seq<ChannelRecord>) -> bool {
    forall|i: int, j: int| 0 <= i < j < chs.len() ==> chs[i].position <= chs[j].position
}

/// The category channels come from the guild's channels, with their
/// ids still unique.
proof fn lemma_cats_of_props(chs: Seq<ChannelRecord>)
    requires
        unique_channel_ids(chs),
    ensures
        forall|i: int| 0 <= i < cats_of(chs).len() ==> chs.contains(#[trigger] cats_of(chs)[i]),
        forall|i: int| 0 <= i < cats_of(chs).len() ==> (#[trigger] cats_of(chs)[i]).kind is Category,
        unique_channel_ids(cats_of(chs)),
    decreases chs.len(),
{
    if chs.len() > 0 {
        let d = chs.drop_last();
        assert(unique_channel_ids(d)) by {
            assert forall|k: int, l: int| 0 <= k < l < d.len() implies d[k].id != d[l].id by {
                assert(d[k] == chs[k]);
                assert(d[l] == chs[l]);
            }
        }
        lemma_cats_of_props(d);
        let df = cats_of(d);
        assert forall|i: int| 0 <= i < df.len() implies chs.contains(#[trigger] df[i]) by {
            assert(d.contains(df[i]));
            let k = choose|k: int| 0 <= k < d.len() && d[k] == df[i];
            assert(chs[k] == df[i]);
        }
        if chs.last().kind is Category {
            let f = cats_of(chs);
            assert(f == df.push(chs.last()));
            assert(chs.contains(chs.last())) by {
                assert(chs[chs.len() - 1] == chs.last());
            }
            assert forall|i: int, j: int| 0 <= i < j < f.len() implies f[i].id != f[j].id by {
                if j < df.len() {
                    assert(f[i] == df[i] && f[j] == df[j]);
                } else {
                    assert(f[j] == chs.last());
                    assert(f[i] == df[i]);
                    assert(d.contains(df[i]));
                    let k = choose|k: int| 0 <= k < d.len() && d[k] == df[i];
                    assert(chs[k] == df[i]);
                    assert(chs[k].id != chs[chs.len() - 1].id);
                }
            }
        }
    }
}

/// A category channel at some index of the guild's channels appears
/// among the category channels.
proof fn lemma_cats_of_contains(chs: Seq<ChannelRecord>, k: int)
    requires
        0 <= k < chs.len(),
        chs[k].kind is Category,
    ensures
        cats_of(chs).contains(chs[k]),
    decreases chs.len(),
{
    if chs.len() > 0 {
        if k == chs.len() - 1 {
            let f = cats_of(chs);
            assert(f[f.len() - 1] == chs[k]);
        } else {
            assert(chs.drop_last()[k] == chs[k]);
            lemma_cats_of_contains(chs.drop_last(), k);
            let df = cats_of(chs.drop_last());
            let m = choose|m: int| 0 <= m < df.len() && df[m] == chs[k];
            if chs.last().kind is Category {
                assert(cats_of(chs)[m] == df[m]);
            } else {
                assert(cats_of(chs) == df);
            }
        }
    }
}

/// Sorts channels by ascending position; a permutation of the input.
pub fn sort_channels(v: Vec<ChannelRecord>) -> (r: Vec<ChannelRecord>)
    ensures
        r@.len() == v@.len(),
        r@.to_multiset() == v@.to_multiset(),
        sorted_by_position(r@),
{
    let mut src = v;
    let mut out: Vec<ChannelRecord> = Vec::new();
    proof {
        assert(out@.to_multiset().add(src@.to_multiset()) =~= v@.to_multiset());
    }
    while src.len() > 0
        invariant
            out@.to_multiset().add(src@.to_multiset()) == v@.to_multiset(),
            out@.len() + src@.len() == v@.len(),
            sorted_by_position(out@),
            forall|i: int, j: int|
                0 <= i < out@.len() && 0 <= j < src@.len() ==> out@[i].position
                    <= src@[j].position,
        decreases src@.len(),
    {
        // Pick the channel with the least position.
        let mut mi: usize = 0;
        let mut j: usize = 1;
        while j < src.len()
            invariant
                j <= src@.len(),
                mi < j || mi == 0,
                mi < src@.len(),
                src@.len() > 0,
                forall|k: int| 0 <= k < j ==> src@[mi as int].position <= src@[k].position,
            decreases src@.len() - j,
        {
            if src[j].position < src[mi].position {
                mi = j;
            }
            j = j + 1;
        }
        let ghost src0 = src@;
        let ghost out0 = out@;
        let item = src.remove(mi);
        out.push(item);
        proof {
            assert(out@.to_multiset().add(src@.to_multiset()) =~= v@.to_multiset());
            assert forall|i: int, jj: int|
                0 <= i < out@.len() && 0 <= jj < src@.len() implies out@[i].position
                <= src@[jj].position by {
                assert(src0[mi as int].position <= src0[jj].position || src0[mi as int].position
                    <= src0[jj + 1].position);
                if i < out0.len() {
                    assert(out@[i] == out0[i]);
                }
            }
            assert(sorted_by_position(out@)) by {
                assert forall|i: int, jj: int| 0 <= i < jj < out@.len() implies out@[i].position
                    <= out@[jj].position by {
                    if jj < out0.len() {
                        assert(out@[i] == out0[i] && out@[jj] == out0[jj]);
                    } else {
                        assert(out@[jj] == item);
                        if i < out0.len() {
                            assert(out0[i].position <= src0[mi as int].position);
                        }
                    }
                }
            }
        }
    }
    out
}

/// Sorts categories by the ascending position of their category
/// channel; a permutation of the input.
pub fn sort_categories(v: Vec<CategoryEntry>) -> (r: Vec<CategoryEntry>)
    ensures
        r@.len() == v@.len(),
        r@.to_multiset() == v@.to_multiset(),
        forall|i: int, j: int|
            0 <= i < j < r@.len() ==> r@[i].category.position <= r@[j].category.position,
{
    let mut src = v;
    let mut out: Vec<CategoryEntry> = Vec::new();
    proof {
        assert(out@.to_multiset().add(src@.to_multiset()) =~= v@.to_multiset());
    }
    while src.len() > 0
        invariant
            out@.to_multiset().add(src@.to_multiset()) == v@.to_multiset(),
            out@.len() + src@.len() == v@.len(),
            forall|i: int, j: int|
                0 <= i < j < out@.len() ==> out@[i].category.position <= out@[j].category.position,
            forall|i: int, j: int|
                0 <= i < out@.len() && 0 <= j < src@.len() ==> out@[i].category.position
                    <= src@[j].category.position,
        decreases src@.len(),
    {
        let mut mi: usize = 0;
        let mut j: usize = 1;
        while j < src.len()
            invariant
                j <= src@.len(),
                mi < j || mi == 0,
                mi < src@.len(),
                src@.len() > 0,
                forall|k: int|
                    0 <= k < j ==> src@[mi as int].category.position <= src@[k].category.position,
            decreases src@.len() - j,
        {
            if src[j].category.position < src[mi].category.position {
                mi = j;
            }
            j = j + 1;
        }
        let ghost src0 = src@;
        let ghost out0 = out@;
        let item = src.remove(mi);
        out.push(item);
        proof {
            assert(out@.to_multiset().add(src@.to_multiset()) =~= v@.to_multiset());
            assert forall|i: int, jj: int|
                0 <= i < out@.len() && 0 <= jj < src@.len() implies out@[i].category.position
                <= src@[jj].category.position by {
                assert(src0[mi as int].category.position <= src0[jj].category.position || src0[
                    mi as int
                ].category.position <= src0[jj + 1].category.position);
                if i < out0.len() {
                    assert(out@[i] == out0[i]);
                }
            }
            assert forall|i: int, jj: int| 0 <= i < jj < out@.len() implies out@[
                i
            ].category.position <= out@[jj].category.position by {
                if jj < out0.len() {
                    assert(out@[i] == out0[i] && out@[jj] == out0[jj]);
                } else {
                    assert(out@[jj] == item);
                    if i < out0.len() {
                        assert(out0[i].category.position <= src0[mi as int].category.position);
                    }
                }
            }
        }
    }
    out
}

/// Truncates a name to the given display budget: a name whose byte
/// length fits is kept whole; a longer one keeps its leading
/// characters and ends in an ellipsis.
pub fn truncate(s: String, new_len: usize) -> (r: String)
    ensures
        r@ == spec_truncate(s@, new_len as int),
{
    if s.as_str().len() < new_len {
        s
    } else {
        let n = s.as_str().unicode_len();
        let keep: usize = if new_len > 0 {
            new_len - 1
        } else {
            0
        };
        let keep = if keep <= n {
            keep
        } else {
            n
        };
        let mut r = s.as_str().substring_char(0, keep).to_owned();
        let dots = char_to_string('…');
        r.append(dots.as_str());
        proof {
            assert(keep as int == spec_truncate_keep(s@.len() as int, new_len as int));
            assert(s@.subrange(0, keep as int) =~= s@.take(keep as int));
            assert(r@ == s@.take(spec_truncate_keep(s@.len() as int, new_len as int))
                + seq!['…']);
            assert(r@ == spec_truncate(s@, new_len as int));
        }
        r
    }
}

/// A name cut to a display budget: one whose byte length fits is
/// kept whole; a longer one keeps its leading characters and ends in
/// an ellipsis.
pub open spec fn spec_truncate(sv: Seq<char>, new_len: int) -> Seq<char> {
    if (encode_utf8(sv).len() as usize) < new_len {
        sv
    } else {
        sv.take(spec_truncate_keep(sv.len() as int, new_len)) + seq!['…']
    }
}

/// How many leading characters a truncated name keeps: one less than
/// the budget, within the name's own length.
pub open spec fn spec_truncate_keep(len: int, new_len: int) -> int {
    let k = if new_len > 0 {
        new_len - 1
    } else {
        0
    };
    if k <= len {
        k
    } else {
        len
    }
}

/// The guild sidebar: every guild with its categorized channel lists.
pub struct GuildList {
    guild_list: Vec<GuildEntry>,
}

impl GuildList {
    pub closed spec fn guilds(self) -> Seq<GuildEntry> {
        self.guild_list@
    }

    /// The guild entries currently shown.
    pub fn entries(&self) -> (r: &Vec<GuildEntry>)
        ensures
            r@ == self.guilds(),
    {
        &self.guild_list
    }

    pub fn new() -> (r: GuildList)
        ensures
            r.guilds() == Seq::<GuildEntry>::empty(),
    {
        let r = GuildList { guild_list: Vec::new() };
        proof {
            assert(r.guilds() =~= Seq::<GuildEntry>::empty());
        }
        r
    }

    /// Rebuilds the sidebar from the given guilds: for each guild, its
    /// category channels in their original order, each with the
    /// writable channels filed under it sorted by position, and the
    /// writable channels under no known category sorted by position.
    /// Channel ids are expected to be distinct, as platform ids are.
    pub fn populate_guild_list(&mut self, guilds: Vec<GuildRecord>)
        requires
            forall|g: int|
                0 <= g < guilds@.len() ==> unique_channel_ids(#[trigger] guilds@[g].channels@),
        ensures
            final(self).guilds().len() == guilds@.len(),
            forall|g: int|
                0 <= g < guilds@.len() ==> guild_entry_built(
                    #[trigger] final(self).guilds()[g],
                    guilds@[g],
                ),
    {
        let mut new_list: Vec<GuildEntry> = Vec::new();
        let mut g: usize = 0;
        while g < guilds.len()
            invariant
                g <= guilds@.len(),
                forall|k: int|
                    0 <= k < guilds@.len() ==> unique_channel_ids(#[trigger] guilds@[k].channels@),
                new_list@.len() == g as int,
                forall|k: int|
                    0 <= k < g ==> guild_entry_built(#[trigger] new_list@[k], guilds@[k]),
            decreases guilds@.len() - g,
        {
            let guild = &guilds[g];
            let entry = Self::build_guild_entry(guild);
            new_list.push(entry);
            g = g + 1;
        }
        self.guild_list = new_list;
    }

    /// Builds one guild's sidebar entry from its channel records.
    fn build_guild_entry(guild: &GuildRecord) -> (entry: GuildEntry)
        requires
            unique_channel_ids(guild.channels@),
        ensures
            guild_entry_built(entry, *guild),
    {
        let ghost chs = guild.channels@;
        let mut cats: Vec<CategoryEntry> = Vec::new();
        let mut i: usize = 0;
        proof {
            assert(cats@.map_values(|ce: CategoryEntry| ce.category) =~= cats_of(chs.take(0)));
        }
        while i < guild.channels.len()
            invariant
                i <= chs.len(),
                chs == guild.channels@,
                cats@.map_values(|ce: CategoryEntry| ce.category) == cats_of(chs.take(i as int)),
                forall|j: int|
                    0 <= j < cats@.len() ==> #[trigger] cats@[j].channels@ == Seq::<
                        ChannelRecord,
                    >::empty(),
            decreases chs.len() - i,
        {
            let ghost cats0 = cats@;
            let ch = &guild.channels[i];
            let is_cat = match ch.kind {
                ChannelKind::Category => true,
                _ => false,
            };
            if is_cat {
                cats.push(CategoryEntry::new(clone_channel(ch)));
                proof {
                    assert(cats@.map_values(|ce: CategoryEntry| ce.category) =~= cats0.map_values(
                        |ce: CategoryEntry| ce.category,
                    ).push(chs[i as int]));
                }
            }
            proof {
                assert(chs.take(i as int + 1).drop_last() =~= chs.take(i as int));
                assert(chs.take(i as int + 1).last() == chs[i as int]);
                assert(cats@.map_values(|ce: CategoryEntry| ce.category) =~= cats_of(
                    chs.take(i as int + 1),
                ));
            }
            i = i + 1;
        }
        proof {
            assert(chs.take(chs.len() as int) =~= chs);
        }
        // File the writable channels under their categories.
        let mut misc: Vec<ChannelRecord> = Vec::new();
        let mut i: usize = 0;
        proof {
            lemma_cats_of_props(chs);
            assert(misc@ =~= misc_of(chs, chs.take(0)));
            assert forall|j: int|
                0 <= j < cats@.len() implies #[trigger] cats@[j].channels@ == cat_channels_of(
                chs.take(0),
                cats_of(chs)[j].id,
            ) by {
                assert(cat_channels_of(chs.take(0), cats_of(chs)[j].id) =~= Seq::<
                    ChannelRecord,
                >::empty());
            }
        }
        while i < guild.channels.len()
            invariant
                i <= chs.len(),
                chs == guild.channels@,
                unique_channel_ids(chs),
                unique_channel_ids(cats_of(chs)),
                forall|j: int|
                    0 <= j < cats_of(chs).len() ==> chs.contains(#[trigger] cats_of(chs)[j]),
                forall|j: int|
                    0 <= j < cats_of(chs).len() ==> (#[trigger] cats_of(chs)[j]).kind is Category,
                cats@.map_values(|ce: CategoryEntry| ce.category) == cats_of(chs),
                cats@.len() == cats_of(chs).len(),
                forall|j: int|
                    0 <= j < cats@.len() ==> #[trigger] cats@[j].channels@ == cat_channels_of(
                        chs.take(i as int),
                        cats_of(chs)[j].id,
                    ),
                misc@ == misc_of(chs, chs.take(i as int)),
            decreases chs.len() - i,
        {
            let ghost cats0 = cats@;
            let ch = &guild.channels[i];
            let skip = match ch.kind {
                ChannelKind::Category => true,
                _ => !ch.can_send,
            };
            if !skip {
                let target: Option<usize> = match ch.category_id {
                    Some(cid) => Self::find_category(&cats, cid),
                    None => None,
                };
                match target {
                    Some(j0) => {
                        let copied = clone_channel(ch);
                        cats[j0].channels.push(copied);
                        proof {
                            assert(cats@[j0 as int].category == cats_of(chs)[j0 as int]);
                            assert(spec_belongs(chs[i as int], cats_of(chs)[j0 as int].id));
                            assert(!spec_is_misc(chs, chs[i as int])) by {
                                let cat = cats_of(chs)[j0 as int];
                                assert(chs.contains(cat));
                                let k = choose|k: int| 0 <= k < chs.len() && chs[k] == cat;
                                assert(chs[k].kind is Category && chs[k].id == cat.id);
                            }
                        }
                    },
                    None => {
                        let copied = clone_channel(ch);
                        misc.push(copied);
                        proof {
                            assert(spec_is_misc(chs, chs[i as int])) by {
                                match chs[i as int].category_id {
                                    Some(cid) => {
                                        if spec_has_category(chs, cid) {
                                            let k = choose|k: int|
                                                0 <= k < chs.len() && chs[k].kind is Category
                                                    && chs[k].id == cid;
                                            lemma_cats_of_contains(chs, k);
                                            let j = choose|j: int|
                                                0 <= j < cats_of(chs).len() && cats_of(chs)[j]
                                                    == chs[k];
                                            assert(cats@[j].category == cats_of(chs)[j]);
                                            assert(cats@[j].category.id == cid);
                                            assert(false);
                                        }
                                    },
                                    None => {},
                                }
                            }
                        }
                    },
                }
            } else {
                proof {
                    assert(!spec_is_misc(chs, chs[i as int]));
                }
            }
            proof {
                assert(chs.take(i as int + 1).drop_last() =~= chs.take(i as int));
                assert(chs.take(i as int + 1).last() == chs[i as int]);
                assert(misc@ =~= misc_of(chs, chs.take(i as int + 1)));
                assert(cats@.map_values(|ce: CategoryEntry| ce.category) =~= cats0.map_values(
                    |ce: CategoryEntry| ce.category,
                ));
                assert forall|j: int|
                    0 <= j < cats@.len() implies #[trigger] cats@[j].channels@ == cat_channels_of(
                    chs.take(i as int + 1),
                    cats_of(chs)[j].id,
                ) by {
                    if cats@[j].channels@ != cats0[j].channels@ {
                        assert(cats@[j].channels@ =~= cats0[j].channels@.push(chs[i as int]));
                    }
                    assert(cats@[j].channels@ =~= cat_channels_of(
                        chs.take(i as int + 1),
                        cats_of(chs)[j].id,
                    ));
                }
            }
            i = i + 1;
        }
        proof {
            assert(chs.take(chs.len() as int) =~= chs);
        }
        // Sort each category's channels and the miscellaneous list.
        let mut sorted_cats: Vec<CategoryEntry> = Vec::new();
        let mut j: usize = 0;
        while j < cats.len()
            invariant
                j <= cats@.len(),
                sorted_cats@.len() == j as int,
                cats@.map_values(|ce: CategoryEntry| ce.category) == cats_of(chs),
                cats@.len() == cats_of(chs).len(),
                forall|k: int|
                    0 <= k < cats@.len() ==> #[trigger] cats@[k].channels@ == cat_channels_of(
                        chs,
                        cats_of(chs)[k].id,
                    ),
                forall|k: int|
                    0 <= k < j ==> #[trigger] sorted_cats@[k].category == cats@[k].category,
                forall|k: int|
                    0 <= k < j ==> {
                        let ce = #[trigger] sorted_cats@[k];
                        &&& sorted_by_position(ce.channels@)
                        &&& ce.channels@.to_multiset() == cat_channels_of(
                            chs,
                            cats_of(chs)[k].id,
                        ).to_multiset()
                    },
            decreases cats@.len() - j,
        {
            let cat = clone_channel(&cats[j].category);
            let mut moved: Vec<ChannelRecord> = Vec::new();
            let mut t: usize = 0;
            while t < cats[j].channels.len()
                invariant
                    t <= cats@[j as int].channels@.len(),
                    j < cats@.len(),
                    moved@ == cats@[j as int].channels@.take(t as int),
                decreases cats@[j as int].channels@.len() - t,
            {
                let copied = clone_channel(&cats[j].channels[t]);
                moved.push(copied);
                proof {
                    assert(moved@ =~= cats@[j as int].channels@.take(t as int + 1));
                }
                t = t + 1;
            }
            proof {
                assert(cats@[j as int].channels@.take(cats@[j as int].channels@.len() as int)
                    =~= cats@[j as int].channels@);
            }
            let sorted = sort_channels(moved);
            sorted_cats.push(CategoryEntry { category: cat, channels: sorted });
            j = j + 1;
        }
        let sorted_misc = sort_channels(misc);
        let entry = GuildEntry {
            name: guild.name.clone(),
            categories: sorted_cats,
            misc: sorted_misc,
        };
        proof {
            assert(entry.categories@.map_values(|ce: CategoryEntry| ce.category) =~= cats_of(chs));
        }
        entry
    }

    /// The index of the category entry with this id, if one exists.
    fn find_category(cats: &Vec<CategoryEntry>, id: u64) -> (r: Option<usize>)
        ensures
            match r {
                Some(j) => j < cats@.len() && cats@[j as int].category.id == id,
                None => forall|j: int| 0 <= j < cats@.len() ==> cats@[j].category.id != id,
            },
    {
        let mut j: usize = 0;
        while j < cats.len()
            invariant
                j <= cats@.len(),
                forall|k: int| 0 <= k < j ==> cats@[k].category.id != id,
            decreases cats@.len() - j,
        {
            if cats[j].category.id == id {
                return Some(j);
            }
            j = j + 1;
        }
        None
    }
}

/// What `populate_guild_list` builds for one guild: the guild's name;
/// its category channels in their original order; under each, a
/// position-sorted permutation of the writable channels that name it;
/// and a position-sorted permutation of the writable channels under no
/// known category.
pub open spec fn guild_entry_built(entry: GuildEntry, grec: GuildRecord) -> bool {
    let chs = grec.channels@;
    &&& entry.name == grec.name
    &&& entry.categories@.map_values(|ce: CategoryEntry| ce.category) == cats_of(chs)
    &&& forall|j: int|
        0 <= j < entry.categories@.len() ==> {
            let ce = #[trigger] entry.categories@[j];
            &&& sorted_by_position(ce.channels@)
            &&& ce.channels@.to_multiset() == cat_channels_of(
                chs,
                cats_of(chs)[j].id,
            ).to_multiset()
        }
    &&& sorted_by_position(entry.misc@)
    &&& entry.misc@.to_multiset() == misc_of(chs, chs).to_multiset()
}

/// The views of a list of per-guild category orders.
pub open spec fn orders_view(ov: Seq<Vec<usize>>) -> Seq<Seq<usize>> {
    ov.map_values(|v: Vec<usize>| v@)
}

/// A valid display order for a guild's categories: every category
/// index exactly the right number of times, arranged by ascending
/// position of the category channel.
pub open spec fn valid_category_order(order: Seq<usize>, cats: Seq<CategoryEntry>) -> bool {
    &&& order.len() == cats.len()
    &&& forall|k: int| 0 <= k < order.len() ==> (#[trigger] order[k]) < cats.len()
    &&& forall|i: int, j: int|
        0 <= i < j < order.len() ==> cats[order[i] as int].category.position <= cats[
            order[j] as int
        ].category.position
    &&& forall|k: int| 0 <= k < cats.len() ==> #[trigger] order.contains(k as usize)
}

/// The text a channel row shows: the truncated name, with the muted
/// speaker glyph prefixed for a voice channel.
pub open spec fn spec_channel_text(c: ChannelRecord, cs: CharSet) -> Seq<char> {
    let t = spec_truncate(c.name@, MAX_LEN as int - (LEFT_START as int + 7));
    if c.kind is Voice {
        seq![cs.spec_volume_off()] + " "@ + t
    } else {
        t
    }
}

/// The grid and cursor row after drawing one category's channels from
/// index `ci` on, one row each, stopping at row `max_y`.
pub open spec fn spec_sidebar_channels(
    g: Seq<Seq<Option<Seq<char>>>>,
    chans: Seq<ChannelRecord>,
    cs: CharSet,
    y: int,
    max_y: int,
    ci: int,
) -> (Seq<Seq<Option<Seq<char>>>>, int)
    decreases chans.len() - ci,
{
    if ci < 0 || ci >= chans.len() || y >= max_y {
        (g, y)
    } else {
        let g1 = spec_put(
            g,
            graphemes_of(spec_channel_text(chans[ci], cs)),
            LEFT_START as int + 5,
            TOP_START as int + y,
        );
        spec_sidebar_channels(g1, chans, cs, y + 1, max_y, ci + 1)
    }
}

/// The grid and cursor row after drawing the uncategorized channels
/// from index `mi` on.
pub open spec fn spec_sidebar_misc(
    g: Seq<Seq<Option<Seq<char>>>>,
    misc: Seq<ChannelRecord>,
    y: int,
    max_y: int,
    mi: int,
) -> (Seq<Seq<Option<Seq<char>>>>, int)
    decreases misc.len() - mi,
{
    if mi < 0 || mi >= misc.len() || y >= max_y {
        (g, y)
    } else {
        let g1 = spec_put(
            g,
            graphemes_of(spec_truncate(misc[mi].name@, MAX_LEN as int - (LEFT_START as int + 4))),
            LEFT_START as int + 2,
            TOP_START as int + y,
        );
        spec_sidebar_misc(g1, misc, y + 1, max_y, mi + 1)
    }
}

/// The grid and cursor row after drawing the categories in display
/// order from index `oi` on: each category's truncated name, then its
/// channels, stopping at row `max_y`.
pub open spec fn spec_sidebar_categories(
    g: Seq<Seq<Option<Seq<char>>>>,
    cats: Seq<CategoryEntry>,
    order: Seq<usize>,
    cs: CharSet,
    y: int,
    max_y: int,
    oi: int,
) -> (Seq<Seq<Option<Seq<char>>>>, int)
    decreases order.len() - oi,
{
    if oi < 0 || oi >= order.len() || y >= max_y {
        (g, y)
    } else {
        let ce = cats[order[oi] as int];
        let g1 = spec_put(
            g,
            graphemes_of(
                spec_truncate(ce.category.name@, MAX_LEN as int - (LEFT_START as int + 4)),
            ),
            LEFT_START as int + 2,
            TOP_START as int + y,
        );
        let after = spec_sidebar_channels(g1, ce.channels@, cs, y + 1, max_y, 0);
        spec_sidebar_categories(after.0, cats, order, cs, after.1, max_y, oi + 1)
    }
}

/// The grid after drawing the guilds from index `gi` on: each guild's
/// truncated name, its categories in display order, then its
/// uncategorized channels, row-clipped at `max_y`.
pub open spec fn spec_sidebar_guilds(
    g: Seq<Seq<Option<Seq<char>>>>,
    guilds: Seq<GuildEntry>,
    orders: Seq<Seq<usize>>,
    cs: CharSet,
    y: int,
    max_y: int,
    gi: int,
) -> Seq<Seq<Option<Seq<char>>>>
    decreases guilds.len() - gi,
{
    if gi < 0 || gi >= guilds.len() || y >= max_y {
        g
    } else {
        let ge = guilds[gi];
        let g1 = spec_put(
            g,
            graphemes_of(spec_truncate(ge.name@, MAX_LEN as int - (LEFT_START as int + 2))),
            LEFT_START as int,
            TOP_START as int + y,
        );
        let a = spec_sidebar_categories(g1, ge.categories@, orders[gi], cs, y + 1, max_y, 0);
        let b = spec_sidebar_misc(a.0, ge.misc@, a.1, max_y, 0);
        spec_sidebar_guilds(b.0, guilds, orders, cs, b.1, max_y, gi + 1)
    }
}

/// The row where the sidebar stops drawing entries.
pub open spec fn spec_sidebar_max_y(height: int) -> int {
    if height - 7 >= 0 {
        height - 7
    } else {
        0
    }
}

/// One past the last row of the sidebar's dividing line.
pub open spec fn spec_vline_bottom(height: int) -> int {
    if height - 6 >= 0 {
        height - 6
    } else {
        0
    }
}

impl GuildList {
    /// Paints the sidebar: guild names, their categories by ascending
    /// position, the channels under each (voice channels marked with
    /// the icon set's muted-speaker glyph), and the uncategorized
    /// channels, then the dividing line. The display order of each
    /// guild's categories is any valid one, since equal positions
    /// leave the order between them open.
    pub fn render(&self, buf: &mut TermBuf, size: TermSize, context: &Context)
        ensures
            final(buf).spec_size() == old(buf).spec_size(),
            final(buf).spec_cursor_pos() == old(buf).spec_cursor_pos(),
            final(buf).spec_show_cursor() == old(buf).spec_show_cursor(),
            final(buf).wf() == old(buf).wf(),
            exists|orders: Seq<Seq<usize>>|
                {
                    &&& #[trigger] orders.len() == self.guilds().len()
                    &&& forall|gi: int|
                        0 <= gi < orders.len() ==> valid_category_order(
                            #[trigger] orders[gi],
                            self.guilds()[gi].categories@,
                        )
                    &&& final(buf).grid() == spec_vline_grid(
                        spec_sidebar_guilds(
                            old(buf).grid(),
                            self.guilds(),
                            orders,
                            context.char_set,
                            0,
                            spec_sidebar_max_y(size.height as int),
                            0,
                        ),
                        MAX_LEN as int - 1,
                        1,
                        spec_vline_bottom(size.height as int),
                    )
                },
    {
        // Fix a display order for every guild's categories up front.
        let mut orders: Vec<Vec<usize>> = Vec::new();
        let mut gi: usize = 0;
        while gi < self.guild_list.len()
            invariant
                gi <= self.guild_list@.len(),
                orders@.len() == gi as int,
                forall|k: int|
                    0 <= k < gi ==> valid_category_order(
                        #[trigger] orders_view(orders@)[k],
                        self.guild_list@[k].categories@,
                    ),
            decreases self.guild_list@.len() - gi,
        {
            let order = Self::category_order(&self.guild_list[gi].categories);
            let ghost o0 = orders@;
            orders.push(order);
            proof {
                assert forall|k: int| 0 <= k < gi implies valid_category_order(
                    #[trigger] orders_view(orders@)[k],
                    self.guild_list@[k].categories@,
                ) by {
                    assert(orders_view(o0)[k] == o0[k]@);
                    assert(orders_view(orders@)[k] == orders@[k]@);
                    assert(orders@[k] == o0[k]);
                }
                assert(orders_view(orders@)[gi as int] == orders@[gi as int]@);
            }
            gi = gi + 1;
        }
        let max_y: u16 = if size.height >= 7 {
            size.height - 7
        } else {
            0
        };
        let ghost g0 = buf.grid();
        self.render_guilds_from(buf, context, &orders, 0, 0, max_y);
        let line_bottom: u16 = if size.height >= 6 {
            size.height - 6
        } else {
            0
        };
        buf.draw_vertical_line(MAX_LEN - 1, 1, line_bottom);
        proof {
            let ws = orders_view(orders@);
            assert(ws.len() == self.guilds().len());
            assert(buf.grid() == spec_vline_grid(
                spec_sidebar_guilds(
                    g0,
                    self.guilds(),
                    ws,
                    context.char_set,
                    0,
                    spec_sidebar_max_y(size.height as int),
                    0,
                ),
                MAX_LEN as int - 1,
                1,
                spec_vline_bottom(size.height as int),
            ));
        }
    }

    /// Draws the guilds from index `gi` on; hands the grid work to the
    /// category and misc helpers, threading the cursor row.
    fn render_guilds_from(
        &self,
        buf: &mut TermBuf,
        context: &Context,
        orders: &Vec<Vec<usize>>,
        gi: usize,
        y: u16,
        max_y: u16,
    )
        requires
            gi <= self.guilds().len(),
            orders@.len() == self.guilds().len(),
            forall|k: int|
                0 <= k < orders@.len() ==> valid_category_order(
                    #[trigger] orders_view(orders@)[k],
                    self.guilds()[k].categories@,
                ),
            y <= max_y,
            max_y + 7 <= u16::MAX,
        ensures
            final(buf).spec_size() == old(buf).spec_size(),
            final(buf).spec_cursor_pos() == old(buf).spec_cursor_pos(),
            final(buf).spec_show_cursor() == old(buf).spec_show_cursor(),
            final(buf).wf() == old(buf).wf(),
            final(buf).grid() == spec_sidebar_guilds(
                old(buf).grid(),
                self.guilds(),
                orders_view(orders@),
                context.char_set,
                y as int,
                max_y as int,
                gi as int,
            ),
        decreases self.guilds().len() - gi,
    {
        if gi >= self.guild_list.len() || y >= max_y {
            return ;
        }
        let guild = &self.guild_list[gi];
        let name = truncate(guild.name.clone(), (MAX_LEN - (LEFT_START + 2)) as usize);
        buf.put_string(name.as_str(), LEFT_START, TOP_START + y);
        proof {
            assert(orders_view(orders@)[gi as int] == orders@[gi as int]@);
            assert(valid_category_order(orders@[gi as int]@, self.guilds()[gi as int].categories@));
        }
        let y1 = Self::render_categories_from(
            buf,
            &guild.categories,
            &orders[gi],
            context,
            y + 1,
            max_y,
            0,
        );
        let y2 = Self::render_misc_from(buf, &guild.misc, y1, max_y, 0);
        self.render_guilds_from(buf, context, orders, gi + 1, y2, max_y);
    }

    /// Draws one guild's categories in display order from index `oi`
    /// on, each followed by its channels; hands back the cursor row.
    fn render_categories_from(
        buf: &mut TermBuf,
        cats: &Vec<CategoryEntry>,
        order: &Vec<usize>,
        context: &Context,
        y: u16,
        max_y: u16,
        oi: usize,
    ) -> (yr: u16)
        requires
            oi <= order@.len(),
            forall|k: int| 0 <= k < order@.len() ==> (#[trigger] order@[k]) < cats@.len(),
            y <= max_y,
            max_y + 7 <= u16::MAX,
        ensures
            final(buf).spec_size() == old(buf).spec_size(),
            final(buf).spec_cursor_pos() == old(buf).spec_cursor_pos(),
            final(buf).spec_show_cursor() == old(buf).spec_show_cursor(),
            final(buf).wf() == old(buf).wf(),
            ({
                let after = spec_sidebar_categories(
                    old(buf).grid(),
                    cats@,
                    order@,
                    context.char_set,
                    y as int,
                    max_y as int,
                    oi as int,
                );
                final(buf).grid() == after.0 && yr as int == after.1
            }),
            yr <= max_y,
        decreases order@.len() - oi,
    {
        if oi >= order.len() || y >= max_y {
            return y;
        }
        let ce = &cats[order[oi]];
        let cname = truncate(ce.category.name.clone(), (MAX_LEN - (LEFT_START + 4)) as usize);
        buf.put_string(cname.as_str(), LEFT_START + 2, TOP_START + y);
        let y1 = Self::render_channels_from(buf, &ce.channels, context, y + 1, max_y, 0);
        let y2 = Self::render_categories_from(buf, cats, order, context, y1, max_y, oi + 1);
        y2
    }

    /// Draws one category's channels from index `ci` on; hands back
    /// the cursor row.
    fn render_channels_from(
        buf: &mut TermBuf,
        chans: &Vec<ChannelRecord>,
        context: &Context,
        y: u16,
        max_y: u16,
        ci: usize,
    ) -> (yr: u16)
        requires
            ci <= chans@.len(),
            y <= max_y,
            max_y + 7 <= u16::MAX,
        ensures
            final(buf).spec_size() == old(buf).spec_size(),
            final(buf).spec_cursor_pos() == old(buf).spec_cursor_pos(),
            final(buf).spec_show_cursor() == old(buf).spec_show_cursor(),
            final(buf).wf() == old(buf).wf(),
            ({
                let after = spec_sidebar_channels(
                    old(buf).grid(),
                    chans@,
                    context.char_set,
                    y as int,
                    max_y as int,
                    ci as int,
                );
                final(buf).grid() == after.0 && yr as int == after.1
            }),
            yr <= max_y,
        decreases chans@.len() - ci,
    {
        if ci >= chans.len() || y >= max_y {
            return y;
        }
        let channel = &chans[ci];
        let mut text = truncate(channel.name.clone(), (MAX_LEN - (LEFT_START + 7)) as usize);
        let is_voice = match channel.kind {
            ChannelKind::Voice => true,
            _ => false,
        };
        if is_voice {
            let mut marked = char_to_string(context.char_set.volume_off());
            marked.append(" ");
            marked.append(text.as_str());
            text = marked;
        }
        proof {
            assert(text@ =~= spec_channel_text(chans@[ci as int], context.char_set));
        }
        buf.put_string(text.as_str(), LEFT_START + 5, TOP_START + y);
        Self::render_channels_from(buf, chans, context, y + 1, max_y, ci + 1)
    }

    /// Draws a guild's uncategorized channels from index `mi` on;
    /// hands back the cursor row.
    fn render_misc_from(
        buf: &mut TermBuf,
        misc: &Vec<ChannelRecord>,
        y: u16,
        max_y: u16,
        mi: usize,
    ) -> (yr: u16)
        requires
            mi <= misc@.len(),
            y <= max_y,
            max_y + 7 <= u16::MAX,
        ensures
            final(buf).spec_size() == old(buf).spec_size(),
            final(buf).spec_cursor_pos() == old(buf).spec_cursor_pos(),
            final(buf).spec_show_cursor() == old(buf).spec_show_cursor(),
            final(buf).wf() == old(buf).wf(),
            ({
                let after = spec_sidebar_misc(
                    old(buf).grid(),
                    misc@,
                    y as int,
                    max_y as int,
                    mi as int,
                );
                final(buf).grid() == after.0 && yr as int == after.1
            }),
            yr <= max_y,
        decreases misc@.len() - mi,
    {
        if mi >= misc.len() || y >= max_y {
            return y;
        }
        let mname = truncate(misc[mi].name.clone(), (MAX_LEN - (LEFT_START + 4)) as usize);
        buf.put_string(mname.as_str(), LEFT_START + 2, TOP_START + y);
        Self::render_misc_from(buf, misc, y + 1, max_y, mi + 1)
    }

    /// The order in which to show categories: indices into the list,
    /// each exactly once, arranged by ascending position of the
    /// category channel.
    fn category_order(cats: &Vec<CategoryEntry>) -> (r: Vec<usize>)
        ensures
            valid_category_order(r@, cats@),
    {
        let mut rest: Vec<usize> = Vec::new();
        let mut i: usize = 0;
        while i < cats.len()
            invariant
                i <= cats@.len(),
                rest@.len() == i as int,
                forall|k: int| 0 <= k < i ==> #[trigger] rest@[k] == k,
            decreases cats@.len() - i,
        {
            rest.push(i);
            i = i + 1;
        }
        proof {
            assert forall|k: int| 0 <= k < cats@.len() implies #[trigger] rest@.contains(
                k as usize,
            ) by {
                assert(rest@[k] == k as usize);
            }
        }
        let mut out: Vec<usize> = Vec::new();
        while rest.len() > 0
            invariant
                out@.len() + rest@.len() == cats@.len(),
                forall|k: int| 0 <= k < rest@.len() ==> #[trigger] rest@[k] < cats@.len(),
                forall|k: int| 0 <= k < out@.len() ==> #[trigger] out@[k] < cats@.len(),
                forall|k: int|
                    0 <= k < cats@.len() ==> #[trigger] out@.contains(k as usize)
                        || rest@.contains(k as usize),
                forall|i2: int, j2: int|
                    0 <= i2 < j2 < out@.len() ==> cats@[out@[i2] as int].category.position
                        <= cats@[out@[j2] as int].category.position,
                forall|i2: int, j2: int|
                    0 <= i2 < out@.len() && 0 <= j2 < rest@.len() ==> cats@[
                        out@[i2] as int
                    ].category.position <= cats@[rest@[j2] as int].category.position,
            decreases rest@.len(),
        {
            let mut mi: usize = 0;
            let mut j: usize = 1;
            while j < rest.len()
                invariant
                    j <= rest@.len(),
                    mi < j || mi == 0,
                    mi < rest@.len(),
                    rest@.len() > 0,
                    forall|k: int| 0 <= k < rest@.len() ==> #[trigger] rest@[k] < cats@.len(),
                    forall|k: int|
                        0 <= k < j ==> cats@[rest@[mi as int] as int].category.position <= cats@[
                            rest@[k] as int
                        ].category.position,
                decreases rest@.len() - j,
            {
                if cats[rest[j]].category.position < cats[rest[mi]].category.position {
                    mi = j;
                }
                j = j + 1;
            }
            let ghost rest0 = rest@;
            let ghost out0 = out@;
            let idx = rest.remove(mi);
            out.push(idx);
            proof {
                assert forall|k: int|
                    0 <= k < cats@.len() implies #[trigger] out@.contains(k as usize)
                    || rest@.contains(k as usize) by {
                    if out0.contains(k as usize) {
                        let j2 = choose|j2: int| 0 <= j2 < out0.len() && out0[j2] == k as usize;
                        assert(out@[j2] == k as usize);
                    } else {
                        let j2 = choose|j2: int|
                            0 <= j2 < rest0.len() && rest0[j2] == k as usize;
                        if j2 == mi as int {
                            assert(out@[out@.len() - 1] == k as usize);
                        } else if j2 < mi as int {
                            assert(rest@[j2] == k as usize);
                        } else {
                            assert(rest@[j2 - 1] == k as usize);
                        }
                    }
                }
                assert forall|i2: int, j2: int|
                    0 <= i2 < out@.len() && 0 <= j2 < rest@.len() implies cats@[
                    out@[i2] as int
                ].category.position <= cats@[rest@[j2] as int].category.position by {
                    assert(rest@[j2] == rest0[j2] || rest@[j2] == rest0[j2 + 1]);
                    if i2 < out0.len() {
                        assert(out@[i2] == out0[i2]);
                    }
                }
                assert forall|i2: int, j2: int| 0 <= i2 < j2 < out@.len() implies cats@[
                    out@[i2] as int
                ].category.position <= cats@[out@[j2] as int].category.position by {
                    if j2 < out0.len() {
                        assert(out@[i2] == out0[i2] && out@[j2] == out0[j2]);
                    } else {
                        assert(out@[j2] == idx);
                        if i2 < out0.len() {
                            assert(cats@[out0[i2] as int].category.position <= cats@[
                                rest0[mi as int] as int
                            ].category.position);
                        }
                    }
                }
            }
        }
        proof {
            assert forall|k: int| 0 <= k < cats@.len() implies #[trigger] out@.contains(
                k as usize,
            ) by {}
        }
        out
    }
}

} // verus!
