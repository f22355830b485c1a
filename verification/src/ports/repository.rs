//! Repository port definitions.
//!
//! Each trait carries a mathematical model of the adapter's state - a
//! sequence of stored entities in insertion order - and every method's
//! contract is stated over that model.  An adapter that honors these
//! contracts can be plugged into the service without changing service
//! code.

use vstd::prelude::*;

use crate::error::RepoError;
use crate::error::RepoResult;
use crate::models::block::Block;
use crate::models::block::BlockId;
use crate::models::channel::Channel;
use crate::models::channel::ChannelId;
use crate::models::common::Page;
use crate::models::connection::Connection;

verus! {

// ─── Finding entities by id ─────────────────────────────────────────────

/// The index of the first channel with the given id, or the length of `s`
/// when no channel has it.
pub open spec fn channel_index(s: Seq<Channel>, id: Seq<char>) -> int
    decreases s.len(),
{
    if s.len() == 0 {
        0
    } else if s.first().id.0@ == id {
        0
    } else {
        1 + channel_index(s.drop_first(), id)
    }
}

/// The first channel with the given id, if any.
pub open spec fn find_channel(s: Seq<Channel>, id: Seq<char>) -> Option<Channel> {
    if channel_index(s, id) < s.len() {
        Some(s[channel_index(s, id)])
    } else {
        None
    }
}

/// The first matching index really is the first: nothing before it has the
/// id, and it has the id unless the id is absent.
pub proof fn lemma_channel_index(s: Seq<Channel>, id: Seq<char>)
    ensures
        0 <= channel_index(s, id) <= s.len(),
        channel_index(s, id) < s.len() ==> s[channel_index(s, id)].id.0@ == id,
        forall|j: int| 0 <= j < channel_index(s, id) ==> s[j].id.0@ != id,
    decreases s.len(),
{
    if s.len() == 0 {
    } else if s.first().id.0@ == id {
    } else {
        lemma_channel_index(s.drop_first(), id);
        let n = channel_index(s.drop_first(), id);
        assert forall|j: int| 0 <= j < 1 + n implies s[j].id.0@ != id by {
            if j > 0 {
                assert(s.drop_first()[j - 1].id.0@ != id);
            }
        }
    }
}

/// The index of the first block with the given id, or the length of `s`
/// when no block has it.
pub open spec fn block_index(s: Seq<Block>, id: Seq<char>) -> int
    decreases s.len(),
{
    if s.len() == 0 {
        0
    } else if s.first().id.0@ == id {
        0
    } else {
        1 + block_index(s.drop_first(), id)
    }
}

/// The first block with the given id, if any.
pub open spec fn find_block(s: Seq<Block>, id: Seq<char>) -> Option<Block> {
    if block_index(s, id) < s.len() {
        Some(s[block_index(s, id)])
    } else {
        None
    }
}

/// The first matching index really is the first.
pub proof fn lemma_block_index(s: Seq<Block>, id: Seq<char>)
    ensures
        0 <= block_index(s, id) <= s.len(),
        block_index(s, id) < s.len() ==> s[block_index(s, id)].id.0@ == id,
        forall|j: int| 0 <= j < block_index(s, id) ==> s[j].id.0@ != id,
    decreases s.len(),
{
    if s.len() == 0 {
    } else if s.first().id.0@ == id {
    } else {
        lemma_block_index(s.drop_first(), id);
        let n = block_index(s.drop_first(), id);
        assert forall|j: int| 0 <= j < 1 + n implies s[j].id.0@ != id by {
            if j > 0 {
                assert(s.drop_first()[j - 1].id.0@ != id);
            }
        }
    }
}

/// Whether a connection joins the given block and channel.
pub open spec fn is_pair(cn: Connection, b: Seq<char>, c: Seq<char>) -> bool {
    cn.block_id.0@ == b && cn.channel_id.0@ == c
}

/// The index of the first connection for the pair, or the length of `s`
/// when the pair is not connected.
pub open spec fn conn_index(s: Seq<Connection>, b: Seq<char>, c: Seq<char>) -> int
    decreases s.len(),
{
    if s.len() == 0 {
        0
    } else if is_pair(s.first(), b, c) {
        0
    } else {
        1 + conn_index(s.drop_first(), b, c)
    }
}

/// The first connection for the pair, if any.
pub open spec fn find_conn(s: Seq<Connection>, b: Seq<char>, c: Seq<char>) -> Option<Connection> {
    if conn_index(s, b, c) < s.len() {
        Some(s[conn_index(s, b, c)])
    } else {
        None
    }
}

/// Whether the pair is connected.
pub open spec fn pair_connected(s: Seq<Connection>, b: Seq<char>, c: Seq<char>) -> bool {
    find_conn(s, b, c) is Some
}

/// The first matching index really is the first.
pub proof fn lemma_conn_index(s: Seq<Connection>, b: Seq<char>, c: Seq<char>)
    ensures
        0 <= conn_index(s, b, c) <= s.len(),
        conn_index(s, b, c) < s.len() ==> is_pair(s[conn_index(s, b, c)], b, c),
        forall|j: int| 0 <= j < conn_index(s, b, c) ==> !is_pair(s[j], b, c),
    decreases s.len(),
{
    if s.len() == 0 {
    } else if is_pair(s.first(), b, c) {
    } else {
        lemma_conn_index(s.drop_first(), b, c);
        let n = conn_index(s.drop_first(), b, c);
        assert forall|j: int| 0 <= j < 1 + n implies !is_pair(s[j], b, c) by {
            if j > 0 {
                assert(!is_pair(s.drop_first()[j - 1], b, c));
            }
        }
    }
}

/// A pair is connected exactly when some index holds it.
pub proof fn lemma_pair_connected_exists(s: Seq<Connection>, b: Seq<char>, c: Seq<char>)
    ensures
        pair_connected(s, b, c) <==> exists|i: int| 0 <= i < s.len() && is_pair(#[trigger] s[i], b, c),
{
    lemma_conn_index(s, b, c);
    if exists|i: int| 0 <= i < s.len() && is_pair(#[trigger] s[i], b, c) {
        let i = choose|i: int| 0 <= i < s.len() && is_pair(#[trigger] s[i], b, c);
        if conn_index(s, b, c) >= s.len() {
            assert(!is_pair(s[i], b, c));
        }
    }
}

/// Appending a connection for a pair that was not connected makes that
/// connection the one the pair resolves to.
pub proof fn lemma_find_conn_push(s: Seq<Connection>, cn: Connection, b: Seq<char>, c: Seq<char>)
    requires
        !pair_connected(s, b, c),
        is_pair(cn, b, c),
    ensures
        find_conn(s.push(cn), b, c) == Some(cn),
        pair_connected(s.push(cn), b, c),
{
    lemma_conn_index(s, b, c);
    lemma_conn_index(s.push(cn), b, c);
    let t = s.push(cn);
    let ci = conn_index(t, b, c);
    assert(conn_index(s, b, c) == s.len());
    if ci < s.len() {
        assert(is_pair(t[ci], b, c));
        assert(t[ci] == s[ci]);
        assert(!is_pair(s[ci], b, c));
    }
    if ci == t.len() {
        assert(!is_pair(t[s.len() as int], b, c));
    }
    assert(ci == s.len());
}

// ─── Positions within a channel ─────────────────────────────────────────

/// Whether any connection in `s` belongs to the channel.
pub open spec fn channel_has_conn(s: Seq<Connection>, c: Seq<char>) -> bool {
    exists|i: int| 0 <= i < s.len() && #[trigger] s[i].channel_id.0@ == c
}

/// The greatest position among the channel's connections; meaningful only
/// when the channel has at least one connection.
pub open spec fn spec_max_position(s: Seq<Connection>, c: Seq<char>) -> int
    decreases s.len(),
{
    if s.len() == 0 {
        0
    } else {
        let rest = spec_max_position(s.drop_last(), c);
        if s.last().channel_id.0@ == c {
            if channel_has_conn(s.drop_last(), c) && rest > s.last().position {
                rest
            } else {
                s.last().position as int
            }
        } else {
            rest
        }
    }
}

/// What `next_position` returns for a channel: 0 when the channel has no
/// connections, one past the greatest existing position otherwise.
pub open spec fn spec_next_position(s: Seq<Connection>, c: Seq<char>) -> int {
    if channel_has_conn(s, c) {
        spec_max_position(s, c) + 1
    } else {
        0
    }
}

/// Whether `next_position` can be represented as an `i32`.
pub open spec fn next_position_fits(s: Seq<Connection>, c: Seq<char>) -> bool {
    spec_next_position(s, c) <= i32::MAX
}

// ─── Ordering connections by position ───────────────────────────────────

/// Insert a connection into a sequence after every leading connection
/// whose position is not greater: the stable insertion step.
pub open spec fn insert_conn_sorted(x: Connection, s: Seq<Connection>) -> Seq<Connection>
    decreases s.len(),
{
    if s.len() == 0 {
        seq![x]
    } else if s.first().position <= x.position {
        seq![s.first()] + insert_conn_sorted(x, s.drop_first())
    } else {
        seq![x] + s
    }
}

/// Stable sort of connections by ascending position: connections with
/// equal positions keep their relative order.
pub open spec fn sort_conns(s: Seq<Connection>) -> Seq<Connection>
    decreases s.len(),
{
    if s.len() == 0 {
        Seq::empty()
    } else {
        insert_conn_sorted(s.last(), sort_conns(s.drop_last()))
    }
}

/// Insert a channel into a sequence after every leading channel created no
/// earlier: the stable insertion step for newest-first ordering.
pub open spec fn insert_channel_desc(x: Channel, s: Seq<Channel>) -> Seq<Channel>
    decreases s.len(),
{
    if s.len() == 0 {
        seq![x]
    } else if s.first().created_at >= x.created_at {
        seq![s.first()] + insert_channel_desc(x, s.drop_first())
    } else {
        seq![x] + s
    }
}

/// Stable sort of channels by descending creation time: channels created
/// at the same instant keep their relative order.
pub open spec fn sort_channels_desc(s: Seq<Channel>) -> Seq<Channel>
    decreases s.len(),
{
    if s.len() == 0 {
        Seq::empty()
    } else {
        insert_channel_desc(s.last(), sort_channels_desc(s.drop_last()))
    }
}

/// The page of `s` that starts at `offset` and holds at most `limit`
/// items.
pub open spec fn page_slice(s: Seq<Channel>, offset: int, limit: int) -> Seq<Channel> {
    let start = if offset > s.len() {
        s.len() as int
    } else {
        offset
    };
    let end = if offset + limit > s.len() {
        s.len() as int
    } else {
        offset + limit
    };
    s.subrange(start, end)
}

// ─── Batches ────────────────────────────────────────────────────────────

/// Whether a batch of blocks collides with the store or within itself: an
/// id that already exists, or one id used twice in the batch.
pub open spec fn blocks_batch_dup(bs: Seq<Block>, s: Seq<Block>) -> bool {
    (exists|i: int| 0 <= i < bs.len() && find_block(s, #[trigger] bs[i].id.0@) is Some) || (exists|
        i: int,
        j: int,
    |
        0 <= i < j < bs.len() && (#[trigger] bs[i]).id.0@ == (#[trigger] bs[j]).id.0@)
}

/// Whether a batch of connection triples collides with the store or within
/// itself: a pair that is already connected, or one pair named twice.
pub open spec fn conns_batch_dup(ts: Seq<(BlockId, ChannelId, i32)>, s: Seq<Connection>) -> bool {
    (exists|i: int|
        0 <= i < ts.len() && pair_connected(s, (#[trigger] ts[i]).0.0@, ts[i].1.0@)) || (exists|
        i: int,
        j: int,
    |
        0 <= i < j < ts.len() && (#[trigger] ts[i]).0.0@ == (#[trigger] ts[j]).0.0@ && ts[i].1.0@
            == ts[j].1.0@)
}

// ─── The ports ──────────────────────────────────────────────────────────

/// Repository for channel operations.
pub trait ChannelRepository: Sized {
    /// The stored channels, in insertion order.
    spec fn channels(&self) -> Seq<Channel>;

    /// Create a new channel; fails with `Duplicate` when the id exists.
    fn create(&mut self, channel: &Channel) -> (r: RepoResult<()>)
        ensures
            find_channel(old(self).channels(), channel.id.0@) is Some ==> r == Err::<
                (),
                RepoError,
            >(RepoError::Duplicate) && final(self).channels() == old(self).channels(),
            find_channel(old(self).channels(), channel.id.0@) is None ==> r is Ok && final(self).channels() == old(self).channels().push(*channel),
    ;

    /// Get a channel by id.
    fn get(&self, id: &ChannelId) -> (r: RepoResult<Option<Channel>>)
        ensures
            r == Ok::<Option<Channel>, RepoError>(find_channel(self.channels(), id.0@)),
    ;

    /// List channels, newest first, with pagination.
    fn list(&self, limit: usize, offset: usize) -> (r: RepoResult<Page<Channel>>)
        ensures
            r matches Ok(p) && p.items@ == page_slice(
                sort_channels_desc(self.channels()),
                offset as int,
                limit as int,
            ) && p.total == self.channels().len() && p.offset == offset && p.limit == limit,
    ;

    /// Update an existing channel; fails with `NotFound` when the id is
    /// absent.
    fn update(&mut self, channel: &Channel) -> (r: RepoResult<()>)
        ensures
            find_channel(old(self).channels(), channel.id.0@) is None ==> r == Err::<
                (),
                RepoError,
            >(RepoError::NotFound) && final(self).channels() == old(self).channels(),
            find_channel(old(self).channels(), channel.id.0@) is Some ==> r is Ok && final(self).channels() == old(self).channels().update(
                channel_index(old(self).channels(), channel.id.0@),
                *channel,
            ),
    ;

    /// Delete a channel by id; fails with `NotFound` when the id is
    /// absent.
    fn delete(&mut self, id: &ChannelId) -> (r: RepoResult<()>)
        ensures
            find_channel(old(self).channels(), id.0@) is None ==> r == Err::<(), RepoError>(
                RepoError::NotFound,
            ) && final(self).channels() == old(self).channels(),
            find_channel(old(self).channels(), id.0@) is Some ==> r is Ok && final(self).channels()
                == old(self).channels().filter(|c: Channel| c.id.0@ != id.0@),
    ;

    /// Count stored channels.
    fn count(&self) -> (r: RepoResult<usize>)
        ensures
            r == Ok::<usize, RepoError>(self.channels().len() as usize),
    ;
}

/// Repository for block operations.
pub trait BlockRepository: Sized {
    /// The stored blocks, in insertion order.
    spec fn blocks(&self) -> Seq<Block>;

    /// Create a new block; fails with `Duplicate` when the id exists.
    fn create(&mut self, block: &Block) -> (r: RepoResult<()>)
        ensures
            find_block(old(self).blocks(), block.id.0@) is Some ==> r == Err::<(), RepoError>(
                RepoError::Duplicate,
            ) && final(self).blocks() == old(self).blocks(),
            find_block(old(self).blocks(), block.id.0@) is None ==> r is Ok && final(self).blocks()
                == old(self).blocks().push(*block),
    ;

    /// Create several blocks at once, all or none: on any id collision
    /// nothing is stored and the call fails with `Duplicate`.
    fn create_batch(&mut self, blocks: &Vec<Block>) -> (r: RepoResult<()>)
        ensures
            blocks_batch_dup(blocks@, old(self).blocks()) ==> r == Err::<(), RepoError>(
                RepoError::Duplicate,
            ) && final(self).blocks() == old(self).blocks(),
            !blocks_batch_dup(blocks@, old(self).blocks()) ==> r is Ok && final(self).blocks()
                == old(self).blocks() + blocks@,
    ;

    /// Get a block by id.
    fn get(&self, id: &BlockId) -> (r: RepoResult<Option<Block>>)
        ensures
            r == Ok::<Option<Block>, RepoError>(find_block(self.blocks(), id.0@)),
    ;

    /// Update an existing block; fails with `NotFound` when the id is
    /// absent.
    fn update(&mut self, block: &Block) -> (r: RepoResult<()>)
        ensures
            find_block(old(self).blocks(), block.id.0@) is None ==> r == Err::<(), RepoError>(
                RepoError::NotFound,
            ) && final(self).blocks() == old(self).blocks(),
            find_block(old(self).blocks(), block.id.0@) is Some ==> r is Ok && final(self).blocks()
                == old(self).blocks().update(
                block_index(old(self).blocks(), block.id.0@),
                *block,
            ),
    ;

    /// Delete a block by id; fails with `NotFound` when the id is absent.
    fn delete(&mut self, id: &BlockId) -> (r: RepoResult<()>)
        ensures
            find_block(old(self).blocks(), id.0@) is None ==> r == Err::<(), RepoError>(
                RepoError::NotFound,
            ) && final(self).blocks() == old(self).blocks(),
            find_block(old(self).blocks(), id.0@) is Some ==> r is Ok && final(self).blocks()
                == old(self).blocks().filter(|b: Block| b.id.0@ != id.0@),
    ;
}

/// Repository for connection operations (block-channel relationships).
pub trait ConnectionRepository: Sized {
    /// The stored connections, in insertion order.
    spec fn conns(&self) -> Seq<Connection>;

    /// Connect a block to a channel at the given position; fails with
    /// `Duplicate` when the pair is already connected.
    fn connect(&mut self, block_id: &BlockId, channel_id: &ChannelId, position: i32) -> (r:
        RepoResult<()>)
        ensures
            pair_connected(old(self).conns(), block_id.0@, channel_id.0@) ==> r == Err::<
                (),
                RepoError,
            >(RepoError::Duplicate) && final(self).conns() == old(self).conns(),
            !pair_connected(old(self).conns(), block_id.0@, channel_id.0@) ==> r is Ok && final(self).conns().len() == old(self).conns().len() + 1 && final(self).conns().drop_last()
                == old(self).conns() && final(self).conns().last().block_id == *block_id && final(self).conns().last().channel_id == *channel_id && final(self).conns().last().position
                == position,
    ;

    /// Connect several blocks at once, all or none: on any pair collision
    /// nothing is stored and the call fails with `Duplicate`.
    fn connect_batch(&mut self, conns: &Vec<(BlockId, ChannelId, i32)>) -> (r: RepoResult<()>)
        ensures
            conns_batch_dup(conns@, old(self).conns()) ==> r == Err::<(), RepoError>(
                RepoError::Duplicate,
            ) && final(self).conns() == old(self).conns(),
            !conns_batch_dup(conns@, old(self).conns()) ==> r is Ok && final(self).conns().len()
                == old(self).conns().len() + conns@.len() && final(self).conns().take(
                old(self).conns().len() as int,
            ) == old(self).conns() && (forall|i: int|
                #![trigger conns@[i]]
                0 <= i < conns@.len() ==> final(self).conns()[old(self).conns().len() + i].block_id
                    == conns@[i].0 && final(self).conns()[old(self).conns().len() + i].channel_id
                    == conns@[i].1 && final(self).conns()[old(self).conns().len() + i].position
                    == conns@[i].2),
    ;

    /// Disconnect a block from a channel; fails with `NotFound` when the
    /// pair is not connected.
    fn disconnect(&mut self, block_id: &BlockId, channel_id: &ChannelId) -> (r: RepoResult<()>)
        ensures
            !pair_connected(old(self).conns(), block_id.0@, channel_id.0@) ==> r == Err::<
                (),
                RepoError,
            >(RepoError::NotFound) && final(self).conns() == old(self).conns(),
            pair_connected(old(self).conns(), block_id.0@, channel_id.0@) ==> r is Ok && final(self).conns() == old(self).conns().filter(
                |cn: Connection| !is_pair(cn, block_id.0@, channel_id.0@),
            ),
    ;

    /// The channel's connections, ordered by ascending position; ties keep
    /// insertion order.
    fn connections_in_channel(&self, channel_id: &ChannelId) -> (r: RepoResult<Vec<Connection>>)
        ensures
            r matches Ok(v) && v@ == sort_conns(
                self.conns().filter(|cn: Connection| cn.channel_id.0@ == channel_id.0@),
            ),
    ;

    /// The block's connections, in insertion order.
    fn connections_for_block(&self, block_id: &BlockId) -> (r: RepoResult<Vec<Connection>>)
        ensures
            r matches Ok(v) && v@ == self.conns().filter(
                |cn: Connection| cn.block_id.0@ == block_id.0@,
            ),
    ;

    /// Get the connection for a specific pair.
    fn get_connection(&self, block_id: &BlockId, channel_id: &ChannelId) -> (r: RepoResult<
        Option<Connection>,
    >)
        ensures
            r == Ok::<Option<Connection>, RepoError>(
                find_conn(self.conns(), block_id.0@, channel_id.0@),
            ),
    ;

    /// Overwrite the position of a pair's connection; fails with
    /// `NotFound` when the pair is not connected.  Position collisions
    /// within a channel are permitted.
    fn reorder(&mut self, channel_id: &ChannelId, block_id: &BlockId, new_position: i32) -> (r:
        RepoResult<()>)
        ensures
            !pair_connected(old(self).conns(), block_id.0@, channel_id.0@) ==> r == Err::<
                (),
                RepoError,
            >(RepoError::NotFound) && final(self).conns() == old(self).conns(),
            pair_connected(old(self).conns(), block_id.0@, channel_id.0@) ==> r is Ok && final(self).conns() == old(self).conns().update(
                conn_index(old(self).conns(), block_id.0@, channel_id.0@),
                (Connection {
                    position: new_position,
                    ..old(self).conns()[conn_index(old(self).conns(), block_id.0@, channel_id.0@)]
                }),
            ),
    ;

    /// The next free position in a channel: 0 for a channel with no
    /// connections, one past the greatest position otherwise.  Fails only
    /// when that value does not fit an `i32`.
    fn next_position(&self, channel_id: &ChannelId) -> (r: RepoResult<i32>)
        ensures
            next_position_fits(self.conns(), channel_id.0@) ==> (r matches Ok(p) && p as int
                == spec_next_position(self.conns(), channel_id.0@)),
            !next_position_fits(self.conns(), channel_id.0@) ==> (r matches Err(e)
                && e is Database),
    ;

    /// Remove every connection that references the channel: the
    /// cascade-delete step.  Adapters whose storage enforces referential
    /// cascade may implement this as reading nothing.
    fn purge_channel(&mut self, channel_id: &ChannelId)
        ensures
            final(self).conns() == old(self).conns().filter(
                |cn: Connection| cn.channel_id.0@ != channel_id.0@,
            ),
    ;

    /// Remove every connection that references the block: the
    /// cascade-delete step.
    fn purge_block(&mut self, block_id: &BlockId)
        ensures
            final(self).conns() == old(self).conns().filter(
                |cn: Connection| cn.block_id.0@ != block_id.0@,
            ),
    ;
}

} // verus!
