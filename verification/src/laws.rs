//! Laws of the connection subsystem, stated over the repository models.
//!
//! Each proof function here records a property that holds of every state
//! the service can produce, phrased over the same spec functions that the
//! service's and repositories' contracts use.

use vstd::prelude::*;

use crate::models::block::Block;
use crate::models::channel::Channel;
use crate::models::connection::Connection;
use crate::ports::repository::block_index;
use crate::ports::repository::channel_has_conn;
use crate::ports::repository::channel_index;
use crate::ports::repository::find_block;
use crate::ports::repository::find_channel;
use crate::ports::repository::lemma_block_index;
use crate::ports::repository::lemma_channel_index;
use crate::ports::repository::insert_conn_sorted;
use crate::ports::repository::is_pair;
use crate::ports::repository::lemma_find_conn_push;
use crate::ports::repository::lemma_pair_connected_exists;
use crate::ports::repository::pair_connected;
use crate::ports::repository::sort_conns;
use crate::ports::repository::spec_next_position;
use crate::services::garden::join_pairs;

verus! {

/// Whether a sequence of connections is ordered by ascending position.
pub open spec fn sorted_by_position(s: Seq<Connection>) -> bool {
    forall|i: int, j: int|
        0 <= i < j < s.len() ==> (#[trigger] s[i]).position <= (#[trigger] s[j]).position
}

/// Connection uniqueness: a successful connect appends the pair's
/// connection, after which the pair is connected; `connect_block`'s
/// contract then forces the already-connected rejection for every further
/// connect of the same pair, whatever position it names, and the
/// repositories' `connect` contract forces the duplicate error.
pub proof fn lemma_connection_uniqueness(
    conns: Seq<Connection>,
    cn: Connection,
    b: Seq<char>,
    c: Seq<char>,
)
    requires
        !pair_connected(conns, b, c),
        is_pair(cn, b, c),
    ensures
        pair_connected(conns.push(cn), b, c),
{
    lemma_find_conn_push(conns, cn, b, c);
}

/// Append-position base case: a channel with no connections hands out
/// position zero next.
pub proof fn lemma_next_position_empty(conns: Seq<Connection>, c: Seq<char>)
    requires
        !channel_has_conn(conns, c),
    ensures
        spec_next_position(conns, c) == 0,
{
}

/// Append-position monotonicity: connecting a block to a channel at any
/// position no smaller than the channel's next free position - in
/// particular at the next free position itself - moves the next free
/// position to one past it.  Iterated from the empty channel this gives:
/// after connecting at positions 0 to n-1 in order the next position is
/// n, and after connecting at an arbitrary position k beyond the end it
/// is k+1.
pub proof fn lemma_next_position_append(conns: Seq<Connection>, cn: Connection, c: Seq<char>)
    requires
        cn.channel_id.0@ == c,
        cn.position as int >= spec_next_position(conns, c),
    ensures
        spec_next_position(conns.push(cn), c) == cn.position + 1,
{
    let t = conns.push(cn);
    assert(t.drop_last() =~= conns);
    assert(t.last() == cn);
    assert(channel_has_conn(t, c)) by {
        assert(t[t.len() - 1].channel_id.0@ == c);
    }
}

/// What remains of the connections after a channel's cascade delete.
pub open spec fn after_channel_delete(conns: Seq<Connection>, id: Seq<char>) -> Seq<Connection> {
    conns.filter(|cn: Connection| cn.channel_id.0@ != id)
}

/// What remains of the connections after a block's cascade delete.
pub open spec fn after_block_delete(conns: Seq<Connection>, id: Seq<char>) -> Seq<Connection> {
    conns.filter(|cn: Connection| cn.block_id.0@ != id)
}

/// Cascade delete for channels: after the cascade removal that
/// `delete_channel` performs, no connection referencing the channel
/// remains; `delete_channel`'s contract separately guarantees that the
/// block store is untouched.
pub proof fn lemma_cascade_removes_channel(conns: Seq<Connection>, id: Seq<char>)
    ensures
        forall|i: int|
            0 <= i < after_channel_delete(conns, id).len() ==> (#[trigger] after_channel_delete(
                conns,
                id,
            )[i]).channel_id.0@ != id,
{
    broadcast use Seq::lemma_filter_pred;

}

/// Cascade delete for blocks: after the cascade removal that
/// `delete_block` performs, no connection referencing the block remains;
/// `delete_block`'s contract separately guarantees that the channel store
/// is untouched.
pub proof fn lemma_cascade_removes_block(conns: Seq<Connection>, id: Seq<char>)
    ensures
        forall|i: int|
            0 <= i < after_block_delete(conns, id).len() ==> (#[trigger] after_block_delete(
                conns,
                id,
            )[i]).block_id.0@ != id,
{
    broadcast use Seq::lemma_filter_pred;

}

/// Disconnect then reconnect: after the removal that `disconnect_block`
/// performs, the pair is no longer connected, so `get_connection` reports
/// the connection as missing and a fresh `connect_block` of the same pair
/// is accepted again - no stale residue blocks it.
pub proof fn lemma_disconnect_clears_pair(conns: Seq<Connection>, b: Seq<char>, c: Seq<char>)
    ensures
        !pair_connected(conns.filter(|cn: Connection| !is_pair(cn, b, c)), b, c),
{
    broadcast use Seq::lemma_filter_pred;

    let kept = conns.filter(|cn: Connection| !is_pair(cn, b, c));
    lemma_pair_connected_exists(kept, b, c);
    if pair_connected(kept, b, c) {
        let i = choose|i: int| 0 <= i < kept.len() && is_pair(#[trigger] kept[i], b, c);
        assert(!is_pair(kept[i], b, c));
    }
}

/// Ordering preservation carries through the block join: when the
/// connections are ordered by ascending position, the (block, position)
/// pairs that `get_blocks_in_channel_with_positions` is specified to
/// return are ordered the same way, and every returned position comes
/// from one of the connections.
pub proof fn lemma_join_pairs_sorted(cns: Seq<Connection>, blocks: Seq<Block>)
    requires
        sorted_by_position(cns),
    ensures
        forall|i: int, j: int|
            0 <= i < j < join_pairs(cns, blocks).len() ==> (#[trigger] join_pairs(
                cns,
                blocks,
            )[i]).1 <= (#[trigger] join_pairs(cns, blocks)[j]).1,
        forall|k: int|
            0 <= k < join_pairs(cns, blocks).len() ==> exists|m: int|
                0 <= m < cns.len() && (#[trigger] join_pairs(cns, blocks)[k]).1 == cns[m].position,
    decreases cns.len(),
{
    if cns.len() > 0 {
        let rest = cns.drop_last();
        assert(sorted_by_position(rest)) by {
            assert forall|i: int, j: int| 0 <= i < j < rest.len() implies (
            #[trigger] rest[i]).position <= (#[trigger] rest[j]).position by {
                assert(cns[i].position <= cns[j].position);
            }
        }
        lemma_join_pairs_sorted(rest, blocks);
        let jp = join_pairs(cns, blocks);
        let jr = join_pairs(rest, blocks);
        if find_block(blocks, cns.last().block_id.0@) is Some {
            assert forall|k: int| 0 <= k < jp.len() implies exists|m: int|
                0 <= m < cns.len() && (#[trigger] jp[k]).1 == cns[m].position by {
                if k < jr.len() {
                    let m = choose|m: int|
                        0 <= m < rest.len() && (#[trigger] jr[k]).1 == rest[m].position;
                    assert(0 <= m < cns.len() && jp[k].1 == cns[m].position);
                } else {
                    assert(jp[k].1 == cns[cns.len() - 1].position);
                }
            }
            assert forall|i: int, j: int| 0 <= i < j < jp.len() implies (#[trigger] jp[i]).1 <= (
            #[trigger] jp[j]).1 by {
                if j < jr.len() {
                    assert(jr[i].1 <= jr[j].1);
                } else {
                    let m = choose|m: int|
                        0 <= m < rest.len() && (#[trigger] jr[i]).1 == rest[m].position;
                    assert(cns[m].position <= cns[cns.len() - 1].position);
                }
            }
        } else {
            assert forall|k: int| 0 <= k < jp.len() implies exists|m: int|
                0 <= m < cns.len() && (#[trigger] jp[k]).1 == cns[m].position by {
                let m = choose|m: int|
                    0 <= m < rest.len() && (#[trigger] jr[k]).1 == rest[m].position;
                assert(0 <= m < cns.len() && jp[k].1 == cns[m].position);
            }
        }
    }
}

/// One stable-insertion step keeps the order: inserting into a sequence
/// that is ordered by position yields a sequence ordered by position.
pub proof fn lemma_insert_conn_keeps_order(x: Connection, s: Seq<Connection>)
    requires
        sorted_by_position(s),
    ensures
        sorted_by_position(insert_conn_sorted(x, s)),
        insert_conn_sorted(x, s).len() == s.len() + 1,
        forall|k: int|
            0 <= k < insert_conn_sorted(x, s).len() ==> (#[trigger] insert_conn_sorted(x, s)[k])
                == x || s.contains(insert_conn_sorted(x, s)[k]),
    decreases s.len(),
{
    let out = insert_conn_sorted(x, s);
    if s.len() == 0 {
    } else if s.first().position <= x.position {
        let rest = s.drop_first();
        assert(sorted_by_position(rest)) by {
            assert forall|i: int, j: int| 0 <= i < j < rest.len() implies (
            #[trigger] rest[i]).position <= (#[trigger] rest[j]).position by {
                assert(s[i + 1].position <= s[j + 1].position);
            }
        }
        lemma_insert_conn_keeps_order(x, rest);
        let sub = insert_conn_sorted(x, rest);
        assert(out == seq![s.first()] + sub);
        assert forall|i: int, j: int| 0 <= i < j < out.len() implies (#[trigger] out[i]).position
            <= (#[trigger] out[j]).position by {
            if i == 0 {
                assert(out[j] == sub[j - 1]);
                if sub[j - 1] == x {
                } else {
                    let m = choose|m: int| 0 <= m < rest.len() && rest[m] == sub[j - 1];
                    assert(s[m + 1] == rest[m]);
                }
            } else {
                assert(out[i] == sub[i - 1] && out[j] == sub[j - 1]);
            }
        }
        assert forall|k: int| 0 <= k < out.len() implies (#[trigger] out[k]) == x || s.contains(
            out[k],
        ) by {
            if k > 0 {
                if sub[k - 1] != x {
                    let m = choose|m: int| 0 <= m < rest.len() && rest[m] == sub[k - 1];
                    assert(s[m + 1] == rest[m]);
                }
            }
        }
    } else {
        assert(out == seq![x] + s);
        assert forall|k: int| 0 <= k < out.len() implies (#[trigger] out[k]) == x || s.contains(
            out[k],
        ) by {
            if k > 0 {
                assert(out[k] == s[k - 1]);
            }
        }
    }
}

/// Ordering preservation: whatever order blocks were connected in, the
/// sequence that `connections_in_channel` is specified to return - and
/// with it what `get_blocks_in_channel` returns - is ordered by ascending
/// position.
pub proof fn lemma_sort_conns_ordered(s: Seq<Connection>)
    ensures
        sorted_by_position(sort_conns(s)),
    decreases s.len(),
{
    if s.len() > 0 {
        lemma_sort_conns_ordered(s.drop_last());
        lemma_insert_conn_keeps_order(s.last(), sort_conns(s.drop_last()));
    }
}


// ─── The cross-aggregate invariant ──────────────────────────────────────

/// A channel id is found exactly when some stored channel carries it.
pub proof fn lemma_channel_found_exists(s: Seq<Channel>, id: Seq<char>)
    ensures
        find_channel(s, id) is Some <==> exists|i: int|
            0 <= i < s.len() && (#[trigger] s[i]).id.0@ == id,
{
    lemma_channel_index(s, id);
    if exists|i: int| 0 <= i < s.len() && (#[trigger] s[i]).id.0@ == id {
        let i = choose|i: int| 0 <= i < s.len() && (#[trigger] s[i]).id.0@ == id;
        if channel_index(s, id) >= s.len() {
            assert(s[i].id.0@ != id);
        }
    }
}

/// A block id is found exactly when some stored block carries it.
pub proof fn lemma_block_found_exists(s: Seq<Block>, id: Seq<char>)
    ensures
        find_block(s, id) is Some <==> exists|i: int|
            0 <= i < s.len() && (#[trigger] s[i]).id.0@ == id,
{
    lemma_block_index(s, id);
    if exists|i: int| 0 <= i < s.len() && (#[trigger] s[i]).id.0@ == id {
        let i = choose|i: int| 0 <= i < s.len() && (#[trigger] s[i]).id.0@ == id;
        if block_index(s, id) >= s.len() {
            assert(s[i].id.0@ != id);
        }
    }
}

/// The cross-aggregate invariant: every connection references an existing
/// block and an existing channel.  The service establishes it on empty
/// repositories and, by the preservation lemmas below, every service
/// operation keeps it: connects check both endpoints first, and deletes
/// cascade to the connections.
pub open spec fn consistent(
    channels: Seq<Channel>,
    blocks: Seq<Block>,
    conns: Seq<Connection>,
) -> bool {
    forall|i: int|
        0 <= i < conns.len() ==> find_block(blocks, (#[trigger] conns[i]).block_id.0@) is Some
            && find_channel(channels, conns[i].channel_id.0@) is Some
}

/// Creating a channel preserves consistency.
pub proof fn lemma_consistent_new_channel(
    channels: Seq<Channel>,
    blocks: Seq<Block>,
    conns: Seq<Connection>,
    c: Channel,
)
    requires
        consistent(channels, blocks, conns),
    ensures
        consistent(channels.push(c), blocks, conns),
{
    assert forall|i: int| 0 <= i < conns.len() implies find_block(
        blocks,
        (#[trigger] conns[i]).block_id.0@,
    ) is Some && find_channel(channels.push(c), conns[i].channel_id.0@) is Some by {
        let id = conns[i].channel_id.0@;
        lemma_channel_found_exists(channels, id);
        let w = choose|w: int| 0 <= w < channels.len() && (#[trigger] channels[w]).id.0@ == id;
        lemma_channel_found_exists(channels.push(c), id);
        assert(channels.push(c)[w].id.0@ == id);
    }
}

/// Creating blocks, one or a whole batch, preserves consistency.
pub proof fn lemma_consistent_new_blocks(
    channels: Seq<Channel>,
    blocks: Seq<Block>,
    conns: Seq<Connection>,
    added: Seq<Block>,
)
    requires
        consistent(channels, blocks, conns),
    ensures
        consistent(channels, blocks + added, conns),
{
    assert forall|i: int| 0 <= i < conns.len() implies find_block(
        blocks + added,
        (#[trigger] conns[i]).block_id.0@,
    ) is Some && find_channel(channels, conns[i].channel_id.0@) is Some by {
        let id = conns[i].block_id.0@;
        lemma_block_found_exists(blocks, id);
        let w = choose|w: int| 0 <= w < blocks.len() && (#[trigger] blocks[w]).id.0@ == id;
        lemma_block_found_exists(blocks + added, id);
        assert((blocks + added)[w].id.0@ == id);
    }
}

/// Updating a channel in place, keeping its id, preserves consistency.
pub proof fn lemma_consistent_update_channel(
    channels: Seq<Channel>,
    blocks: Seq<Block>,
    conns: Seq<Connection>,
    at: int,
    c: Channel,
)
    requires
        consistent(channels, blocks, conns),
        0 <= at < channels.len(),
        c.id.0@ == channels[at].id.0@,
    ensures
        consistent(channels.update(at, c), blocks, conns),
{
    assert forall|i: int| 0 <= i < conns.len() implies find_block(
        blocks,
        (#[trigger] conns[i]).block_id.0@,
    ) is Some && find_channel(channels.update(at, c), conns[i].channel_id.0@) is Some by {
        let id = conns[i].channel_id.0@;
        lemma_channel_found_exists(channels, id);
        let w = choose|w: int| 0 <= w < channels.len() && (#[trigger] channels[w]).id.0@ == id;
        lemma_channel_found_exists(channels.update(at, c), id);
        assert(channels.update(at, c)[w].id.0@ == id);
    }
}

/// Updating a block in place, keeping its id, preserves consistency.
pub proof fn lemma_consistent_update_block(
    channels: Seq<Channel>,
    blocks: Seq<Block>,
    conns: Seq<Connection>,
    at: int,
    b: Block,
)
    requires
        consistent(channels, blocks, conns),
        0 <= at < blocks.len(),
        b.id.0@ == blocks[at].id.0@,
    ensures
        consistent(channels, blocks.update(at, b), conns),
{
    assert forall|i: int| 0 <= i < conns.len() implies find_block(
        blocks.update(at, b),
        (#[trigger] conns[i]).block_id.0@,
    ) is Some && find_channel(channels, conns[i].channel_id.0@) is Some by {
        let id = conns[i].block_id.0@;
        lemma_block_found_exists(blocks, id);
        let w = choose|w: int| 0 <= w < blocks.len() && (#[trigger] blocks[w]).id.0@ == id;
        lemma_block_found_exists(blocks.update(at, b), id);
        assert(blocks.update(at, b)[w].id.0@ == id);
    }
}

/// Connecting blocks whose endpoints all exist preserves consistency;
/// this covers a single connect as well as a whole batch.
pub proof fn lemma_consistent_connect(
    channels: Seq<Channel>,
    blocks: Seq<Block>,
    conns: Seq<Connection>,
    added: Seq<Connection>,
)
    requires
        consistent(channels, blocks, conns),
        forall|k: int|
            0 <= k < added.len() ==> find_block(blocks, (#[trigger] added[k]).block_id.0@) is Some
                && find_channel(channels, added[k].channel_id.0@) is Some,
    ensures
        consistent(channels, blocks, conns + added),
{
    assert forall|i: int| 0 <= i < (conns + added).len() implies find_block(
        blocks,
        (#[trigger] (conns + added)[i]).block_id.0@,
    ) is Some && find_channel(channels, (conns + added)[i].channel_id.0@) is Some by {
        if i < conns.len() {
            assert((conns + added)[i] == conns[i]);
        } else {
            assert((conns + added)[i] == added[i - conns.len()]);
        }
    }
}

/// A connection set whose every pair already occurred preserves
/// consistency; this covers disconnects, cascades and reorders, all of
/// which only drop connections or rewrite positions.
pub proof fn lemma_consistent_shrink(
    channels: Seq<Channel>,
    blocks: Seq<Block>,
    conns: Seq<Connection>,
    kept: Seq<Connection>,
)
    requires
        consistent(channels, blocks, conns),
        forall|j: int|
            0 <= j < kept.len() ==> exists|i: int|
                0 <= i < conns.len() && (#[trigger] kept[j]).block_id.0@ == (
                #[trigger] conns[i]).block_id.0@ && kept[j].channel_id.0@ == conns[i].channel_id.0@,
    ensures
        consistent(channels, blocks, kept),
{
    assert forall|j: int| 0 <= j < kept.len() implies find_block(
        blocks,
        (#[trigger] kept[j]).block_id.0@,
    ) is Some && find_channel(channels, kept[j].channel_id.0@) is Some by {
        let i = choose|i: int|
            0 <= i < conns.len() && (#[trigger] kept[j]).block_id.0@ == (
            #[trigger] conns[i]).block_id.0@ && kept[j].channel_id.0@ == conns[i].channel_id.0@;
        assert(find_block(blocks, conns[i].block_id.0@) is Some);
    }
}

/// Deleting a channel together with its cascade preserves consistency.
pub proof fn lemma_consistent_delete_channel(
    channels: Seq<Channel>,
    blocks: Seq<Block>,
    conns: Seq<Connection>,
    id: Seq<char>,
)
    requires
        consistent(channels, blocks, conns),
    ensures
        consistent(
            channels.filter(|c: Channel| c.id.0@ != id),
            blocks,
            conns.filter(|cn: Connection| cn.channel_id.0@ != id),
        ),
{
    broadcast use Seq::lemma_filter_pred, Seq::lemma_filter_contains;

    let kept_channels = channels.filter(|c: Channel| c.id.0@ != id);
    let kept = conns.filter(|cn: Connection| cn.channel_id.0@ != id);
    assert forall|j: int| 0 <= j < kept.len() implies find_block(
        blocks,
        (#[trigger] kept[j]).block_id.0@,
    ) is Some && find_channel(kept_channels, kept[j].channel_id.0@) is Some by {
        conns.lemma_filter_contains_rev(|cn: Connection| cn.channel_id.0@ != id, kept[j]);
        let i = choose|i: int| 0 <= i < conns.len() && conns[i] == kept[j];
        assert(find_block(blocks, conns[i].block_id.0@) is Some);
        let cid = kept[j].channel_id.0@;
        lemma_channel_found_exists(channels, cid);
        let w = choose|w: int| 0 <= w < channels.len() && (#[trigger] channels[w]).id.0@ == cid;
        assert(cid != id);
        assert(kept_channels.contains(channels[w]));
        lemma_channel_found_exists(kept_channels, cid);
        let v = choose|v: int| 0 <= v < kept_channels.len() && kept_channels[v] == channels[w];
        assert(kept_channels[v].id.0@ == cid);
    }
}

/// Deleting a block together with its cascade preserves consistency.
pub proof fn lemma_consistent_delete_block(
    channels: Seq<Channel>,
    blocks: Seq<Block>,
    conns: Seq<Connection>,
    id: Seq<char>,
)
    requires
        consistent(channels, blocks, conns),
    ensures
        consistent(
            channels,
            blocks.filter(|b: Block| b.id.0@ != id),
            conns.filter(|cn: Connection| cn.block_id.0@ != id),
        ),
{
    broadcast use Seq::lemma_filter_pred, Seq::lemma_filter_contains;

    let kept_blocks = blocks.filter(|b: Block| b.id.0@ != id);
    let kept = conns.filter(|cn: Connection| cn.block_id.0@ != id);
    assert forall|j: int| 0 <= j < kept.len() implies find_block(
        kept_blocks,
        (#[trigger] kept[j]).block_id.0@,
    ) is Some && find_channel(channels, kept[j].channel_id.0@) is Some by {
        conns.lemma_filter_contains_rev(|cn: Connection| cn.block_id.0@ != id, kept[j]);
        let i = choose|i: int| 0 <= i < conns.len() && conns[i] == kept[j];
        assert(find_channel(channels, conns[i].channel_id.0@) is Some);
        let bid = kept[j].block_id.0@;
        lemma_block_found_exists(blocks, bid);
        let w = choose|w: int| 0 <= w < blocks.len() && (#[trigger] blocks[w]).id.0@ == bid;
        assert(bid != id);
        assert(kept_blocks.contains(blocks[w]));
        lemma_block_found_exists(kept_blocks, bid);
        let v = choose|v: int| 0 <= v < kept_blocks.len() && kept_blocks[v] == blocks[w];
        assert(kept_blocks[v].id.0@ == bid);
    }
}

} // verus!

