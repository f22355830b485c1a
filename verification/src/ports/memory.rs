//! In-memory repository implementations.
//!
//! These adapters store data in plain vectors and prove the repository
//! port contracts.  They are the verified reference implementation of the
//! ports and serve tests of the service.

use vstd::prelude::*;

use crate::error::RepoError;
use crate::error::RepoResult;
use crate::models::block::Block;
use crate::models::block::BlockId;
use crate::models::channel::Channel;
use crate::models::channel::ChannelId;
use crate::models::common::Page;
use crate::models::connection::Connection;
use crate::ports::repository::BlockRepository;
use crate::ports::repository::ChannelRepository;
use crate::ports::repository::ConnectionRepository;
use crate::ports::repository::block_index;
use crate::ports::repository::channel_has_conn;
use crate::ports::repository::channel_index;
use crate::ports::repository::conn_index;
use crate::ports::repository::conns_batch_dup;
use crate::ports::repository::blocks_batch_dup;
use crate::ports::repository::find_block;
use crate::ports::repository::find_channel;
use crate::ports::repository::find_conn;
use crate::ports::repository::insert_channel_desc;
use crate::ports::repository::insert_conn_sorted;
use crate::ports::repository::is_pair;
use crate::ports::repository::lemma_block_index;
use crate::ports::repository::lemma_channel_index;
use crate::ports::repository::lemma_conn_index;
use crate::ports::repository::page_slice;
use crate::ports::repository::pair_connected;
use crate::ports::repository::sort_channels_desc;
use crate::ports::repository::sort_conns;
use crate::ports::repository::spec_max_position;
use crate::ports::repository::spec_next_position;
use crate::seqs::lemma_filter_take_step;
use crate::seqs::lemma_take_all;
use crate::text::str_eq;

verus! {

// ─── Index search helpers ───────────────────────────────────────────────

/// The index of the first channel with the given id, or the vector's
/// length when the id is absent.
#[verifier::loop_isolation(false)]
fn channel_idx(v: &Vec<Channel>, id: &ChannelId) -> (r: usize)
    ensures
        r as int == channel_index(v@, id.0@),
{
    proof {
        lemma_channel_index(v@, id.0@);
    }
    let mut i: usize = 0;
    while i < v.len()
        invariant
            0 <= i <= v@.len(),
            forall|j: int| 0 <= j < i ==> v@[j].id.0@ != id.0@,
        decreases v@.len() - i,
    {
        if str_eq(v[i].id.0.as_str(), id.0.as_str()) {
            proof {
                let ci = channel_index(v@, id.0@);
                if ci < i {
                    assert(v@[ci].id.0@ == id.0@);
                } else if ci > i {
                    assert(v@[i as int].id.0@ != id.0@);
                }
            }
            return i;
        }
        i += 1;
    }
    proof {
        if channel_index(v@, id.0@) < v@.len() {
            assert(v@[channel_index(v@, id.0@)].id.0@ == id.0@);
        }
    }
    i
}

/// The index of the first block with the given id, or the vector's length
/// when the id is absent.
#[verifier::loop_isolation(false)]
fn block_idx(v: &Vec<Block>, id: &BlockId) -> (r: usize)
    ensures
        r as int == block_index(v@, id.0@),
{
    proof {
        lemma_block_index(v@, id.0@);
    }
    let mut i: usize = 0;
    while i < v.len()
        invariant
            0 <= i <= v@.len(),
            forall|j: int| 0 <= j < i ==> v@[j].id.0@ != id.0@,
        decreases v@.len() - i,
    {
        if str_eq(v[i].id.0.as_str(), id.0.as_str()) {
            proof {
                let ci = block_index(v@, id.0@);
                if ci < i {
                    assert(v@[ci].id.0@ == id.0@);
                } else if ci > i {
                    assert(v@[i as int].id.0@ != id.0@);
                }
            }
            return i;
        }
        i += 1;
    }
    proof {
        if block_index(v@, id.0@) < v@.len() {
            assert(v@[block_index(v@, id.0@)].id.0@ == id.0@);
        }
    }
    i
}

/// The index of the first connection for the pair, or the vector's length
/// when the pair is not connected.
#[verifier::loop_isolation(false)]
fn conn_idx(v: &Vec<Connection>, block_id: &BlockId, channel_id: &ChannelId) -> (r: usize)
    ensures
        r as int == conn_index(v@, block_id.0@, channel_id.0@),
{
    proof {
        lemma_conn_index(v@, block_id.0@, channel_id.0@);
    }
    let mut i: usize = 0;
    while i < v.len()
        invariant
            0 <= i <= v@.len(),
            forall|j: int| 0 <= j < i ==> !is_pair(#[trigger] v@[j], block_id.0@, channel_id.0@),
        decreases v@.len() - i,
    {
        if str_eq(v[i].block_id.0.as_str(), block_id.0.as_str()) && str_eq(
            v[i].channel_id.0.as_str(),
            channel_id.0.as_str(),
        ) {
            proof {
                let ci = conn_index(v@, block_id.0@, channel_id.0@);
                if ci < i {
                    assert(is_pair(v@[ci], block_id.0@, channel_id.0@));
                } else if ci > i {
                    assert(!is_pair(v@[i as int], block_id.0@, channel_id.0@));
                }
            }
            return i;
        }
        i += 1;
    }
    proof {
        if conn_index(v@, block_id.0@, channel_id.0@) < v@.len() {
            assert(is_pair(
                v@[conn_index(v@, block_id.0@, channel_id.0@)],
                block_id.0@,
                channel_id.0@,
            ));
        }
    }
    i
}

// ─── Sorted-insertion lemmas ────────────────────────────────────────────

/// Inserting a channel at the first index whose entry was created
/// strictly later realizes the stable insertion step.
proof fn lemma_insert_channel_at(x: Channel, s: Seq<Channel>, j: int)
    requires
        0 <= j <= s.len(),
        forall|k: int| 0 <= k < j ==> s[k].created_at >= x.created_at,
        j < s.len() ==> s[j].created_at < x.created_at,
    ensures
        insert_channel_desc(x, s) == s.insert(j, x),
    decreases s.len(),
{
    if j == 0 {
        if s.len() == 0 {
            assert(insert_channel_desc(x, s) =~= s.insert(0, x));
        } else {
            assert(insert_channel_desc(x, s) == seq![x] + s);
            assert(seq![x] + s =~= s.insert(0, x));
        }
    } else {
        assert(s.first().created_at >= x.created_at);
        assert forall|k: int| 0 <= k < j - 1 implies s.drop_first()[k].created_at
            >= x.created_at by {
            assert(s[k + 1].created_at >= x.created_at);
        }
        lemma_insert_channel_at(x, s.drop_first(), j - 1);
        assert(seq![s.first()] + s.drop_first().insert(j - 1, x) =~= s.insert(j, x));
    }
}

/// Inserting a connection at the first index whose entry has a strictly
/// greater position realizes the stable insertion step.
proof fn lemma_insert_conn_at(x: Connection, s: Seq<Connection>, j: int)
    requires
        0 <= j <= s.len(),
        forall|k: int| 0 <= k < j ==> s[k].position <= x.position,
        j < s.len() ==> s[j].position > x.position,
    ensures
        insert_conn_sorted(x, s) == s.insert(j, x),
    decreases s.len(),
{
    if j == 0 {
        if s.len() == 0 {
            assert(insert_conn_sorted(x, s) =~= s.insert(0, x));
        } else {
            assert(insert_conn_sorted(x, s) == seq![x] + s);
            assert(seq![x] + s =~= s.insert(0, x));
        }
    } else {
        assert(s.first().position <= x.position);
        assert forall|k: int| 0 <= k < j - 1 implies s.drop_first()[k].position <= x.position by {
            assert(s[k + 1].position <= x.position);
        }
        lemma_insert_conn_at(x, s.drop_first(), j - 1);
        assert(seq![s.first()] + s.drop_first().insert(j - 1, x) =~= s.insert(j, x));
    }
}

// ─── Channels ───────────────────────────────────────────────────────────

/// In-memory channel repository.
#[derive(Debug)]
pub struct InMemoryChannelRepository {
    store: Vec<Channel>,
}

impl InMemoryChannelRepository {
    /// Create a new empty repository.
    pub fn new() -> (r: Self)
        ensures
            r.channels() == Seq::<Channel>::empty(),
    {
        Self { store: Vec::new() }
    }
}

impl Default for InMemoryChannelRepository {
    fn default() -> (r: Self)
        ensures
            r.channels() == Seq::<Channel>::empty(),
    {
        Self::new()
    }
}

impl ChannelRepository for InMemoryChannelRepository {
    closed spec fn channels(&self) -> Seq<Channel> {
        self.store@
    }

    fn create(&mut self, channel: &Channel) -> (r: RepoResult<()>) {
        let i = channel_idx(&self.store, &channel.id);
        if i < self.store.len() {
            Err(RepoError::Duplicate)
        } else {
            self.store.push(channel.clone());
            Ok(())
        }
    }

    fn get(&self, id: &ChannelId) -> (r: RepoResult<Option<Channel>>) {
        let i = channel_idx(&self.store, id);
        if i < self.store.len() {
            Ok(Some(self.store[i].clone()))
        } else {
            Ok(None)
        }
    }

    #[verifier::loop_isolation(false)]
    fn list(&self, limit: usize, offset: usize) -> (r: RepoResult<Page<Channel>>) {
        let total = self.store.len();
        let mut sorted: Vec<Channel> = Vec::new();
        let mut i: usize = 0;
        while i < total
            invariant
                0 <= i <= total,
                sorted@ == sort_channels_desc(self.store@.take(i as int)),
                sorted@.len() == i,
            decreases total - i,
        {
            let c = self.store[i].clone();
            let mut j: usize = 0;
            while j < sorted.len() && sorted[j].created_at >= c.created_at
                invariant
                    0 <= j <= sorted@.len(),
                    forall|k: int| 0 <= k < j ==> sorted@[k].created_at >= c.created_at,
                decreases sorted@.len() - j,
            {
                j += 1;
            }
            proof {
                lemma_insert_channel_at(c, sorted@, j as int);
                assert(self.store@.take(i + 1).drop_last() =~= self.store@.take(i as int));
                assert(self.store@.take(i + 1).last() == self.store@[i as int]);
            }
            sorted.insert(j, c);
            i += 1;
        }
        proof {
            lemma_take_all(self.store@);
        }
        let start = if offset > total {
            total
        } else {
            offset
        };
        let count = if limit > total - start {
            total - start
        } else {
            limit
        };
        let mut items: Vec<Channel> = Vec::new();
        let mut k: usize = 0;
        while k < count
            invariant
                0 <= k <= count,
                start + count <= total,
                sorted@.len() == total,
                items@ == sorted@.subrange(start as int, start as int + k),
            decreases count - k,
        {
            items.push(sorted[start + k].clone());
            proof {
                assert(sorted@.subrange(start as int, start as int + k + 1) =~= sorted@.subrange(
                    start as int,
                    start as int + k,
                ).push(sorted@[start as int + k]));
            }
            k += 1;
        }
        proof {
            assert(items@ =~= page_slice(
                sort_channels_desc(self.store@),
                offset as int,
                limit as int,
            ));
        }
        Ok(Page::new(items, total, offset, limit))
    }

    fn update(&mut self, channel: &Channel) -> (r: RepoResult<()>) {
        proof {
            lemma_channel_index(self.store@, channel.id.0@);
        }
        let i = channel_idx(&self.store, &channel.id);
        if i == self.store.len() {
            Err(RepoError::NotFound)
        } else {
            let _ = self.store.remove(i);
            self.store.insert(i, channel.clone());
            proof {
                assert(self.store@ =~= old(self).store@.update(
                    channel_index(old(self).store@, channel.id.0@),
                    *channel,
                ));
            }
            Ok(())
        }
    }

    #[verifier::loop_isolation(false)]
    fn delete(&mut self, id: &ChannelId) -> (r: RepoResult<()>) {
        proof {
            lemma_channel_index(self.store@, id.0@);
        }
        let i = channel_idx(&self.store, id);
        if i == self.store.len() {
            return Err(RepoError::NotFound);
        }
        let ghost pred = |c: Channel| c.id.0@ != id.0@;
        let mut kept: Vec<Channel> = Vec::new();
        let mut j: usize = 0;
        while j < self.store.len()
            invariant
                0 <= j <= self.store@.len(),
                self.store@ == old(self).store@,
                kept@ == self.store@.take(j as int).filter(pred),
            decreases self.store@.len() - j,
        {
            proof {
                lemma_filter_take_step(self.store@, j as int, pred);
            }
            if !str_eq(self.store[j].id.0.as_str(), id.0.as_str()) {
                kept.push(self.store[j].clone());
            }
            j += 1;
        }
        proof {
            lemma_take_all(self.store@);
        }
        self.store = kept;
        Ok(())
    }

    fn count(&self) -> (r: RepoResult<usize>) {
        Ok(self.store.len())
    }
}

// ─── Blocks ─────────────────────────────────────────────────────────────

/// In-memory block repository.
#[derive(Debug)]
pub struct InMemoryBlockRepository {
    store: Vec<Block>,
}

impl InMemoryBlockRepository {
    /// Create a new empty repository.
    pub fn new() -> (r: Self)
        ensures
            r.blocks() == Seq::<Block>::empty(),
    {
        Self { store: Vec::new() }
    }
}

impl Default for InMemoryBlockRepository {
    fn default() -> (r: Self)
        ensures
            r.blocks() == Seq::<Block>::empty(),
    {
        Self::new()
    }
}

impl BlockRepository for InMemoryBlockRepository {
    closed spec fn blocks(&self) -> Seq<Block> {
        self.store@
    }

    fn create(&mut self, block: &Block) -> (r: RepoResult<()>) {
        let i = block_idx(&self.store, &block.id);
        if i < self.store.len() {
            Err(RepoError::Duplicate)
        } else {
            self.store.push(block.clone());
            Ok(())
        }
    }

    #[verifier::loop_isolation(false)]
    fn create_batch(&mut self, blocks: &Vec<Block>) -> (r: RepoResult<()>) {
        let n = blocks.len();
        let mut i: usize = 0;
        while i < n
            invariant
                0 <= i <= n,
                n == blocks@.len(),
                self.store@ == old(self).store@,
                forall|k: int|
                    0 <= k < i ==> find_block(self.store@, #[trigger] blocks@[k].id.0@) is None,
            decreases n - i,
        {
            let at = block_idx(&self.store, &blocks[i].id);
            if at < self.store.len() {
                proof {
                    assert(find_block(self.store@, blocks@[i as int].id.0@) is Some);
                }
                return Err(RepoError::Duplicate);
            }
            i += 1;
        }
        i = 1;
        while i < n
            invariant
                1 <= i <= n || n == 0,
                n == blocks@.len(),
                self.store@ == old(self).store@,
                forall|a: int, b: int| 0 <= a < b < i ==> blocks@[a].id.0@ != blocks@[b].id.0@,
            decreases n - i,
        {
            let mut j: usize = 0;
            while j < i
                invariant
                    0 <= j <= i < n,
                    n == blocks@.len(),
                    self.store@ == old(self).store@,
                    forall|a: int| 0 <= a < j ==> blocks@[a].id.0@ != blocks@[i as int].id.0@,
                decreases i - j,
            {
                if str_eq(blocks[j].id.0.as_str(), blocks[i].id.0.as_str()) {
                    return Err(RepoError::Duplicate);
                }
                j += 1;
            }
            i += 1;
        }
        proof {
            assert(!blocks_batch_dup(blocks@, self.store@)) by {
                if exists|k: int|
                    0 <= k < blocks@.len() && find_block(
                        self.store@,
                        #[trigger] blocks@[k].id.0@,
                    ) is Some {
                    let k = choose|k: int|
                        0 <= k < blocks@.len() && find_block(
                            self.store@,
                            #[trigger] blocks@[k].id.0@,
                        ) is Some;
                    assert(false);
                }
                if exists|a: int, b: int|
                    0 <= a < b < blocks@.len() && (#[trigger] blocks@[a]).id.0@
                        == (#[trigger] blocks@[b]).id.0@ {
                    let (a, b) = choose|a: int, b: int|
                        0 <= a < b < blocks@.len() && (#[trigger] blocks@[a]).id.0@
                            == (#[trigger] blocks@[b]).id.0@;
                    assert(false);
                }
            }
        }
        let mut k: usize = 0;
        while k < n
            invariant
                0 <= k <= n,
                n == blocks@.len(),
                self.store@ == old(self).store@ + blocks@.take(k as int),
            decreases n - k,
        {
            self.store.push(blocks[k].clone());
            proof {
                assert(old(self).store@ + blocks@.take(k + 1) =~= (old(self).store@
                    + blocks@.take(k as int)).push(blocks@[k as int]));
            }
            k += 1;
        }
        proof {
            assert(blocks@.take(n as int) =~= blocks@);
        }
        Ok(())
    }

    fn get(&self, id: &BlockId) -> (r: RepoResult<Option<Block>>) {
        let i = block_idx(&self.store, id);
        if i < self.store.len() {
            Ok(Some(self.store[i].clone()))
        } else {
            Ok(None)
        }
    }

    fn update(&mut self, block: &Block) -> (r: RepoResult<()>) {
        proof {
            lemma_block_index(self.store@, block.id.0@);
        }
        let i = block_idx(&self.store, &block.id);
        if i == self.store.len() {
            Err(RepoError::NotFound)
        } else {
            let _ = self.store.remove(i);
            self.store.insert(i, block.clone());
            proof {
                assert(self.store@ =~= old(self).store@.update(
                    block_index(old(self).store@, block.id.0@),
                    *block,
                ));
            }
            Ok(())
        }
    }

    #[verifier::loop_isolation(false)]
    fn delete(&mut self, id: &BlockId) -> (r: RepoResult<()>) {
        proof {
            lemma_block_index(self.store@, id.0@);
        }
        let i = block_idx(&self.store, id);
        if i == self.store.len() {
            return Err(RepoError::NotFound);
        }
        let ghost pred = |b: Block| b.id.0@ != id.0@;
        let mut kept: Vec<Block> = Vec::new();
        let mut j: usize = 0;
        while j < self.store.len()
            invariant
                0 <= j <= self.store@.len(),
                self.store@ == old(self).store@,
                kept@ == self.store@.take(j as int).filter(pred),
            decreases self.store@.len() - j,
        {
            proof {
                lemma_filter_take_step(self.store@, j as int, pred);
            }
            if !str_eq(self.store[j].id.0.as_str(), id.0.as_str()) {
                kept.push(self.store[j].clone());
            }
            j += 1;
        }
        proof {
            lemma_take_all(self.store@);
        }
        self.store = kept;
        Ok(())
    }
}

// ─── Connections ────────────────────────────────────────────────────────

/// In-memory connection repository.
#[derive(Debug)]
pub struct InMemoryConnectionRepository {
    store: Vec<Connection>,
}

impl InMemoryConnectionRepository {
    /// Create a new empty repository.
    pub fn new() -> (r: Self)
        ensures
            r.conns() == Seq::<Connection>::empty(),
    {
        Self { store: Vec::new() }
    }
}

impl Default for InMemoryConnectionRepository {
    fn default() -> (r: Self)
        ensures
            r.conns() == Seq::<Connection>::empty(),
    {
        Self::new()
    }
}

impl ConnectionRepository for InMemoryConnectionRepository {
    closed spec fn conns(&self) -> Seq<Connection> {
        self.store@
    }

    fn connect(&mut self, block_id: &BlockId, channel_id: &ChannelId, position: i32) -> (r:
        RepoResult<()>) {
        let i = conn_idx(&self.store, block_id, channel_id);
        if i < self.store.len() {
            Err(RepoError::Duplicate)
        } else {
            self.store.push(Connection::new(block_id.clone(), channel_id.clone(), position));
            proof {
                assert(self.store@.drop_last() =~= old(self).store@);
            }
            Ok(())
        }
    }

    #[verifier::loop_isolation(false)]
    fn connect_batch(&mut self, conns: &Vec<(BlockId, ChannelId, i32)>) -> (r: RepoResult<()>) {
        let n = conns.len();
        let mut i: usize = 0;
        while i < n
            invariant
                0 <= i <= n,
                n == conns@.len(),
                self.store@ == old(self).store@,
                forall|k: int|
                    0 <= k < i ==> !pair_connected(
                        self.store@,
                        (#[trigger] conns@[k]).0.0@,
                        conns@[k].1.0@,
                    ),
            decreases n - i,
        {
            let at = conn_idx(&self.store, &conns[i].0, &conns[i].1);
            if at < self.store.len() {
                proof {
                    assert(pair_connected(self.store@, conns@[i as int].0.0@, conns@[i as int].1.0@));
                }
                return Err(RepoError::Duplicate);
            }
            i += 1;
        }
        i = 1;
        while i < n
            invariant
                1 <= i <= n || n == 0,
                n == conns@.len(),
                self.store@ == old(self).store@,
                forall|a: int, b: int|
                    0 <= a < b < i ==> !((#[trigger] conns@[a]).0.0@ == (#[trigger] conns@[b]).0.0@
                        && conns@[a].1.0@ == conns@[b].1.0@),
            decreases n - i,
        {
            let mut j: usize = 0;
            while j < i
                invariant
                    0 <= j <= i < n,
                    n == conns@.len(),
                    self.store@ == old(self).store@,
                    forall|a: int|
                        0 <= a < j ==> !((#[trigger] conns@[a]).0.0@ == conns@[i as int].0.0@
                            && conns@[a].1.0@ == conns@[i as int].1.0@),
                decreases i - j,
            {
                if str_eq(conns[j].0.0.as_str(), conns[i].0.0.as_str()) && str_eq(
                    conns[j].1.0.as_str(),
                    conns[i].1.0.as_str(),
                ) {
                    return Err(RepoError::Duplicate);
                }
                j += 1;
            }
            i += 1;
        }
        proof {
            assert(!conns_batch_dup(conns@, self.store@)) by {
                if exists|k: int|
                    0 <= k < conns@.len() && pair_connected(
                        self.store@,
                        (#[trigger] conns@[k]).0.0@,
                        conns@[k].1.0@,
                    ) {
                    let k = choose|k: int|
                        0 <= k < conns@.len() && pair_connected(
                            self.store@,
                            (#[trigger] conns@[k]).0.0@,
                            conns@[k].1.0@,
                        );
                    assert(false);
                }
                if exists|a: int, b: int|
                    0 <= a < b < conns@.len() && (#[trigger] conns@[a]).0.0@
                        == (#[trigger] conns@[b]).0.0@ && conns@[a].1.0@ == conns@[b].1.0@ {
                    let (a, b) = choose|a: int, b: int|
                        0 <= a < b < conns@.len() && (#[trigger] conns@[a]).0.0@
                            == (#[trigger] conns@[b]).0.0@ && conns@[a].1.0@ == conns@[b].1.0@;
                    assert(false);
                }
            }
        }
        let ghost old_store = self.store@;
        let mut k: usize = 0;
        while k < n
            invariant
                0 <= k <= n,
                n == conns@.len(),
                old_store == old(self).store@,
                self.store@.len() == old_store.len() + k,
                self.store@.take(old_store.len() as int) == old_store,
                forall|m: int|
                    #![trigger conns@[m]]
                    0 <= m < k ==> self.store@[old_store.len() + m].block_id == conns@[m].0
                        && self.store@[old_store.len() + m].channel_id == conns@[m].1
                        && self.store@[old_store.len() + m].position == conns@[m].2,
            decreases n - k,
        {
            let ghost before = self.store@;
            self.store.push(
                Connection::new(conns[k].0.clone(), conns[k].1.clone(), conns[k].2),
            );
            proof {
                assert(self.store@.take(old_store.len() as int) =~= before.take(
                    old_store.len() as int,
                ));
            }
            k += 1;
        }
        Ok(())
    }

    #[verifier::loop_isolation(false)]
    fn disconnect(&mut self, block_id: &BlockId, channel_id: &ChannelId) -> (r: RepoResult<()>) {
        proof {
            lemma_conn_index(self.store@, block_id.0@, channel_id.0@);
        }
        let i = conn_idx(&self.store, block_id, channel_id);
        if i == self.store.len() {
            return Err(RepoError::NotFound);
        }
        let ghost pred = |cn: Connection| !is_pair(cn, block_id.0@, channel_id.0@);
        let mut kept: Vec<Connection> = Vec::new();
        let mut j: usize = 0;
        while j < self.store.len()
            invariant
                0 <= j <= self.store@.len(),
                self.store@ == old(self).store@,
                kept@ == self.store@.take(j as int).filter(pred),
            decreases self.store@.len() - j,
        {
            proof {
                lemma_filter_take_step(self.store@, j as int, pred);
            }
            let matches_pair = str_eq(self.store[j].block_id.0.as_str(), block_id.0.as_str())
                && str_eq(self.store[j].channel_id.0.as_str(), channel_id.0.as_str());
            if !matches_pair {
                kept.push(self.store[j].clone());
            }
            j += 1;
        }
        proof {
            lemma_take_all(self.store@);
        }
        self.store = kept;
        Ok(())
    }

    #[verifier::loop_isolation(false)]
    fn connections_in_channel(&self, channel_id: &ChannelId) -> (r: RepoResult<Vec<Connection>>) {
        let ghost pred = |cn: Connection| cn.channel_id.0@ == channel_id.0@;
        let mut filtered: Vec<Connection> = Vec::new();
        let mut i: usize = 0;
        while i < self.store.len()
            invariant
                0 <= i <= self.store@.len(),
                filtered@ == self.store@.take(i as int).filter(pred),
            decreases self.store@.len() - i,
        {
            proof {
                lemma_filter_take_step(self.store@, i as int, pred);
            }
            if str_eq(self.store[i].channel_id.0.as_str(), channel_id.0.as_str()) {
                filtered.push(self.store[i].clone());
            }
            i += 1;
        }
        proof {
            lemma_take_all(self.store@);
        }
        let mut sorted: Vec<Connection> = Vec::new();
        let mut k: usize = 0;
        while k < filtered.len()
            invariant
                0 <= k <= filtered@.len(),
                sorted@ == sort_conns(filtered@.take(k as int)),
                sorted@.len() == k,
            decreases filtered@.len() - k,
        {
            let c = filtered[k].clone();
            let mut j: usize = 0;
            while j < sorted.len() && sorted[j].position <= c.position
                invariant
                    0 <= j <= sorted@.len(),
                    forall|m: int| 0 <= m < j ==> sorted@[m].position <= c.position,
                decreases sorted@.len() - j,
            {
                j += 1;
            }
            proof {
                lemma_insert_conn_at(c, sorted@, j as int);
                assert(filtered@.take(k + 1).drop_last() =~= filtered@.take(k as int));
                assert(filtered@.take(k + 1).last() == filtered@[k as int]);
            }
            sorted.insert(j, c);
            k += 1;
        }
        proof {
            lemma_take_all(filtered@);
        }
        Ok(sorted)
    }

    #[verifier::loop_isolation(false)]
    fn connections_for_block(&self, block_id: &BlockId) -> (r: RepoResult<Vec<Connection>>) {
        let ghost pred = |cn: Connection| cn.block_id.0@ == block_id.0@;
        let mut result: Vec<Connection> = Vec::new();
        let mut i: usize = 0;
        while i < self.store.len()
            invariant
                0 <= i <= self.store@.len(),
                result@ == self.store@.take(i as int).filter(pred),
            decreases self.store@.len() - i,
        {
            proof {
                lemma_filter_take_step(self.store@, i as int, pred);
            }
            if str_eq(self.store[i].block_id.0.as_str(), block_id.0.as_str()) {
                result.push(self.store[i].clone());
            }
            i += 1;
        }
        proof {
            lemma_take_all(self.store@);
        }
        Ok(result)
    }

    fn get_connection(&self, block_id: &BlockId, channel_id: &ChannelId) -> (r: RepoResult<
        Option<Connection>,
    >) {
        let i = conn_idx(&self.store, block_id, channel_id);
        if i < self.store.len() {
            Ok(Some(self.store[i].clone()))
        } else {
            Ok(None)
        }
    }

    fn reorder(&mut self, channel_id: &ChannelId, block_id: &BlockId, new_position: i32) -> (r:
        RepoResult<()>) {
        proof {
            lemma_conn_index(self.store@, block_id.0@, channel_id.0@);
        }
        let i = conn_idx(&self.store, block_id, channel_id);
        if i == self.store.len() {
            Err(RepoError::NotFound)
        } else {
            let old_c = self.store.remove(i);
            let updated = Connection { position: new_position, ..old_c };
            self.store.insert(i, updated);
            proof {
                assert(self.store@ =~= old(self).store@.update(
                    conn_index(old(self).store@, block_id.0@, channel_id.0@),
                    (Connection {
                        position: new_position,
                        ..old(self).store@[conn_index(
                            old(self).store@,
                            block_id.0@,
                            channel_id.0@,
                        )]
                    }),
                ));
            }
            Ok(())
        }
    }

    #[verifier::loop_isolation(false)]
    fn next_position(&self, channel_id: &ChannelId) -> (r: RepoResult<i32>) {
        let mut seen = false;
        let mut max: i32 = 0;
        let mut i: usize = 0;
        while i < self.store.len()
            invariant
                0 <= i <= self.store@.len(),
                seen == channel_has_conn(self.store@.take(i as int), channel_id.0@),
                seen ==> max as int == spec_max_position(self.store@.take(i as int), channel_id.0@),
            decreases self.store@.len() - i,
        {
            let ghost t0 = self.store@.take(i as int);
            let ghost t1 = self.store@.take(i + 1);
            proof {
                assert(t1.drop_last() =~= t0);
                assert(t1.last() == self.store@[i as int]);
                if channel_has_conn(t1, channel_id.0@) {
                    let k = choose|k: int|
                        0 <= k < t1.len() && #[trigger] t1[k].channel_id.0@ == channel_id.0@;
                    if k < i {
                        assert(t0[k].channel_id.0@ == channel_id.0@);
                    }
                }
                if channel_has_conn(t0, channel_id.0@) {
                    let k = choose|k: int|
                        0 <= k < t0.len() && #[trigger] t0[k].channel_id.0@ == channel_id.0@;
                    assert(t1[k].channel_id.0@ == channel_id.0@);
                }
            }
            if str_eq(self.store[i].channel_id.0.as_str(), channel_id.0.as_str()) {
                let p = self.store[i].position;
                if seen {
                    if p > max {
                        max = p;
                    }
                } else {
                    seen = true;
                    max = p;
                }
                proof {
                    assert(channel_has_conn(t1, channel_id.0@)) by {
                        assert(t1[i as int].channel_id.0@ == channel_id.0@);
                    }
                }
            }
            i += 1;
        }
        proof {
            lemma_take_all(self.store@);
        }
        if seen {
            if max == i32::MAX {
                Err(RepoError::Database("position overflow".to_owned()))
            } else {
                Ok(max + 1)
            }
        } else {
            Ok(0)
        }
    }

    #[verifier::loop_isolation(false)]
    fn purge_channel(&mut self, channel_id: &ChannelId) {
        let ghost pred = |cn: Connection| cn.channel_id.0@ != channel_id.0@;
        let mut kept: Vec<Connection> = Vec::new();
        let mut j: usize = 0;
        while j < self.store.len()
            invariant
                0 <= j <= self.store@.len(),
                self.store@ == old(self).store@,
                kept@ == self.store@.take(j as int).filter(pred),
            decreases self.store@.len() - j,
        {
            proof {
                lemma_filter_take_step(self.store@, j as int, pred);
            }
            if !str_eq(self.store[j].channel_id.0.as_str(), channel_id.0.as_str()) {
                kept.push(self.store[j].clone());
            }
            j += 1;
        }
        proof {
            lemma_take_all(self.store@);
        }
        self.store = kept;
    }

    #[verifier::loop_isolation(false)]
    fn purge_block(&mut self, block_id: &BlockId) {
        let ghost pred = |cn: Connection| cn.block_id.0@ != block_id.0@;
        let mut kept: Vec<Connection> = Vec::new();
        let mut j: usize = 0;
        while j < self.store.len()
            invariant
                0 <= j <= self.store@.len(),
                self.store@ == old(self).store@,
                kept@ == self.store@.take(j as int).filter(pred),
            decreases self.store@.len() - j,
        {
            proof {
                lemma_filter_take_step(self.store@, j as int, pred);
            }
            if !str_eq(self.store[j].block_id.0.as_str(), block_id.0.as_str()) {
                kept.push(self.store[j].clone());
            }
            j += 1;
        }
        proof {
            lemma_take_all(self.store@);
        }
        self.store = kept;
    }
}

} // verus!
