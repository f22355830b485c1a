//! The unified service for all domain operations.
//!
//! The service holds one repository for each aggregate and enforces the
//! invariants no single repository can enforce alone: a block cannot be
//! connected twice to the same channel, deleting a channel or a block
//! cascades to its connections, and batches validate every item before
//! any write.

use vstd::prelude::*;

use crate::error::DomainError;
use crate::error::DomainResult;
use crate::error::RepoError;
use crate::models::block::Block;
use crate::models::block::BlockId;
use crate::models::block::BlockUpdate;
use crate::models::block::NewBlock;
use crate::models::channel::Channel;
use crate::models::channel::ChannelId;
use crate::models::channel::ChannelUpdate;
use crate::models::channel::NewChannel;
use crate::models::common::FieldUpdate;
use crate::models::common::Page;
use crate::models::common::now_millis;
use crate::models::common::spec_apply;
use crate::models::connection::Connection;
use crate::ports::repository::BlockRepository;
use crate::ports::repository::ChannelRepository;
use crate::ports::repository::ConnectionRepository;
use crate::ports::repository::channel_index;
use crate::ports::repository::block_index;
use crate::ports::repository::conn_index;
use crate::ports::repository::conns_batch_dup;
use crate::ports::repository::find_block;
use crate::ports::repository::find_channel;
use crate::ports::repository::find_conn;
use crate::ports::repository::is_pair;
use crate::ports::repository::lemma_block_index;
use crate::ports::repository::lemma_channel_index;
use crate::ports::repository::lemma_conn_index;
use crate::ports::repository::lemma_find_conn_push;
use crate::ports::repository::next_position_fits;
use crate::ports::repository::page_slice;
use crate::ports::repository::pair_connected;
use crate::ports::repository::sort_channels_desc;
use crate::ports::repository::sort_conns;
use crate::ports::repository::spec_next_position;
use crate::seqs::lemma_filter_map_take_step;
use crate::seqs::lemma_take_all;
use crate::validation::content_err;
use crate::validation::content_ok;
use crate::validation::title_err;
use crate::validation::validate_block_content;
use crate::validation::validate_channel_title;

verus! {

// ─── Specification helpers ──────────────────────────────────────────────

/// How an updated channel relates to the stored one: same id and creation
/// time, the title replaced when the update carries one, the description
/// run through the field update.
pub open spec fn channel_updated_fields(c: Channel, c0: Channel, update: ChannelUpdate) -> bool {
    c.id == c0.id && c.created_at == c0.created_at && c.title == (match update.title {
        Some(t) => t,
        None => c0.title,
    }) && c.description == spec_apply(update.description, c0.description)
}

/// What one optional metadata field update does: an absent update keeps
/// the current value, a present one is applied.
pub open spec fn opt_apply(
    u: Option<FieldUpdate<String>>,
    current: Option<String>,
) -> Option<String> {
    match u {
        Some(fu) => spec_apply(fu, current),
        None => current,
    }
}

/// How an updated block relates to the stored one: same id and creation
/// time, the content replaced when the update carries one, and every
/// metadata field run through its own field update.
pub open spec fn block_updated_fields(b: Block, b0: Block, update: BlockUpdate) -> bool {
    b.id == b0.id && b.created_at == b0.created_at && b.content == (match update.content {
        Some(ct) => ct,
        None => b0.content,
    }) && b.source_url == opt_apply(update.source_url, b0.source_url) && b.source_title
        == opt_apply(update.source_title, b0.source_title) && b.creator == opt_apply(
        update.creator,
        b0.creator,
    ) && b.original_date == opt_apply(update.original_date, b0.original_date) && b.notes
        == opt_apply(update.notes, b0.notes)
}

/// The first rejection among a batch of new blocks, in order, or `None`
/// when every item is valid.
pub open spec fn batch_err(bs: Seq<NewBlock>) -> Option<Seq<char>>
    decreases bs.len(),
{
    if bs.len() == 0 {
        None
    } else if content_err(&bs.first().content) is Some {
        content_err(&bs.first().content)
    } else {
        batch_err(bs.drop_first())
    }
}

/// The first rejection is decided by the first invalid item.
pub proof fn lemma_batch_err(bs: Seq<NewBlock>, i: int)
    requires
        0 <= i <= bs.len(),
        forall|k: int| 0 <= k < i ==> content_err(&(#[trigger] bs[k]).content) is None,
    ensures
        i == bs.len() ==> batch_err(bs) is None,
        i < bs.len() && content_err(&bs[i].content) is Some ==> batch_err(bs) == content_err(
            &bs[i].content,
        ),
    decreases bs.len(),
{
    if bs.len() == 0 {
    } else if i == 0 {
        if bs.len() > 0 && content_err(&bs.first().content) is None {
            lemma_batch_err(bs.drop_first(), 0);
        }
    } else {
        assert(content_err(&bs[0].content) is None);
        assert forall|k: int|
            0 <= k < i - 1 implies content_err(
            &(#[trigger] bs.drop_first()[k]).content,
        ) is None by {
            assert(bs.drop_first()[k] == bs[k + 1]);
        }
        lemma_batch_err(bs.drop_first(), i - 1);
    }
}

/// Whether a block id is missing or already connected to the channel: the
/// conditions a batch connect checks for each block before any write.
pub open spec fn bad_batch_block(
    id: BlockId,
    blocks: Seq<Block>,
    conns: Seq<Connection>,
    c: Seq<char>,
) -> bool {
    find_block(blocks, id.0@) is None || pair_connected(conns, id.0@, c)
}

/// The index of the first block a batch connect rejects, or the length of
/// `ids` when every block passes.
pub open spec fn first_bad_index(
    ids: Seq<BlockId>,
    blocks: Seq<Block>,
    conns: Seq<Connection>,
    c: Seq<char>,
) -> int
    decreases ids.len(),
{
    if ids.len() == 0 {
        0
    } else if bad_batch_block(ids.first(), blocks, conns, c) {
        0
    } else {
        1 + first_bad_index(ids.drop_first(), blocks, conns, c)
    }
}

/// The first rejected index really is the first.
pub proof fn lemma_first_bad_index(
    ids: Seq<BlockId>,
    blocks: Seq<Block>,
    conns: Seq<Connection>,
    c: Seq<char>,
)
    ensures
        0 <= first_bad_index(ids, blocks, conns, c) <= ids.len(),
        first_bad_index(ids, blocks, conns, c) < ids.len() ==> bad_batch_block(
            ids[first_bad_index(ids, blocks, conns, c)],
            blocks,
            conns,
            c,
        ),
        forall|j: int|
            0 <= j < first_bad_index(ids, blocks, conns, c) ==> !bad_batch_block(
                #[trigger] ids[j],
                blocks,
                conns,
                c,
            ),
    decreases ids.len(),
{
    if ids.len() == 0 {
    } else if bad_batch_block(ids.first(), blocks, conns, c) {
    } else {
        lemma_first_bad_index(ids.drop_first(), blocks, conns, c);
        let n = first_bad_index(ids.drop_first(), blocks, conns, c);
        assert forall|j: int| 0 <= j < 1 + n implies !bad_batch_block(
            #[trigger] ids[j],
            blocks,
            conns,
            c,
        ) by {
            if j > 0 {
                assert(!bad_batch_block(ids.drop_first()[j - 1], blocks, conns, c));
            }
        }
    }
}

/// Whether a batch connect's preliminary checks all pass: the channel
/// exists and every block exists and is not yet connected.
pub open spec fn batch_checks_pass(
    ids: Seq<BlockId>,
    channels: Seq<Channel>,
    blocks: Seq<Block>,
    conns: Seq<Connection>,
    c: Seq<char>,
) -> bool {
    find_channel(channels, c) is Some && first_bad_index(ids, blocks, conns, c) == ids.len()
}

/// Whether the starting position of a batch connect can be resolved: it
/// is given, or the channel's next free position fits an `i32`.
pub open spec fn start_ok(sp: Option<i32>, conns: Seq<Connection>, c: Seq<char>) -> bool {
    sp is Some || next_position_fits(conns, c)
}

/// The position the first block of a batch connect receives.
pub open spec fn resolved_start(sp: Option<i32>, conns: Seq<Connection>, c: Seq<char>) -> int {
    match sp {
        Some(p) => p as int,
        None => spec_next_position(conns, c),
    }
}

/// Whether a block id occurs twice in the batch.
pub open spec fn ids_have_dup(ids: Seq<BlockId>) -> bool {
    exists|i: int, j: int|
        0 <= i < j < ids.len() && (#[trigger] ids[i]).0@ == (#[trigger] ids[j]).0@
}

/// The channel's blocks joined with their positions: each connection,
/// in order, resolved against the block store; connections whose block is
/// missing are skipped.
pub open spec fn join_pairs(cns: Seq<Connection>, blocks: Seq<Block>) -> Seq<(Block, i32)> {
    cns.filter_map(
        |cn: Connection|
            match find_block(blocks, cn.block_id.0@) {
                Some(b) => Some((b, cn.position)),
                None => None,
            },
    )
}

/// The channels a block's connections resolve to, in connection order;
/// connections whose channel is missing are skipped.
pub open spec fn join_channels(cns: Seq<Connection>, channels: Seq<Channel>) -> Seq<Channel> {
    cns.filter_map(|cn: Connection| find_channel(channels, cn.channel_id.0@))
}

// ─── The service ────────────────────────────────────────────────────────

/// Unified service for domain operations.
///
/// The service combines access to channels, blocks, and connections, so
/// cross-aggregate operations (like connecting a block to a channel) can
/// check every invariant before they write.
pub struct GardenService<CR, BR, CNR> {
    channels: CR,
    blocks: BR,
    connections: CNR,
}

impl<CR: ChannelRepository, BR: BlockRepository, CNR: ConnectionRepository> GardenService<
    CR,
    BR,
    CNR,
> {
    /// The stored channels, in insertion order.
    pub closed spec fn channels_view(&self) -> Seq<Channel> {
        self.channels.channels()
    }

    /// The stored blocks, in insertion order.
    pub closed spec fn blocks_view(&self) -> Seq<Block> {
        self.blocks.blocks()
    }

    /// The stored connections, in insertion order.
    pub closed spec fn conns_view(&self) -> Seq<Connection> {
        self.connections.conns()
    }

    /// Create a new service over the given repositories.
    pub fn new(channels: CR, blocks: BR, connections: CNR) -> (r: Self)
        ensures
            r.channels_view() == channels.channels(),
            r.blocks_view() == blocks.blocks(),
            r.conns_view() == connections.conns(),
    {
        Self { channels, blocks, connections }
    }

    // ─── Channel operations ─────────────────────────────────────────

    /// Create a new channel: validate the title, then persist.
    pub fn create_channel(&mut self, new_channel: NewChannel) -> (r: DomainResult<Channel>)
        ensures
            final(self).blocks_view() == old(self).blocks_view(),
            final(self).conns_view() == old(self).conns_view(),
            title_err(new_channel.title@) matches Some(m) ==> (r matches Err(e) && e matches
                DomainError::InvalidInput(msg) && msg@ == m && final(self).channels_view() == old(self).channels_view()),
            title_err(new_channel.title@) is None ==> match r {
                Ok(c) => c.title == new_channel.title && c.description == new_channel.description
                    && find_channel(old(self).channels_view(), c.id.0@) is None && final(self).channels_view() == old(self).channels_view().push(c),
                Err(e) => e == DomainError::Repository(RepoError::Duplicate) && old(self).channels_view().len() > 0 && final(self).channels_view() == old(self).channels_view(),
            },
    {
        if let Err(e) = validate_channel_title(new_channel.title.as_str()) {
            return Err(e);
        }
        let channel = match new_channel.description {
            Some(desc) => Channel::with_description(new_channel.title, desc),
            None => Channel::new(new_channel.title),
        };
        match self.channels.create(&channel) {
            Ok(()) => Ok(channel),
            Err(e) => Err(DomainError::Repository(e)),
        }
    }

    /// Get a channel by id.
    pub fn get_channel(&self, id: &ChannelId) -> (r: DomainResult<Channel>)
        ensures
            match find_channel(self.channels_view(), id.0@) {
                Some(c) => r == Ok::<Channel, DomainError>(c),
                None => (r matches Err(e) && e matches DomainError::ChannelNotFound(i) && i
                    == *id),
            },
    {
        match self.channels.get(id) {
            Ok(Some(c)) => Ok(c),
            Ok(None) => Err(DomainError::ChannelNotFound(id.clone())),
            Err(e) => Err(DomainError::Repository(e)),
        }
    }

    /// List channels, newest first, with pagination.
    pub fn list_channels(&self, limit: usize, offset: usize) -> (r: DomainResult<Page<Channel>>)
        ensures
            r matches Ok(p) && p.items@ == page_slice(
                sort_channels_desc(self.channels_view()),
                offset as int,
                limit as int,
            ) && p.total == self.channels_view().len() && p.offset == offset && p.limit == limit,
    {
        match self.channels.list(limit, offset) {
            Ok(p) => Ok(p),
            Err(e) => Err(DomainError::Repository(e)),
        }
    }

    /// Update a channel: fetch it, validate a replacement title when one
    /// is given, apply the description update, persist.
    pub fn update_channel(&mut self, id: &ChannelId, update: ChannelUpdate) -> (r: DomainResult<
        Channel,
    >)
        ensures
            final(self).blocks_view() == old(self).blocks_view(),
            final(self).conns_view() == old(self).conns_view(),
            find_channel(old(self).channels_view(), id.0@) is None ==> (r matches Err(e) && e
                matches DomainError::ChannelNotFound(i) && i == *id && final(self).channels_view()
                == old(self).channels_view()),
            find_channel(old(self).channels_view(), id.0@) matches Some(c0) ==> match update.title {
                Some(t) => if title_err(t@) is Some {
                    r matches Err(e) && e matches DomainError::InvalidInput(m) && Some(m@)
                        == title_err(t@) && final(self).channels_view() == old(self).channels_view()
                } else {
                    r matches Ok(c) && channel_updated_fields(c, c0, update) && final(self).channels_view() == old(self).channels_view().update(
                        channel_index(old(self).channels_view(), id.0@),
                        c,
                    )
                },
                None => r matches Ok(c) && channel_updated_fields(c, c0, update) && final(self).channels_view() == old(self).channels_view().update(
                    channel_index(old(self).channels_view(), id.0@),
                    c,
                ),
            },
    {
        proof {
            lemma_channel_index(self.channels_view(), id.0@);
        }
        let mut channel = match self.get_channel(id) {
            Ok(c) => c,
            Err(e) => {
                return Err(e);
            },
        };
        if let Some(title) = update.title {
            if let Err(e) = validate_channel_title(title.as_str()) {
                return Err(e);
            }
            channel.title = title;
        }
        channel.description = update.description.apply(channel.description);
        channel.updated_at = now_millis();
        match self.channels.update(&channel) {
            Ok(()) => Ok(channel),
            Err(e) => Err(DomainError::Repository(e)),
        }
    }

    /// Delete a channel and cascade-remove its connections; blocks stay.
    pub fn delete_channel(&mut self, id: &ChannelId) -> (r: DomainResult<()>)
        ensures
            final(self).blocks_view() == old(self).blocks_view(),
            find_channel(old(self).channels_view(), id.0@) is None ==> (r matches Err(e) && e
                matches DomainError::ChannelNotFound(i) && i == *id && final(self).channels_view()
                == old(self).channels_view() && final(self).conns_view() == old(self).conns_view()),
            find_channel(old(self).channels_view(), id.0@) is Some ==> r is Ok && final(self).channels_view() == old(self).channels_view().filter(
                |c: Channel| c.id.0@ != id.0@,
            ) && final(self).conns_view() == old(self).conns_view().filter(
                |cn: Connection| cn.channel_id.0@ != id.0@,
            ),
    {
        match self.get_channel(id) {
            Ok(_) => {},
            Err(e) => {
                return Err(e);
            },
        }
        match self.channels.delete(id) {
            Ok(()) => {},
            Err(e) => {
                return Err(DomainError::Repository(e));
            },
        }
        self.connections.purge_channel(id);
        Ok(())
    }

    /// Count stored channels.
    pub fn count_channels(&self) -> (r: DomainResult<usize>)
        ensures
            r == Ok::<usize, DomainError>(self.channels_view().len() as usize),
    {
        match self.channels.count() {
            Ok(n) => Ok(n),
            Err(e) => Err(DomainError::Repository(e)),
        }
    }

    // ─── Block operations ───────────────────────────────────────────

    /// Create a new block: validate the content, then persist.
    pub fn create_block(&mut self, new_block: NewBlock) -> (r: DomainResult<Block>)
        ensures
            final(self).channels_view() == old(self).channels_view(),
            final(self).conns_view() == old(self).conns_view(),
            content_err(&new_block.content) matches Some(m) ==> (r matches Err(e) && e matches
                DomainError::InvalidInput(msg) && msg@ == m && final(self).blocks_view() == old(self).blocks_view()),
            content_ok(&new_block.content) ==> match r {
                Ok(b) => b.content == new_block.content && b.source_url is None && b.source_title
                    is None && b.creator is None && b.original_date is None && b.notes is None
                    && find_block(old(self).blocks_view(), b.id.0@) is None && final(self).blocks_view() == old(self).blocks_view().push(b),
                Err(e) => e == DomainError::Repository(RepoError::Duplicate) && old(self).blocks_view().len() > 0 && final(self).blocks_view() == old(self).blocks_view(),
            },
    {
        if let Err(e) = validate_block_content(&new_block.content) {
            return Err(e);
        }
        let block = Block::new(new_block.content);
        match self.blocks.create(&block) {
            Ok(()) => Ok(block),
            Err(e) => Err(DomainError::Repository(e)),
        }
    }

    /// Create several blocks at once: validate every item before any
    /// write, then persist them in one atomic batch.
    pub fn create_blocks(&mut self, new_blocks: Vec<NewBlock>) -> (r: DomainResult<Vec<Block>>)
        ensures
            final(self).channels_view() == old(self).channels_view(),
            final(self).conns_view() == old(self).conns_view(),
            batch_err(new_blocks@) matches Some(m) ==> (r matches Err(e) && e matches
                DomainError::InvalidInput(msg) && msg@ == m && final(self).blocks_view() == old(self).blocks_view()),
            batch_err(new_blocks@) is None ==> match r {
                Ok(v) => v@.len() == new_blocks@.len() && (forall|i: int|
                    #![trigger v@[i]]
                    0 <= i < v@.len() ==> v@[i].content == new_blocks@[i].content && v@[i].source_url
                        is None) && final(self).blocks_view() == old(self).blocks_view() + v@,
                Err(e) => e == DomainError::Repository(RepoError::Duplicate) && final(self).blocks_view() == old(self).blocks_view(),
            },
    {
        let n = new_blocks.len();
        let mut i: usize = 0;
        while i < n
            invariant
                0 <= i <= n,
                n == new_blocks@.len(),
                forall|k: int| 0 <= k < i ==> content_err(&(#[trigger] new_blocks@[k]).content) is None,
            decreases n - i,
        {
            match validate_block_content(&new_blocks[i].content) {
                Ok(()) => {},
                Err(e) => {
                    proof {
                        lemma_batch_err(new_blocks@, i as int);
                    }
                    return Err(e);
                },
            }
            i += 1;
        }
        proof {
            lemma_batch_err(new_blocks@, n as int);
        }
        let mut blocks: Vec<Block> = Vec::new();
        let mut k: usize = 0;
        while k < n
            invariant
                0 <= k <= n,
                n == new_blocks@.len(),
                blocks@.len() == k,
                forall|m: int|
                    #![trigger blocks@[m]]
                    0 <= m < k ==> blocks@[m].content == new_blocks@[m].content
                        && blocks@[m].source_url is None,
            decreases n - k,
        {
            let b = Block::new(new_blocks[k].content.clone());
            blocks.push(b);
            k += 1;
        }
        match self.blocks.create_batch(&blocks) {
            Ok(()) => Ok(blocks),
            Err(e) => Err(DomainError::Repository(e)),
        }
    }

    /// Get a block by id.
    pub fn get_block(&self, id: &BlockId) -> (r: DomainResult<Block>)
        ensures
            match find_block(self.blocks_view(), id.0@) {
                Some(b) => r == Ok::<Block, DomainError>(b),
                None => (r matches Err(e) && e matches DomainError::BlockNotFound(i) && i == *id),
            },
    {
        match self.blocks.get(id) {
            Ok(Some(b)) => Ok(b),
            Ok(None) => Err(DomainError::BlockNotFound(id.clone())),
            Err(e) => Err(DomainError::Repository(e)),
        }
    }

    /// Update a block: fetch it, validate replacement content when given,
    /// apply each metadata field update independently, persist.
    pub fn update_block(&mut self, id: &BlockId, update: BlockUpdate) -> (r: DomainResult<Block>)
        ensures
            final(self).channels_view() == old(self).channels_view(),
            final(self).conns_view() == old(self).conns_view(),
            find_block(old(self).blocks_view(), id.0@) is None ==> (r matches Err(e) && e matches
                DomainError::BlockNotFound(i) && i == *id && final(self).blocks_view() == old(self).blocks_view()),
            find_block(old(self).blocks_view(), id.0@) matches Some(b0) ==> match update.content {
                Some(ct) => if content_err(&ct) is Some {
                    r matches Err(e) && e matches DomainError::InvalidInput(m) && Some(m@)
                        == content_err(&ct) && final(self).blocks_view() == old(self).blocks_view()
                } else {
                    r matches Ok(b) && block_updated_fields(b, b0, update) && final(self).blocks_view() == old(self).blocks_view().update(
                        block_index(old(self).blocks_view(), id.0@),
                        b,
                    )
                },
                None => r matches Ok(b) && block_updated_fields(b, b0, update) && final(self).blocks_view() == old(self).blocks_view().update(
                    block_index(old(self).blocks_view(), id.0@),
                    b,
                ),
            },
    {
        proof {
            lemma_block_index(self.blocks_view(), id.0@);
        }
        let mut block = match self.get_block(id) {
            Ok(b) => b,
            Err(e) => {
                return Err(e);
            },
        };
        if let Some(content) = update.content {
            if let Err(e) = validate_block_content(&content) {
                return Err(e);
            }
            block.content = content;
        }
        if let Some(field_update) = update.source_url {
            block.source_url = field_update.apply(block.source_url);
        }
        if let Some(field_update) = update.source_title {
            block.source_title = field_update.apply(block.source_title);
        }
        if let Some(field_update) = update.creator {
            block.creator = field_update.apply(block.creator);
        }
        if let Some(field_update) = update.original_date {
            block.original_date = field_update.apply(block.original_date);
        }
        if let Some(field_update) = update.notes {
            block.notes = field_update.apply(block.notes);
        }
        block.updated_at = now_millis();
        match self.blocks.update(&block) {
            Ok(()) => Ok(block),
            Err(e) => Err(DomainError::Repository(e)),
        }
    }

    /// Delete a block and cascade-remove its connections; channels stay.
    pub fn delete_block(&mut self, id: &BlockId) -> (r: DomainResult<()>)
        ensures
            final(self).channels_view() == old(self).channels_view(),
            find_block(old(self).blocks_view(), id.0@) is None ==> (r matches Err(e) && e matches
                DomainError::BlockNotFound(i) && i == *id && final(self).blocks_view() == old(self).blocks_view() && final(self).conns_view() == old(self).conns_view()),
            find_block(old(self).blocks_view(), id.0@) is Some ==> r is Ok && final(self).blocks_view() == old(self).blocks_view().filter(|b: Block| b.id.0@ != id.0@)
                && final(self).conns_view() == old(self).conns_view().filter(
                |cn: Connection| cn.block_id.0@ != id.0@,
            ),
    {
        match self.get_block(id) {
            Ok(_) => {},
            Err(e) => {
                return Err(e);
            },
        }
        match self.blocks.delete(id) {
            Ok(()) => {},
            Err(e) => {
                return Err(DomainError::Repository(e));
            },
        }
        self.connections.purge_block(id);
        Ok(())
    }

    // ─── Connection operations ──────────────────────────────────────

    /// Connect a block to a channel.
    ///
    /// Both endpoints must exist and the pair must not be connected yet.
    /// When no position is given the block is appended at the next free
    /// position.
    pub fn connect_block(
        &mut self,
        block_id: &BlockId,
        channel_id: &ChannelId,
        position: Option<i32>,
    ) -> (r: DomainResult<Connection>)
        ensures
            final(self).channels_view() == old(self).channels_view(),
            final(self).blocks_view() == old(self).blocks_view(),
            find_block(old(self).blocks_view(), block_id.0@) is None ==> (r matches Err(e) && e
                matches DomainError::BlockNotFound(i) && i == *block_id && final(self).conns_view()
                == old(self).conns_view()),
            find_block(old(self).blocks_view(), block_id.0@) is Some && find_channel(
                old(self).channels_view(),
                channel_id.0@,
            ) is None ==> (r matches Err(e) && e matches DomainError::ChannelNotFound(i) && i
                == *channel_id && final(self).conns_view() == old(self).conns_view()),
            find_block(old(self).blocks_view(), block_id.0@) is Some && find_channel(
                old(self).channels_view(),
                channel_id.0@,
            ) is Some && pair_connected(old(self).conns_view(), block_id.0@, channel_id.0@) ==> (r
                matches Err(e) && e matches DomainError::InvalidInput(m) && m@
                == "block is already connected to this channel"@ && final(self).conns_view() == old(self).conns_view()),
            find_block(old(self).blocks_view(), block_id.0@) is Some && find_channel(
                old(self).channels_view(),
                channel_id.0@,
            ) is Some && !pair_connected(old(self).conns_view(), block_id.0@, channel_id.0@)
                && position is None && !next_position_fits(old(self).conns_view(), channel_id.0@)
                ==> (r matches Err(e) && e matches DomainError::Repository(re) && re is Database
                && final(self).conns_view() == old(self).conns_view()),
            find_block(old(self).blocks_view(), block_id.0@) is Some && find_channel(
                old(self).channels_view(),
                channel_id.0@,
            ) is Some && !pair_connected(old(self).conns_view(), block_id.0@, channel_id.0@) && (
            position is Some || next_position_fits(old(self).conns_view(), channel_id.0@)) ==> (r
                matches Ok(conn) && conn.block_id == *block_id && conn.channel_id == *channel_id
                && conn.position as int == (match position {
                Some(p) => p as int,
                None => spec_next_position(old(self).conns_view(), channel_id.0@),
            }) && final(self).conns_view() == old(self).conns_view().push(conn)),
    {
        match self.get_block(block_id) {
            Ok(_) => {},
            Err(e) => {
                return Err(e);
            },
        }
        match self.get_channel(channel_id) {
            Ok(_) => {},
            Err(e) => {
                return Err(e);
            },
        }
        match self.connections.get_connection(block_id, channel_id) {
            Ok(Some(_)) => {
                return Err(
                    DomainError::InvalidInput(
                        "block is already connected to this channel".to_owned(),
                    ),
                );
            },
            Ok(None) => {},
            Err(e) => {
                return Err(DomainError::Repository(e));
            },
        }
        let pos = match position {
            Some(p) => p,
            None => match self.connections.next_position(channel_id) {
                Ok(p) => p,
                Err(e) => {
                    return Err(DomainError::Repository(e));
                },
            },
        };
        match self.connections.connect(block_id, channel_id, pos) {
            Ok(()) => {},
            Err(e) => {
                return Err(DomainError::Repository(e));
            },
        }
        proof {
            let cns = self.connections.conns();
            assert(cns =~= old(self).conns_view().push(cns.last()));
            lemma_find_conn_push(
                old(self).conns_view(),
                cns.last(),
                block_id.0@,
                channel_id.0@,
            );
        }
        match self.connections.get_connection(block_id, channel_id) {
            Ok(Some(conn)) => Ok(conn),
            Ok(None) => Err(
                DomainError::ConnectionNotFound(block_id.clone(), channel_id.clone()),
            ),
            Err(e) => Err(DomainError::Repository(e)),
        }
    }

    /// Connect several blocks to a channel at once.
    ///
    /// The channel must exist; every block must exist and not be
    /// connected yet, checked in input order before any write.  The
    /// blocks receive consecutive positions starting at the given
    /// position, or at the channel's next free position, and are
    /// persisted in one atomic batch.
    #[verifier::loop_isolation(false)]
    #[verifier::rlimit(30)]
    pub fn connect_blocks(
        &mut self,
        block_ids: &Vec<BlockId>,
        channel_id: &ChannelId,
        starting_position: Option<i32>,
    ) -> (r: DomainResult<Vec<Connection>>)
        ensures
            final(self).channels_view() == old(self).channels_view(),
            final(self).blocks_view() == old(self).blocks_view(),
            find_channel(old(self).channels_view(), channel_id.0@) is None ==> (r matches Err(e)
                && e matches DomainError::ChannelNotFound(i) && i == *channel_id && final(self).conns_view() == old(self).conns_view()),
            ({
                let bad = first_bad_index(
                    block_ids@,
                    old(self).blocks_view(),
                    old(self).conns_view(),
                    channel_id.0@,
                );
                find_channel(old(self).channels_view(), channel_id.0@) is Some && bad
                    < block_ids@.len() && find_block(
                    old(self).blocks_view(),
                    block_ids@[bad].0@,
                ) is None
            }) ==> (r matches Err(e) && e matches DomainError::BlockNotFound(i) && i
                == block_ids@[first_bad_index(
                block_ids@,
                old(self).blocks_view(),
                old(self).conns_view(),
                channel_id.0@,
            )] && final(self).conns_view() == old(self).conns_view()),
            ({
                let bad = first_bad_index(
                    block_ids@,
                    old(self).blocks_view(),
                    old(self).conns_view(),
                    channel_id.0@,
                );
                find_channel(old(self).channels_view(), channel_id.0@) is Some && bad
                    < block_ids@.len() && find_block(
                    old(self).blocks_view(),
                    block_ids@[bad].0@,
                ) is Some
            }) ==> (r matches Err(e) && e matches DomainError::InvalidInput(m) && m@ == "block "@
                + block_ids@[first_bad_index(
                block_ids@,
                old(self).blocks_view(),
                old(self).conns_view(),
                channel_id.0@,
            )].0@ + " is already connected to this channel"@ && final(self).conns_view() == old(self).conns_view()),
            batch_checks_pass(
                block_ids@,
                old(self).channels_view(),
                old(self).blocks_view(),
                old(self).conns_view(),
                channel_id.0@,
            ) && starting_position is None && !next_position_fits(
                old(self).conns_view(),
                channel_id.0@,
            ) ==> (r matches Err(e) && e matches DomainError::Repository(re) && re is Database
                && final(self).conns_view() == old(self).conns_view()),
            batch_checks_pass(
                block_ids@,
                old(self).channels_view(),
                old(self).blocks_view(),
                old(self).conns_view(),
                channel_id.0@,
            ) && start_ok(starting_position, old(self).conns_view(), channel_id.0@)
                && block_ids@.len() > 0 && resolved_start(
                starting_position,
                old(self).conns_view(),
                channel_id.0@,
            ) + block_ids@.len() - 1 > i32::MAX ==> (r matches Err(e) && e matches
                DomainError::InvalidInput(m) && m@ == "position overflow"@ && final(self).conns_view() == old(self).conns_view()),
            batch_checks_pass(
                block_ids@,
                old(self).channels_view(),
                old(self).blocks_view(),
                old(self).conns_view(),
                channel_id.0@,
            ) && start_ok(starting_position, old(self).conns_view(), channel_id.0@) && (
            block_ids@.len() == 0 || resolved_start(
                starting_position,
                old(self).conns_view(),
                channel_id.0@,
            ) + block_ids@.len() - 1 <= i32::MAX) ==> ({
                let start = resolved_start(
                    starting_position,
                    old(self).conns_view(),
                    channel_id.0@,
                );
                if ids_have_dup(block_ids@) {
                    r matches Err(e) && e == DomainError::Repository(RepoError::Duplicate)
                        && final(self).conns_view() == old(self).conns_view()
                } else {
                    r matches Ok(v) && v@.len() == block_ids@.len() && (forall|i: int|
                        #![trigger v@[i]]
                        0 <= i < v@.len() ==> v@[i].block_id == block_ids@[i] && v@[i].channel_id
                            == *channel_id && v@[i].position as int == start + i) && final(self).conns_view() == old(self).conns_view() + v@
                }
            }),
    {
        let ghost ids = block_ids@;
        let ghost old_blocks = self.blocks_view();
        let ghost old_conns = self.conns_view();
        let ghost c = channel_id.0@;
        let n = block_ids.len();
        match self.get_channel(channel_id) {
            Ok(_) => {},
            Err(e) => {
                return Err(e);
            },
        }
        proof {
            lemma_first_bad_index(ids, old_blocks, old_conns, c);
        }
        let mut i: usize = 0;
        while i < n
            invariant
                0 <= i <= n,
                forall|k: int| 0 <= k < i ==> !bad_batch_block(#[trigger] ids[k], old_blocks, old_conns, c),
            decreases n - i,
        {
            let ghost fb = first_bad_index(ids, old_blocks, old_conns, c);
            match self.get_block(&block_ids[i]) {
                Ok(_) => {},
                Err(e) => {
                    proof {
                        assert(bad_batch_block(ids[i as int], old_blocks, old_conns, c));
                        if fb < i {
                            assert(!bad_batch_block(ids[fb], old_blocks, old_conns, c));
                        } else if fb > i {
                            assert(!bad_batch_block(ids[i as int], old_blocks, old_conns, c));
                        }
                    }
                    return Err(e);
                },
            }
            match self.connections.get_connection(&block_ids[i], channel_id) {
                Ok(Some(_)) => {
                    proof {
                        assert(bad_batch_block(ids[i as int], old_blocks, old_conns, c));
                        if fb < i {
                            assert(!bad_batch_block(ids[fb], old_blocks, old_conns, c));
                        } else if fb > i {
                            assert(!bad_batch_block(ids[i as int], old_blocks, old_conns, c));
                        }
                    }
                    let mut msg = "block ".to_owned();
                    msg.append(block_ids[i].0.as_str());
                    msg.append(" is already connected to this channel");
                    return Err(DomainError::InvalidInput(msg));
                },
                Ok(None) => {},
                Err(e) => {
                    return Err(DomainError::Repository(e));
                },
            }
            i += 1;
        }
        proof {
            let fb = first_bad_index(ids, old_blocks, old_conns, c);
            if fb < ids.len() {
                assert(!bad_batch_block(ids[fb], old_blocks, old_conns, c));
            }
            assert(fb == ids.len());
        }
        let start: i32 = match starting_position {
            Some(p) => p,
            None => match self.connections.next_position(channel_id) {
                Ok(p) => p,
                Err(e) => {
                    return Err(DomainError::Repository(e));
                },
            },
        };
        if n > 0 {
            let last_pos: i128 = start as i128 + n as i128 - 1;
            if last_pos > i32::MAX as i128 {
                return Err(DomainError::InvalidInput("position overflow".to_owned()));
            }
        }
        let mut triples: Vec<(BlockId, ChannelId, i32)> = Vec::new();
        let mut t: usize = 0;
        while t < n
            invariant
                0 <= t <= n,
                triples@.len() == t,
                n > 0 ==> start + n - 1 <= i32::MAX,
                forall|m: int|
                    #![trigger triples@[m]]
                    0 <= m < t ==> triples@[m].0 == ids[m] && triples@[m].1 == *channel_id
                        && triples@[m].2 as int == start + m,
            decreases n - t,
        {
            let pos: i32 = (start as i64 + t as i64) as i32;
            triples.push((block_ids[t].clone(), channel_id.clone(), pos));
            t += 1;
        }
        proof {
            assert forall|k: int|
                0 <= k < triples@.len() implies !pair_connected(
                old_conns,
                (#[trigger] triples@[k]).0.0@,
                triples@[k].1.0@,
            ) by {
                assert(!bad_batch_block(ids[k], old_blocks, old_conns, c));
            }
        }
        match self.connections.connect_batch(&triples) {
            Ok(()) => {},
            Err(e) => {
                proof {
                    assert(ids_have_dup(ids)) by {
                        assert(conns_batch_dup(triples@, old_conns));
                        if exists|k: int|
                            0 <= k < triples@.len() && pair_connected(
                                old_conns,
                                (#[trigger] triples@[k]).0.0@,
                                triples@[k].1.0@,
                            ) {
                            let k = choose|k: int|
                                0 <= k < triples@.len() && pair_connected(
                                    old_conns,
                                    (#[trigger] triples@[k]).0.0@,
                                    triples@[k].1.0@,
                                );
                            assert(false);
                        }
                        let (a, b) = choose|a: int, b: int|
                            0 <= a < b < triples@.len() && (#[trigger] triples@[a]).0.0@
                                == (#[trigger] triples@[b]).0.0@ && triples@[a].1.0@
                                == triples@[b].1.0@;
                        assert(ids[a].0@ == ids[b].0@);
                    }
                }
                return Err(DomainError::Repository(e));
            },
        }
        proof {
            assert(!ids_have_dup(ids)) by {
                if ids_have_dup(ids) {
                    let (a, b) = choose|a: int, b: int|
                        0 <= a < b < ids.len() && (#[trigger] ids[a]).0@ == (#[trigger] ids[b]).0@;
                    assert(triples@[a].0.0@ == triples@[b].0.0@ && triples@[a].1.0@
                        == triples@[b].1.0@);
                    assert(conns_batch_dup(triples@, old_conns));
                }
            }
        }
        let ghost new_conns = self.connections.conns();
        let mut result: Vec<Connection> = Vec::new();
        let mut q: usize = 0;
        while q < n
            invariant
                0 <= q <= n,
                self.connections.conns() == new_conns,
                result@.len() == q,
                forall|m: int|
                    #![trigger result@[m]]
                    0 <= m < q ==> result@[m] == new_conns[old_conns.len() + m]
                        && result@[m].block_id == ids[m] && result@[m].channel_id == *channel_id
                        && result@[m].position as int == start + m,
            decreases n - q,
        {
            proof {
                let b = ids[q as int].0@;
                let target = old_conns.len() as int + q;
                lemma_conn_index(old_conns, b, c);
                lemma_conn_index(new_conns, b, c);
                assert(!bad_batch_block(ids[q as int], old_blocks, old_conns, c));
                assert forall|j: int| 0 <= j < target implies !is_pair(new_conns[j], b, c) by {
                    if j < old_conns.len() {
                        assert(new_conns.take(old_conns.len() as int)[j] == new_conns[j]);
                    } else {
                        let m = j - old_conns.len();
                        assert(new_conns[j].block_id == triples@[m].0);
                        assert(ids[m].0@ != ids[q as int].0@);
                    }
                }
                assert(new_conns[target].block_id == triples@[q as int].0);
                assert(new_conns[target].channel_id == triples@[q as int].1);
                assert(is_pair(new_conns[target], b, c));
                let ci = conn_index(new_conns, b, c);
                assert(ci == target) by {
                    if ci < target {
                        assert(is_pair(new_conns[ci], b, c));
                    } else if ci > target {
                        assert(!is_pair(new_conns[target], b, c));
                    }
                }
            }
            match self.connections.get_connection(&block_ids[q], channel_id) {
                Ok(Some(conn)) => {
                    result.push(conn);
                },
                Ok(None) => {
                    return Err(
                        DomainError::ConnectionNotFound(block_ids[q].clone(), channel_id.clone()),
                    );
                },
                Err(e) => {
                    return Err(DomainError::Repository(e));
                },
            }
            q += 1;
        }
        proof {
            assert(new_conns =~= old_conns + result@);
        }
        Ok(result)
    }

    /// Disconnect a block from a channel; the pair must be connected.
    pub fn disconnect_block(&mut self, block_id: &BlockId, channel_id: &ChannelId) -> (r:
        DomainResult<()>)
        ensures
            final(self).channels_view() == old(self).channels_view(),
            final(self).blocks_view() == old(self).blocks_view(),
            !pair_connected(old(self).conns_view(), block_id.0@, channel_id.0@) ==> (r matches Err(
                e,
            ) && e matches DomainError::ConnectionNotFound(b, c) && b == *block_id && c
                == *channel_id && final(self).conns_view() == old(self).conns_view()),
            pair_connected(old(self).conns_view(), block_id.0@, channel_id.0@) ==> r is Ok && final(self).conns_view() == old(self).conns_view().filter(
                |cn: Connection| !is_pair(cn, block_id.0@, channel_id.0@),
            ),
    {
        match self.connections.get_connection(block_id, channel_id) {
            Ok(Some(_)) => {},
            Ok(None) => {
                return Err(
                    DomainError::ConnectionNotFound(block_id.clone(), channel_id.clone()),
                );
            },
            Err(e) => {
                return Err(DomainError::Repository(e));
            },
        }
        match self.connections.disconnect(block_id, channel_id) {
            Ok(()) => Ok(()),
            Err(e) => Err(DomainError::Repository(e)),
        }
    }

    /// Get all blocks in a channel, ordered by position.
    pub fn get_blocks_in_channel(&self, channel_id: &ChannelId) -> (r: DomainResult<Vec<Block>>)
        ensures
            r matches Ok(v) && v@ == join_pairs(
                sort_conns(
                    self.conns_view().filter(|cn: Connection| cn.channel_id.0@ == channel_id.0@),
                ),
                self.blocks_view(),
            ).map_values(|p: (Block, i32)| p.0),
    {
        let pairs = match self.get_blocks_in_channel_with_positions(channel_id) {
            Ok(v) => v,
            Err(e) => {
                return Err(e);
            },
        };
        let mut out: Vec<Block> = Vec::new();
        let mut k: usize = 0;
        while k < pairs.len()
            invariant
                0 <= k <= pairs@.len(),
                out@ == pairs@.take(k as int).map_values(|p: (Block, i32)| p.0),
            decreases pairs@.len() - k,
        {
            out.push(pairs[k].0.clone());
            proof {
                assert(pairs@.take(k + 1).map_values(|p: (Block, i32)| p.0) =~= pairs@.take(
                    k as int,
                ).map_values(|p: (Block, i32)| p.0).push(pairs@[k as int].0));
            }
            k += 1;
        }
        proof {
            lemma_take_all(pairs@);
        }
        Ok(out)
    }

    /// Get all blocks in a channel with their positions, ordered by
    /// position; ties keep insertion order.
    #[verifier::loop_isolation(false)]
    pub fn get_blocks_in_channel_with_positions(&self, channel_id: &ChannelId) -> (r: DomainResult<
        Vec<(Block, i32)>,
    >)
        ensures
            r matches Ok(v) && v@ == join_pairs(
                sort_conns(
                    self.conns_view().filter(|cn: Connection| cn.channel_id.0@ == channel_id.0@),
                ),
                self.blocks_view(),
            ),
    {
        let cns = match self.connections.connections_in_channel(channel_id) {
            Ok(v) => v,
            Err(e) => {
                return Err(DomainError::Repository(e));
            },
        };
        let ghost f = |cn: Connection|
            match find_block(self.blocks_view(), cn.block_id.0@) {
                Some(b) => Some((b, cn.position)),
                None => None,
            };
        let mut out: Vec<(Block, i32)> = Vec::new();
        let mut k: usize = 0;
        while k < cns.len()
            invariant
                0 <= k <= cns@.len(),
                out@ == cns@.take(k as int).filter_map(f),
            decreases cns@.len() - k,
        {
            proof {
                lemma_filter_map_take_step(cns@, k as int, f);
            }
            match self.blocks.get(&cns[k].block_id) {
                Ok(Some(b)) => {
                    let p = cns[k].position;
                    out.push((b, p));
                },
                Ok(None) => {},
                Err(e) => {
                    return Err(DomainError::Repository(e));
                },
            }
            proof {
                assert(out@ =~= cns@.take(k as int + 1).filter_map(f));
            }
            k += 1;
        }
        proof {
            lemma_take_all(cns@);
        }
        Ok(out)
    }

    /// Get all channels that contain a block, in connection order.
    #[verifier::loop_isolation(false)]
    pub fn get_channels_for_block(&self, block_id: &BlockId) -> (r: DomainResult<Vec<Channel>>)
        ensures
            r matches Ok(v) && v@ == join_channels(
                self.conns_view().filter(|cn: Connection| cn.block_id.0@ == block_id.0@),
                self.channels_view(),
            ),
    {
        let cns = match self.connections.connections_for_block(block_id) {
            Ok(v) => v,
            Err(e) => {
                return Err(DomainError::Repository(e));
            },
        };
        let ghost f = |cn: Connection| find_channel(self.channels_view(), cn.channel_id.0@);
        let mut out: Vec<Channel> = Vec::new();
        let mut k: usize = 0;
        while k < cns.len()
            invariant
                0 <= k <= cns@.len(),
                out@ == cns@.take(k as int).filter_map(f),
            decreases cns@.len() - k,
        {
            proof {
                lemma_filter_map_take_step(cns@, k as int, f);
            }
            match self.channels.get(&cns[k].channel_id) {
                Ok(Some(c)) => {
                    out.push(c);
                },
                Ok(None) => {},
                Err(e) => {
                    return Err(DomainError::Repository(e));
                },
            }
            proof {
                assert(out@ =~= cns@.take(k as int + 1).filter_map(f));
            }
            k += 1;
        }
        proof {
            lemma_take_all(cns@);
        }
        Ok(out)
    }

    /// Reorder a block within a channel; the pair must be connected.  The
    /// new position overwrites the old one unconditionally; collisions
    /// with other positions in the channel are permitted.
    pub fn reorder_block(
        &mut self,
        channel_id: &ChannelId,
        block_id: &BlockId,
        new_position: i32,
    ) -> (r: DomainResult<()>)
        ensures
            final(self).channels_view() == old(self).channels_view(),
            final(self).blocks_view() == old(self).blocks_view(),
            !pair_connected(old(self).conns_view(), block_id.0@, channel_id.0@) ==> (r matches Err(
                e,
            ) && e matches DomainError::ConnectionNotFound(b, c) && b == *block_id && c
                == *channel_id && final(self).conns_view() == old(self).conns_view()),
            pair_connected(old(self).conns_view(), block_id.0@, channel_id.0@) ==> r is Ok && final(self).conns_view() == old(self).conns_view().update(
                conn_index(old(self).conns_view(), block_id.0@, channel_id.0@),
                (Connection {
                    position: new_position,
                    ..old(self).conns_view()[conn_index(
                        old(self).conns_view(),
                        block_id.0@,
                        channel_id.0@,
                    )]
                }),
            ),
    {
        match self.connections.get_connection(block_id, channel_id) {
            Ok(Some(_)) => {},
            Ok(None) => {
                return Err(
                    DomainError::ConnectionNotFound(block_id.clone(), channel_id.clone()),
                );
            },
            Err(e) => {
                return Err(DomainError::Repository(e));
            },
        }
        match self.connections.reorder(channel_id, block_id, new_position) {
            Ok(()) => Ok(()),
            Err(e) => Err(DomainError::Repository(e)),
        }
    }

    /// Get the connection for a specific pair; the pair must be
    /// connected.
    pub fn get_connection(&self, block_id: &BlockId, channel_id: &ChannelId) -> (r: DomainResult<
        Connection,
    >)
        ensures
            match find_conn(self.conns_view(), block_id.0@, channel_id.0@) {
                Some(cn) => r == Ok::<Connection, DomainError>(cn),
                None => (r matches Err(e) && e matches DomainError::ConnectionNotFound(b, c) && b
                    == *block_id && c == *channel_id),
            },
    {
        match self.connections.get_connection(block_id, channel_id) {
            Ok(Some(cn)) => Ok(cn),
            Ok(None) => Err(DomainError::ConnectionNotFound(block_id.clone(), channel_id.clone())),
            Err(e) => Err(DomainError::Repository(e)),
        }
    }
}

} // verus!
