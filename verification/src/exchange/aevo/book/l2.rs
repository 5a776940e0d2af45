//! Full order book of one Aevo instrument, rebuilt from messages whose
//! snapshots carry a checksum of the top of the book.

use vstd::prelude::*;
use crate::book::{Level, OrderBook, apply_levels};
use crate::decimal::{
    decimal_text, lemma_decimal_text_injective, lemma_decimal_text_shape, push_decimal,
};
use crate::error::DataError;
use crate::exchange::aevo::book::AevoLevel;
use crate::exchange::aevo::channel::AevoChannel;
use crate::exchange::aevo::message::AevoMessage;
use crate::exchange::subscription::{subscription_id, subscription_key};
use crate::Identifier;
use crate::model::{Instrument, SubscriptionId};
use crate::transformer::{InstrumentOrderBook, OrderBookUpdater};

verus! {

/// A book message in its envelope.
pub type AevoOrderBookL2 = AevoMessage<AevoOrderBookL2Delta>;

/// A book message: a snapshot of the whole book, or the prices that
/// changed. A snapshot's `checksum` is that of the book it describes.
#[derive(Clone, Debug, PartialEq, Eq)]
pub struct AevoOrderBookL2Delta {
    pub message_type: String,
    pub instrument_id: String,
    pub instrument_name: String,
    pub instrument_type: String,
    pub bids: Vec<AevoLevel>,
    pub asks: Vec<AevoLevel>,
    pub checksum: u32,
}

impl AevoOrderBookL2Delta {
    /// Whether the message is a snapshot.
    pub open spec fn is_snapshot(&self) -> bool {
        self.message_type@ == "snapshot"@
    }

    /// Whether the message is a snapshot.
    pub fn snapshot(&self) -> (r: bool)
        ensures
            r == self.is_snapshot(),
    {
        let word = String::from_str("snapshot");
        self.message_type == word
    }
}

impl Identifier<Option<SubscriptionId>> for AevoOrderBookL2 {
    /// The subscription that the message belongs to: that of the order
    /// book channel for the instrument it names.
    fn id(&self) -> (id: Option<SubscriptionId>)
        ensures
            id matches Some(key) && SubscriptionId::view(&key) == subscription_key(
                "orderbook"@,
                self.data.instrument_name@,
            ),
    {
        Some(
            subscription_id(
                AevoChannel::order_book_l2().as_ref(),
                self.data.instrument_name.as_str(),
            ),
        )
    }
}

/// How many levels of each side a checksum covers at most.
pub const CHECKSUM_DEPTH: usize = 100;

/// The CRC-32 (IEEE) checksum of `bytes`.
pub uninterp spec fn crc32(bytes: Seq<u8>) -> u32;

/// The text of one level in a checksum: price and amount, a colon after
/// each.
pub open spec fn level_text(level: Level) -> Seq<u8> {
    (decimal_text(level.price).push(58u8) + decimal_text(level.amount)).push(58u8)
}

/// The texts of the first `n` ranks of the book: at each rank the bid, then
/// the ask, as far as the side reaches.
pub open spec fn interleaved(bids: Seq<Level>, asks: Seq<Level>, n: nat) -> Seq<u8>
    decreases n,
{
    if n == 0 {
        Seq::empty()
    } else {
        let rank = n - 1;
        interleaved(bids, asks, rank as nat) + (if rank < bids.len() {
            level_text(bids[rank])
        } else {
            Seq::empty()
        }) + (if rank < asks.len() {
            level_text(asks[rank])
        } else {
            Seq::empty()
        })
    }
}

/// How many ranks a checksum covers: those of the longer side, a hundred at
/// most.
pub open spec fn checksum_depth(bids: Seq<Level>, asks: Seq<Level>) -> nat {
    let longer = if bids.len() >= asks.len() {
        bids.len()
    } else {
        asks.len()
    };
    if longer <= CHECKSUM_DEPTH {
        longer
    } else {
        CHECKSUM_DEPTH as nat
    }
}

/// The bytes that a checksum is taken of: the interleaved texts without
/// the last colon.
pub open spec fn preimage(bids: Seq<Level>, asks: Seq<Level>) -> Seq<u8> {
    let text = interleaved(bids, asks, checksum_depth(bids, asks));
    if text.len() == 0 {
        text
    } else {
        text.drop_last()
    }
}

/// The checksum of a book with these sides.
pub open spec fn checksum_of(bids: Seq<Level>, asks: Seq<Level>) -> u32 {
    crc32(preimage(bids, asks))
}

/// Computes a CRC-32 with `crc32fast::hash`, which feeds the whole slice to
/// a fresh hasher and returns its state. The result is named, not defined:
/// the contract only says that it depends on the bytes alone.
#[verifier::external_body]
fn crc32_hash(bytes: &Vec<u8>) -> (sum: u32)
    ensures
        sum == crc32(bytes@),
{
    crc32fast::hash(bytes.as_slice())
}

/// Appends the text of one level.
fn push_level(out: &mut Vec<u8>, level: Level)
    ensures
        final(out)@ == old(out)@ + level_text(level),
{
    push_decimal(out, level.price);
    out.push(58u8);
    push_decimal(out, level.amount);
    out.push(58u8);
    proof {
        assert(final(out)@ =~= old(out)@ + level_text(level));
    }
}

/// The bytes that a checksum of these sides is taken of.
pub fn checksum_preimage(bids: &Vec<Level>, asks: &Vec<Level>) -> (bytes: Vec<u8>)
    ensures
        bytes@ == preimage(bids@, asks@),
{
    let longer: usize = if bids.len() >= asks.len() {
        bids.len()
    } else {
        asks.len()
    };
    let depth: usize = if longer <= CHECKSUM_DEPTH {
        longer
    } else {
        CHECKSUM_DEPTH
    };
    let mut bytes: Vec<u8> = Vec::new();
    let mut rank: usize = 0;
    while rank < depth
        invariant
            rank <= depth,
            depth == checksum_depth(bids@, asks@),
            bytes@ == interleaved(bids@, asks@, rank as nat),
        decreases depth - rank,
    {
        if rank < bids.len() {
            push_level(&mut bytes, bids[rank]);
        }
        if rank < asks.len() {
            push_level(&mut bytes, asks[rank]);
        }
        proof {
            assert(bytes@ =~= interleaved(bids@, asks@, (rank + 1) as nat));
        }
        rank += 1;
    }
    bytes.pop();
    bytes
}

/// What is known of the snapshots applied so far.
#[derive(Clone, Copy, Debug, PartialEq, Eq, Hash, Structural)]
pub struct AevoBookUpdater {
    pub updates_processed: u64,
    pub last_checksum: u32,
}

impl AevoBookUpdater {
    /// An updater that has applied nothing, holding `checksum` as that of
    /// the last snapshot.
    pub fn new(checksum: u32) -> (updater: Self)
        ensures
            updater.updates_processed == 0,
            updater.last_checksum == checksum,
    {
        Self { updates_processed: 0, last_checksum: checksum }
    }

    /// The checksum of a book with these sides.
    pub fn checksum(&self, bids: &Vec<Level>, asks: &Vec<Level>) -> (sum: u32)
        ensures
            sum == checksum_of(bids@, asks@),
    {
        let bytes = checksum_preimage(bids, asks);
        crc32_hash(&bytes)
    }

    /// The checksum of a book with the sides that a message lists.
    pub fn checksum2(&self, bids: &Vec<AevoLevel>, asks: &Vec<AevoLevel>) -> (sum: u32)
        ensures
            sum == checksum_of(AevoLevel::levels(bids@), AevoLevel::levels(asks@)),
    {
        let bids = AevoLevel::to_levels(bids);
        let asks = AevoLevel::to_levels(asks);
        self.checksum(&bids, &asks)
    }

    /// Whether a message repeats the snapshot applied last.
    pub open spec fn repeats(self, delta: &AevoOrderBookL2Delta) -> bool {
        delta.is_snapshot() && delta.checksum == self.last_checksum
    }

    /// Settles an update whose levels were applied to `book`. `computed` is
    /// the checksum of the book as it now stands where the message was a
    /// snapshot, and nothing where it was not; `declared` is the checksum
    /// that the message carried. A snapshot whose two checksums differ
    /// fails and leaves the updater as it was; anything else counts as
    /// processed and hands out a copy of the book.
    pub fn confirm(&mut self, book: &OrderBook, declared: u32, computed: Option<u32>) -> (result:
        Result<Option<OrderBook>, DataError>)
        requires
            old(self).updates_processed < u64::MAX,
        ensures
            computed.is_some() && computed != Some(declared) ==> {
                &&& result == Err::<Option<OrderBook>, DataError>(
                    DataError::InvalidSequence {
                        expected: old(self).last_checksum as u64,
                        received: declared as u64,
                    },
                )
                &&& *final(self) == *old(self)
            },
            !(computed.is_some() && computed != Some(declared)) ==> {
                &&& result matches Ok(Some(snapshot)) && snapshot.same_as(book)
                &&& final(self).updates_processed == old(self).updates_processed + 1
                &&& final(self).last_checksum == (if computed.is_some() {
                    declared
                } else {
                    old(self).last_checksum
                })
            },
    {
        match computed {
            Some(checksum) => {
                if checksum != declared {
                    return Err(
                        DataError::InvalidSequence {
                            expected: self.last_checksum as u64,
                            received: declared as u64,
                        },
                    );
                }
                self.last_checksum = checksum;
            },
            None => {},
        }
        self.updates_processed += 1;
        Ok(Some(book.snapshot()))
    }
}

impl OrderBookUpdater for AevoBookUpdater {
    type Update = AevoOrderBookL2;

    /// Nothing was applied yet, and the checksum held is zero.
    open spec fn started(&self) -> bool {
        *self == (AevoBookUpdater { updates_processed: 0, last_checksum: 0 })
    }

    /// The count of updates has not reached its end.
    open spec fn ready(&self) -> bool {
        self.updates_processed < u64::MAX
    }

    /// An updater can always be set up: the venue's first message holds
    /// the whole book, so nothing has to be fetched.
    open spec fn can_start(instrument: &Instrument, now: i64) -> bool {
        true
    }

    /// Setting up an updater never fails.
    open spec fn start_failure(instrument: &Instrument, now: i64, error: &DataError) -> bool {
        false
    }

    /// Every message belongs to the order book channel of the instrument
    /// it names.
    open spec fn subscription(update: &AevoOrderBookL2) -> Option<Seq<char>> {
        Some(subscription_key("orderbook"@, update.data.instrument_name@))
    }

    /// A snapshot with the checksum of the last one is a repeat: nothing
    /// changes and nothing is handed out. Any other message has its levels
    /// applied to both sides and stamps the book with `now`. A snapshot is
    /// then held against the checksum of the book it led to: where the two
    /// differ the update fails with the checksum held here and the one
    /// received, the updater stays as it was, and the book, which holds the
    /// applied levels, is not to be trusted any more. Otherwise the update
    /// is counted, a snapshot's checksum is kept, and a copy of the book is
    /// handed out.
    open spec fn updated(
        pre: &Self,
        pre_book: &OrderBook,
        update: &AevoOrderBookL2,
        now: i64,
        post: &Self,
        post_book: &OrderBook,
        result: &Result<Option<OrderBook>, DataError>,
    ) -> bool {
        if pre.repeats(&update.data) {
            &&& *result == Ok::<Option<OrderBook>, DataError>(None)
            &&& *post == *pre
            &&& *post_book == *pre_book
        } else {
            &&& post_book.last_update_time == now
            &&& post_book.bids@ == apply_levels(pre_book.bids@, AevoLevel::levels(update.data.bids@))
            &&& post_book.asks@ == apply_levels(pre_book.asks@, AevoLevel::levels(update.data.asks@))
            &&& if update.data.is_snapshot() && checksum_of(
                post_book.bids.levels@,
                post_book.asks.levels@,
            ) != update.data.checksum {
                &&& *result == Err::<Option<OrderBook>, DataError>(
                    DataError::InvalidSequence {
                        expected: pre.last_checksum as u64,
                        received: update.data.checksum as u64,
                    },
                )
                &&& *post == *pre
            } else {
                &&& *result matches Ok(Some(snapshot)) && snapshot.same_as(post_book)
                &&& post.updates_processed == pre.updates_processed + 1
                &&& post.last_checksum == (if update.data.is_snapshot() {
                    update.data.checksum
                } else {
                    pre.last_checksum
                })
            }
        }
    }

    fn is_ready(&self) -> (ready: bool) {
        self.updates_processed < u64::MAX
    }

    fn subscription_id(update: &AevoOrderBookL2) -> (id: Option<SubscriptionId>) {
        update.id()
    }

    /// No snapshot has to be fetched, since the venue's first message holds
    /// the whole book: the updater starts at checksum zero.
    fn init(instrument: Instrument, now: i64) -> (result: Result<InstrumentOrderBook<Self>, DataError>) {
        Ok(InstrumentOrderBook { instrument, updater: Self::new(0), book: OrderBook::empty(now) })
    }

    fn update(&mut self, book: &mut OrderBook, update: AevoOrderBookL2, now: i64) -> (result:
        Result<Option<OrderBook>, DataError>) {
        let snapshot = update.data.snapshot();
        if snapshot && self.last_checksum == update.data.checksum {
            return Ok(None);
        }
        book.last_update_time = now;
        book.bids.upsert(AevoLevel::to_levels(&update.data.bids));
        book.asks.upsert(AevoLevel::to_levels(&update.data.asks));

        let computed = if snapshot {
            Some(self.checksum(&book.bids.levels, &book.asks.levels))
        } else {
            None
        };
        self.confirm(book, update.data.checksum, computed)
    }
}

/// The part of a side that a checksum reads: its first hundred levels.
pub open spec fn top_levels(levels: Seq<Level>) -> Seq<Level> {
    if levels.len() <= CHECKSUM_DEPTH {
        levels
    } else {
        levels.take(CHECKSUM_DEPTH as int)
    }
}

proof fn lemma_interleaved_reads_top(
    bids: Seq<Level>,
    asks: Seq<Level>,
    other_bids: Seq<Level>,
    other_asks: Seq<Level>,
    n: nat,
)
    requires
        top_levels(bids) == top_levels(other_bids),
        top_levels(asks) == top_levels(other_asks),
        n <= CHECKSUM_DEPTH,
    ensures
        interleaved(bids, asks, n) == interleaved(other_bids, other_asks, n),
    decreases n,
{
    if n > 0 {
        let rank = (n - 1) as int;
        lemma_interleaved_reads_top(bids, asks, other_bids, other_asks, (n - 1) as nat);
        assert(top_levels(bids).len() == top_levels(other_bids).len());
        assert(top_levels(asks).len() == top_levels(other_asks).len());
        if rank < bids.len() {
            assert(bids[rank] == top_levels(bids)[rank]);
            assert(other_bids[rank] == top_levels(other_bids)[rank]);
        }
        if rank < asks.len() {
            assert(asks[rank] == top_levels(asks)[rank]);
            assert(other_asks[rank] == top_levels(other_asks)[rank]);
        }
    }
}

/// Two books whose sides agree on their first hundred levels have the same
/// checksum.
pub proof fn lemma_checksum_reads_top(
    bids: Seq<Level>,
    asks: Seq<Level>,
    other_bids: Seq<Level>,
    other_asks: Seq<Level>,
)
    requires
        top_levels(bids) == top_levels(other_bids),
        top_levels(asks) == top_levels(other_asks),
    ensures
        preimage(bids, asks) == preimage(other_bids, other_asks),
        checksum_of(bids, asks) == checksum_of(other_bids, other_asks),
{
    assert(top_levels(bids).len() == top_levels(other_bids).len());
    assert(top_levels(asks).len() == top_levels(other_asks).len());
    assert(checksum_depth(bids, asks) == checksum_depth(other_bids, other_asks));
    lemma_interleaved_reads_top(bids, asks, other_bids, other_asks, checksum_depth(bids, asks));
}

/// Whether `text` holds no colon.
pub open spec fn colon_free(text: Seq<u8>) -> bool {
    forall|i: int| 0 <= i < text.len() ==> text[i] != 58u8
}

/// Whether `text` is empty or ends in a colon.
pub open spec fn closed(text: Seq<u8>) -> bool {
    text.len() == 0 || text.last() == 58u8
}

proof fn lemma_last_field(x: Seq<u8>, t: Seq<u8>, y: Seq<u8>, u: Seq<u8>)
    requires
        closed(x),
        closed(y),
        colon_free(t),
        colon_free(u),
        x + t.push(58u8) == y + u.push(58u8),
    ensures
        x == y,
        t == u,
{
    let a = x + t.push(58u8);
    let b = y + u.push(58u8);
    assert(a.len() == x.len() + t.len() + 1);
    assert(b.len() == y.len() + u.len() + 1);
    if t.len() < u.len() {
        let at = x.len() - 1;
        assert(a[at] == x[at]);
        assert(b[at] == u.push(58u8)[at - y.len()]);
        assert(u.push(58u8)[at - y.len()] == u[at - y.len()]);
    } else if u.len() < t.len() {
        let at = y.len() - 1;
        assert(b[at] == y[at]);
        assert(a[at] == t.push(58u8)[at - x.len()]);
        assert(t.push(58u8)[at - x.len()] == t[at - x.len()]);
    }
    assert(x =~= y) by {
        assert forall|i: int| 0 <= i < x.len() implies x[i] == y[i] by {
            assert(a[i] == x[i]);
            assert(b[i] == y[i]);
        }
    }
    assert(t =~= u) by {
        assert forall|i: int| 0 <= i < t.len() implies t[i] == u[i] by {
            assert(a[x.len() + i] == t.push(58u8)[i]);
            assert(b[y.len() + i] == u.push(58u8)[i]);
        }
    }
}

proof fn lemma_decimal_text_colon_free(value: u64)
    ensures
        colon_free(decimal_text(value)),
{
    lemma_decimal_text_shape(value);
}

proof fn lemma_last_level(x: Seq<u8>, level: Level, y: Seq<u8>, other: Level)
    requires
        closed(x),
        closed(y),
        x + level_text(level) == y + level_text(other),
    ensures
        x == y,
        level == other,
{
    let price = decimal_text(level.price);
    let amount = decimal_text(level.amount);
    let other_price = decimal_text(other.price);
    let other_amount = decimal_text(other.amount);
    lemma_decimal_text_colon_free(level.price);
    lemma_decimal_text_colon_free(level.amount);
    lemma_decimal_text_colon_free(other.price);
    lemma_decimal_text_colon_free(other.amount);
    let head = x + price.push(58u8);
    let other_head = y + other_price.push(58u8);
    assert(x + level_text(level) =~= head + amount.push(58u8));
    assert(y + level_text(other) =~= other_head + other_amount.push(58u8));
    assert(head.last() == 58u8);
    assert(other_head.last() == 58u8);
    lemma_last_field(head, amount, other_head, other_amount);
    lemma_last_field(x, price, y, other_price);
    lemma_decimal_text_injective(level.price, other.price);
    lemma_decimal_text_injective(level.amount, other.amount);
}

proof fn lemma_interleaved_closed(bids: Seq<Level>, asks: Seq<Level>, n: nat)
    ensures
        closed(interleaved(bids, asks, n)),
    decreases n,
{
    if n > 0 {
        lemma_interleaved_closed(bids, asks, (n - 1) as nat);
        let rank = (n - 1) as int;
        if rank < asks.len() {
            assert(level_text(asks[rank]).last() == 58u8);
        } else if rank < bids.len() {
            assert(level_text(bids[rank]).last() == 58u8);
            assert(interleaved(bids, asks, n) =~= interleaved(bids, asks, (n - 1) as nat)
                + level_text(bids[rank]));
        } else {
            assert(interleaved(bids, asks, n) =~= interleaved(bids, asks, (n - 1) as nat));
        }
    }
}

proof fn lemma_interleaved_injective(
    bids: Seq<Level>,
    asks: Seq<Level>,
    other_bids: Seq<Level>,
    other_asks: Seq<Level>,
    n: nat,
)
    requires
        bids.len() == other_bids.len(),
        asks.len() == other_asks.len(),
        interleaved(bids, asks, n) == interleaved(other_bids, other_asks, n),
    ensures
        forall|rank: int| 0 <= rank < n && rank < bids.len() ==> bids[rank] == other_bids[rank],
        forall|rank: int| 0 <= rank < n && rank < asks.len() ==> asks[rank] == other_asks[rank],
    decreases n,
{
    if n > 0 {
        let last = (n - 1) as int;
        let before = interleaved(bids, asks, (n - 1) as nat);
        let other_before = interleaved(other_bids, other_asks, (n - 1) as nat);
        lemma_interleaved_closed(bids, asks, (n - 1) as nat);
        lemma_interleaved_closed(other_bids, other_asks, (n - 1) as nat);
        let empty = Seq::<u8>::empty();
        let with_bid = before + (if last < bids.len() {
            level_text(bids[last])
        } else {
            empty
        });
        let other_with_bid = other_before + (if last < bids.len() {
            level_text(other_bids[last])
        } else {
            empty
        });
        assert(closed(with_bid)) by {
            if last < bids.len() {
                assert(level_text(bids[last]).last() == 58u8);
            } else {
                assert(with_bid =~= before);
            }
        }
        assert(closed(other_with_bid)) by {
            if last < bids.len() {
                assert(level_text(other_bids[last]).last() == 58u8);
            } else {
                assert(other_with_bid =~= other_before);
            }
        }
        if last < asks.len() {
            lemma_last_level(with_bid, asks[last], other_with_bid, other_asks[last]);
        } else {
            assert(interleaved(bids, asks, n) =~= with_bid);
            assert(interleaved(other_bids, other_asks, n) =~= other_with_bid);
        }
        assert(with_bid == other_with_bid);
        if last < bids.len() {
            lemma_last_level(before, bids[last], other_before, other_bids[last]);
        } else {
            assert(with_bid =~= before);
            assert(other_with_bid =~= other_before);
        }
        assert(before == other_before);
        lemma_interleaved_injective(bids, asks, other_bids, other_asks, (n - 1) as nat);
    }
}

/// Between two books of the same shape, a price or an amount that differs
/// within the levels that a checksum reads makes the bytes differ that the
/// checksum is taken of.
pub proof fn lemma_changed_level_changes_preimage(
    bids: Seq<Level>,
    asks: Seq<Level>,
    other_bids: Seq<Level>,
    other_asks: Seq<Level>,
)
    requires
        bids.len() == other_bids.len(),
        asks.len() == other_asks.len(),
        top_levels(bids) != top_levels(other_bids) || top_levels(asks) != top_levels(other_asks),
    ensures
        preimage(bids, asks) != preimage(other_bids, other_asks),
{
    let depth = checksum_depth(bids, asks);
    assert(depth == checksum_depth(other_bids, other_asks));
    let text = interleaved(bids, asks, depth);
    let other_text = interleaved(other_bids, other_asks, depth);
    if preimage(bids, asks) == preimage(other_bids, other_asks) {
        lemma_interleaved_closed(bids, asks, depth);
        lemma_interleaved_closed(other_bids, other_asks, depth);
        lemma_interleaved_grows(bids, asks, depth);
        lemma_interleaved_grows(other_bids, other_asks, depth);
        if depth > 0 {
            assert(text =~= text.drop_last().push(58u8));
            assert(other_text =~= other_text.drop_last().push(58u8));
        } else {
            assert(text =~= other_text);
        }
        lemma_interleaved_injective(bids, asks, other_bids, other_asks, depth);
        assert(top_levels(bids) =~= top_levels(other_bids));
        assert(top_levels(asks) =~= top_levels(other_asks));
    }
}

proof fn lemma_interleaved_grows(bids: Seq<Level>, asks: Seq<Level>, n: nat)
    ensures
        n > 0 && (bids.len() > 0 || asks.len() > 0) ==> interleaved(bids, asks, n).len() > 0,
    decreases n,
{
    if n > 1 {
        lemma_interleaved_grows(bids, asks, (n - 1) as nat);
    } else if n == 1 {
        if bids.len() > 0 {
            assert(level_text(bids[0]).len() > 0);
        }
        if asks.len() > 0 {
            assert(level_text(asks[0]).len() > 0);
        }
    }
}

} // verus!
