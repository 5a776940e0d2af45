//! Venue-agnostic order book: price levels, one ordered side, and the book
//! made of a bid side and an ask side.
//!
//! Prices and amounts are fixed-point numbers, held as integer counts of
//! `10^-8` units.

use vstd::prelude::*;

verus! {

/// Side of a book or of a trade.
#[derive(Clone, Copy, Debug, PartialEq, Eq, Structural)]
pub enum Side {
    Buy,
    Sell,
}

/// One price and the amount resting at it.
#[derive(Clone, Copy, Debug, PartialEq, Eq, Structural)]
pub struct Level {
    pub price: u64,
    pub amount: u64,
}

impl Level {
    /// The level of `amount` at `price`.
    pub fn new(price: u64, amount: u64) -> (level: Self)
        ensures
            level.price == price,
            level.amount == amount,
    {
        Level { price, amount }
    }

    /// Whether this level sits at `price`.
    pub fn eq_price(&self, price: u64) -> (same: bool)
        ensures
            same == (self.price == price),
    {
        self.price == price
    }
}

/// Whether price `a` comes before price `b` on a side: higher first for
/// bids, lower first for asks.
pub open spec fn better(side: Side, a: u64, b: u64) -> bool {
    match side {
        Side::Buy => a > b,
        Side::Sell => a < b,
    }
}

/// Whether some level of `levels` sits at `price`.
pub open spec fn has_price(levels: Seq<Level>, price: u64) -> bool {
    exists|i: int| 0 <= i < levels.len() && (#[trigger] levels[i]).price == price
}

/// An index of `levels` that holds `price`, where there is one.
pub open spec fn index_of(levels: Seq<Level>, price: u64) -> int {
    choose|i: int| 0 <= i < levels.len() && (#[trigger] levels[i]).price == price
}

/// The levels as a map from price to amount.
pub open spec fn levels_map(levels: Seq<Level>) -> Map<u64, u64> {
    Map::new(
        |price: u64| has_price(levels, price),
        |price: u64| levels[index_of(levels, price)].amount,
    )
}

/// Strictly ordered best-first for `side`, with no empty level.
pub open spec fn ordered(side: Side, levels: Seq<Level>) -> bool {
    &&& forall|i: int, j: int|
        0 <= i < j < levels.len() ==> better(side, (#[trigger] levels[i]).price, (#[trigger] levels[j]).price)
    &&& forall|i: int| 0 <= i < levels.len() ==> (#[trigger] levels[i]).amount > 0
}

/// The effect of one change on a side: an amount of zero removes the price,
/// any other amount sets it.
pub open spec fn apply_level(book: Map<u64, u64>, level: Level) -> Map<u64, u64> {
    if level.amount == 0 {
        book.remove(level.price)
    } else {
        book.insert(level.price, level.amount)
    }
}

/// The effect of a batch of changes, applied first to last.
pub open spec fn apply_levels(book: Map<u64, u64>, levels: Seq<Level>) -> Map<u64, u64>
    decreases levels.len(),
{
    if levels.len() == 0 {
        book
    } else {
        apply_level(apply_levels(book, levels.drop_last()), levels.last())
    }
}

/// Levels of which each comes before the next come before all that
/// follow.
pub proof fn lemma_neighbours_ordered(side: Side, levels: Seq<Level>)
    requires
        forall|k: int|
            0 < k < levels.len() ==> better(side, levels[k - 1].price, (#[trigger] levels[k]).price),
    ensures
        forall|i: int, j: int|
            0 <= i < j < levels.len() ==> better(
                side,
                (#[trigger] levels[i]).price,
                (#[trigger] levels[j]).price,
            ),
    decreases levels.len(),
{
    if levels.len() > 1 {
        let shorter = levels.drop_last();
        assert forall|k: int| 0 < k < shorter.len() implies better(
            side,
            shorter[k - 1].price,
            (#[trigger] shorter[k]).price,
        ) by {
            assert(shorter[k] == levels[k]);
            assert(shorter[k - 1] == levels[k - 1]);
        }
        lemma_neighbours_ordered(side, shorter);
        let last = levels.len() - 1;
        assert forall|i: int, j: int| 0 <= i < j < levels.len() implies better(
            side,
            (#[trigger] levels[i]).price,
            (#[trigger] levels[j]).price,
        ) by {
            if j < last {
                assert(shorter[i] == levels[i] && shorter[j] == levels[j]);
            } else {
                assert(better(side, levels[last - 1].price, levels[last].price));
                if i < last - 1 {
                    assert(shorter[i] == levels[i] && shorter[last - 1] == levels[last - 1]);
                    assert(better(side, shorter[i].price, shorter[last - 1].price));
                }
            }
        }
    }
}

/// In an ordered side every price occurs once, so the map holds exactly the
/// levels of the sequence.
pub proof fn lemma_levels_map(side: Side, levels: Seq<Level>)
    requires
        ordered(side, levels),
    ensures
        forall|i: int|
            0 <= i < levels.len() ==> levels_map(levels).dom().contains((#[trigger] levels[i]).price)
                && levels_map(levels)[levels[i].price] == levels[i].amount,
        forall|price: u64| #[trigger]
            levels_map(levels).dom().contains(price) ==> 0 <= index_of(levels, price) < levels.len()
                && levels[index_of(levels, price)].price == price,
{
    assert forall|i: int| 0 <= i < levels.len() implies levels_map(levels).dom().contains(
        (#[trigger] levels[i]).price,
    ) && levels_map(levels)[levels[i].price] == levels[i].amount by {
        let p = levels[i].price;
        assert(has_price(levels, p));
        let j = index_of(levels, p);
        assert(0 <= j < levels.len() && levels[j].price == p);
        if j < i {
            assert(better(side, levels[j].price, levels[i].price));
        }
        if i < j {
            assert(better(side, levels[i].price, levels[j].price));
        }
        assert(i == j);
    }
}

/// One side of an order book, held best-first.
#[derive(Debug)]
pub struct OrderBookSide {
    pub side: Side,
    pub levels: Vec<Level>,
}

impl View for OrderBookSide {
    type V = Map<u64, u64>;

    /// The side as a map from price to amount.
    open spec fn view(&self) -> Map<u64, u64> {
        levels_map(self.levels@)
    }
}

/// Whether `a` comes before `b` on `side`.
fn is_better(side: Side, a: u64, b: u64) -> (r: bool)
    ensures
        r == better(side, a, b),
{
    match side {
        Side::Buy => a > b,
        Side::Sell => a < b,
    }
}

impl OrderBookSide {
    /// At most one level per price, none of them empty, best price first.
    pub open spec fn wf(&self) -> bool {
        ordered(self.side, self.levels@)
    }

    /// Whether the side is well formed.
    pub fn is_wf(&self) -> (wf: bool)
        ensures
            wf == self.wf(),
    {
        let mut i: usize = 0;
        while i < self.levels.len()
            invariant
                i <= self.levels.len(),
                forall|k: int| 0 <= k < i ==> (#[trigger] self.levels@[k]).amount > 0,
                forall|k: int|
                    0 < k < i ==> better(self.side, self.levels@[k - 1].price, (#[trigger] self.levels@[k]).price),
            decreases self.levels.len() - i,
        {
            if self.levels[i].amount == 0 {
                return false;
            }
            if i > 0 && !is_better(self.side, self.levels[i - 1].price, self.levels[i].price) {
                proof {
                    assert(!better(
                        self.side,
                        self.levels@[i - 1].price,
                        self.levels@[i as int].price,
                    ));
                }
                return false;
            }
            i += 1;
        }
        proof {
            lemma_neighbours_ordered(self.side, self.levels@);
        }
        true
    }

    /// An empty side.
    pub fn empty(side: Side) -> (book_side: Self)
        ensures
            book_side.wf(),
            book_side.side == side,
            book_side.levels@ == Seq::<Level>::empty(),
            book_side@ == Map::<u64, u64>::empty(),
    {
        let book_side = OrderBookSide { side, levels: Vec::new() };
        assert(book_side@ =~= Map::<u64, u64>::empty());
        book_side
    }

    /// The side that results from applying `levels`, first to last, to an
    /// empty side.
    pub fn new(side: Side, levels: Vec<Level>) -> (book_side: Self)
        ensures
            book_side.wf(),
            book_side.side == side,
            book_side@ == apply_levels(Map::<u64, u64>::empty(), levels@),
    {
        let mut book_side = OrderBookSide::empty(side);
        book_side.upsert(levels);
        book_side
    }

    /// Applies a batch of changes, first to last.
    pub fn upsert(&mut self, levels: Vec<Level>)
        requires
            old(self).wf(),
        ensures
            final(self).wf(),
            final(self).side == old(self).side,
            final(self)@ == apply_levels(old(self)@, levels@),
    {
        let mut n: usize = 0;
        while n < levels.len()
            invariant
                n <= levels.len(),
                self.wf(),
                self.side == old(self).side,
                self@ == apply_levels(old(self)@, levels@.take(n as int)),
            decreases levels.len() - n,
        {
            self.upsert_single(levels[n]);
            proof {
                assert(levels@.take(n + 1).drop_last() =~= levels@.take(n as int));
            }
            n += 1;
        }
        proof {
            assert(levels@.take(n as int) =~= levels@);
        }
    }

    /// Applies one change: an amount of zero removes the level at that
    /// price, if there is one; any other amount replaces the level at that
    /// price, or puts a new level in its place in the order.
    pub fn upsert_single(&mut self, level: Level)
        requires
            old(self).wf(),
        ensures
            final(self).wf(),
            final(self).side == old(self).side,
            final(self)@ == apply_level(old(self)@, level),
            level.amount == 0 && !old(self)@.dom().contains(level.price) ==> final(self).levels@ == old(
                self,
            ).levels@,
    {
        let side = self.side;
        let mut i: usize = 0;
        while i < self.levels.len() && is_better(side, self.levels[i].price, level.price)
            invariant
                i <= self.levels.len(),
                side == self.side,
                *self == *old(self),
                forall|k: int| 0 <= k < i ==> better(side, (#[trigger] self.levels@[k]).price, level.price),
            decreases self.levels.len() - i,
        {
            i += 1;
        }
        let ghost before = self.levels@;
        proof {
            lemma_levels_map(side, before);
        }
        if i < self.levels.len() && self.levels[i].price == level.price {
            if level.amount == 0 {
                self.levels.remove(i);
                proof {
                    let after = self.levels@;
                    assert(ordered(side, after)) by {
                        assert forall|a: int, b: int| 0 <= a < b < after.len() implies better(
                            side,
                            (#[trigger] after[a]).price,
                            (#[trigger] after[b]).price,
                        ) by {
                            let a0 = if a < i { a } else { a + 1 };
                            let b0 = if b < i { b } else { b + 1 };
                            assert(after[a] == before[a0] && after[b] == before[b0]);
                        }
                        assert forall|a: int| 0 <= a < after.len() implies (#[trigger] after[a]).amount
                            > 0 by {
                            let a0 = if a < i { a } else { a + 1 };
                            assert(after[a] == before[a0]);
                        }
                    }
                    lemma_levels_map(side, after);
                    assert(levels_map(after) =~= levels_map(before).remove(level.price)) by {
                        assert forall|p: u64| levels_map(after).dom().contains(p) implies p
                            != level.price && levels_map(before).dom().contains(p) && levels_map(
                            before,
                        )[p] == levels_map(after)[p] by {
                            let a = index_of(after, p);
                            let a0 = if a < i { a } else { a + 1 };
                            assert(after[a] == before[a0]);
                            if a0 < i {
                                assert(better(side, before[a0].price, before[i as int].price));
                            } else {
                                assert(better(side, before[i as int].price, before[a0].price));
                            }
                        }
                        assert forall|p: u64|
                            p != level.price && levels_map(before).dom().contains(
                                p,
                            ) implies levels_map(after).dom().contains(p) by {
                            let b = index_of(before, p);
                            let a = if b < i { b } else { b - 1 };
                            assert(after[a] == before[b]);
                        }
                    }
                }
            } else {
                self.levels.set(i, level);
                proof {
                    let after = self.levels@;
                    assert(ordered(side, after)) by {
                        assert forall|a: int, b: int| 0 <= a < b < after.len() implies better(
                            side,
                            (#[trigger] after[a]).price,
                            (#[trigger] after[b]).price,
                        ) by {
                            assert(after[a].price == before[a].price);
                            assert(after[b].price == before[b].price);
                        }
                        assert forall|a: int| 0 <= a < after.len() implies (#[trigger] after[a]).amount
                            > 0 by {
                            if a != i {
                                assert(after[a] == before[a]);
                            }
                        }
                    }
                    lemma_levels_map(side, after);
                    assert(levels_map(after) =~= levels_map(before).insert(level.price, level.amount))
                        by {
                        assert forall|p: u64| levels_map(after).dom().contains(p) implies (p
                            == level.price || levels_map(before).dom().contains(p)) && levels_map(
                            after,
                        )[p] == levels_map(before).insert(level.price, level.amount)[p] by {
                            let a = index_of(after, p);
                            assert(after[a].price == before[a].price);
                            if a != i {
                                assert(after[a] == before[a]);
                            }
                        }
                        assert forall|p: u64|
                            p == level.price || levels_map(before).dom().contains(
                                p,
                            ) implies levels_map(after).dom().contains(p) by {
                            if p == level.price {
                                assert(after[i as int].price == p);
                            } else {
                                let b = index_of(before, p);
                                assert(after[b] == before[b]);
                            }
                        }
                    }
                }
            }
        } else {
            proof {
                assert(!has_price(before, level.price)) by {
                    if has_price(before, level.price) {
                        let b = index_of(before, level.price);
                        if b < i {
                            assert(better(side, before[b].price, level.price));
                        } else if b > i {
                            assert(better(side, before[i as int].price, before[b].price));
                        }
                    }
                }
            }
            if level.amount > 0 {
                self.levels.insert(i, level);
                proof {
                    let after = self.levels@;
                    assert(forall|k: int| i <= k < before.len() ==> better(side, level.price, (#[trigger] before[k]).price)) by {
                        assert forall|k: int| i <= k < before.len() implies better(side, level.price, (#[trigger] before[k]).price) by {
                            if k > i {
                                assert(better(side, before[i as int].price, before[k].price));
                            }
                        }
                    }
                    assert(ordered(side, after)) by {
                        assert forall|a: int, b: int| 0 <= a < b < after.len() implies better(
                            side,
                            (#[trigger] after[a]).price,
                            (#[trigger] after[b]).price,
                        ) by {
                            if a < i && b > i {
                                assert(after[a] == before[a] && after[b] == before[b - 1]);
                            } else if a < i && b < i {
                                assert(after[a] == before[a] && after[b] == before[b]);
                            } else if a > i {
                                assert(after[a] == before[a - 1] && after[b] == before[b - 1]);
                            } else if a == i {
                                assert(after[b] == before[b - 1]);
                            } else {
                                assert(after[a] == before[a]);
                            }
                        }
                        assert forall|a: int| 0 <= a < after.len() implies (#[trigger] after[a]).amount
                            > 0 by {
                            if a < i {
                                assert(after[a] == before[a]);
                            } else if a > i {
                                assert(after[a] == before[a - 1]);
                            }
                        }
                    }
                    lemma_levels_map(side, after);
                    assert(levels_map(after) =~= levels_map(before).insert(level.price, level.amount))
                        by {
                        assert forall|p: u64| levels_map(after).dom().contains(p) implies (p
                            == level.price || levels_map(before).dom().contains(p)) && levels_map(
                            after,
                        )[p] == levels_map(before).insert(level.price, level.amount)[p] by {
                            let a = index_of(after, p);
                            if a < i {
                                assert(after[a] == before[a]);
                            } else if a > i {
                                assert(after[a] == before[a - 1]);
                            }
                        }
                        assert forall|p: u64|
                            p == level.price || levels_map(before).dom().contains(
                                p,
                            ) implies levels_map(after).dom().contains(p) by {
                            if p == level.price {
                                assert(after[i as int].price == p);
                            } else {
                                let b = index_of(before, p);
                                let a = if b < i { b } else { b + 1 };
                                assert(after[a] == before[b]);
                            }
                        }
                    }
                }
            } else {
                proof {
                    assert(levels_map(before).remove(level.price) =~= levels_map(before));
                }
            }
        }
    }
}

impl OrderBookSide {
    /// A copy of the side as it stands.
    pub fn snapshot(&self) -> (copy: Self)
        ensures
            copy.side == self.side,
            copy.levels@ == self.levels@,
    {
        let levels = self.levels.clone();
        assert(levels@ =~= self.levels@);
        OrderBookSide { side: self.side, levels }
    }

    /// The best level of the side, if it has any.
    pub fn best(&self) -> (level: Option<Level>)
        ensures
            level == (if self.levels@.len() == 0 {
                None
            } else {
                Some(self.levels@[0])
            }),
    {
        if self.levels.len() == 0 {
            None
        } else {
            Some(self.levels[0])
        }
    }
}

/// A full order book: the bids, the asks, and the time of the last change
/// in milliseconds since the Unix epoch.
#[derive(Debug)]
pub struct OrderBook {
    pub last_update_time: i64,
    pub bids: OrderBookSide,
    pub asks: OrderBookSide,
}

impl OrderBook {
    /// Both sides are well formed, the bids a buy side and the asks a sell
    /// side.
    pub open spec fn wf(&self) -> bool {
        &&& self.bids.wf()
        &&& self.asks.wf()
        &&& self.bids.side == Side::Buy
        &&& self.asks.side == Side::Sell
    }

    /// Whether the book is well formed.
    pub fn is_wf(&self) -> (wf: bool)
        ensures
            wf == self.wf(),
    {
        self.bids.is_wf() && self.asks.is_wf() && self.bids.side == Side::Buy && self.asks.side
            == Side::Sell
    }

    /// Whether two books hold the same time and the same levels.
    pub open spec fn same_as(&self, other: &OrderBook) -> bool {
        &&& self.last_update_time == other.last_update_time
        &&& self.bids.side == other.bids.side
        &&& self.asks.side == other.asks.side
        &&& self.bids.levels@ == other.bids.levels@
        &&& self.asks.levels@ == other.asks.levels@
    }

    /// A book without levels.
    pub fn empty(last_update_time: i64) -> (book: Self)
        ensures
            book.wf(),
            book.last_update_time == last_update_time,
            book.bids.levels@ == Seq::<Level>::empty(),
            book.asks.levels@ == Seq::<Level>::empty(),
    {
        OrderBook {
            last_update_time,
            bids: OrderBookSide::empty(Side::Buy),
            asks: OrderBookSide::empty(Side::Sell),
        }
    }

    /// The book that results from applying `bids` and `asks` to an empty
    /// book.
    pub fn new(last_update_time: i64, bids: Vec<Level>, asks: Vec<Level>) -> (book: Self)
        ensures
            book.wf(),
            book.last_update_time == last_update_time,
            book.bids@ == apply_levels(Map::<u64, u64>::empty(), bids@),
            book.asks@ == apply_levels(Map::<u64, u64>::empty(), asks@),
    {
        OrderBook {
            last_update_time,
            bids: OrderBookSide::new(Side::Buy, bids),
            asks: OrderBookSide::new(Side::Sell, asks),
        }
    }

    /// Whether the best bid is at or above the best ask. A side without
    /// levels crosses nothing.
    pub open spec fn crossed(&self) -> bool {
        self.bids.levels@.len() > 0 && self.asks.levels@.len() > 0 && self.bids.levels@[0].price
            >= self.asks.levels@[0].price
    }

    /// Whether the best bid is at or above the best ask: such a book is
    /// not fit to be published.
    pub fn is_crossed(&self) -> (crossed: bool)
        ensures
            crossed == self.crossed(),
    {
        match (self.bids.best(), self.asks.best()) {
            (Some(bid), Some(ask)) => bid.price >= ask.price,
            _ => false,
        }
    }

    /// A read-only copy of the book as it stands.
    pub fn snapshot(&self) -> (copy: Self)
        ensures
            copy.same_as(self),
    {
        OrderBook {
            last_update_time: self.last_update_time,
            bids: self.bids.snapshot(),
            asks: self.asks.snapshot(),
        }
    }
}

/// A change with amount zero removes exactly its price: the price is gone
/// afterwards, every other price keeps its amount, and where the price was
/// absent nothing changes at all.
pub proof fn lemma_zero_amount_removes(book: Map<u64, u64>, price: u64)
    ensures
        !apply_level(book, Level { price, amount: 0 }).dom().contains(price),
        forall|other: u64|
            other != price ==> (#[trigger] apply_level(book, Level { price, amount: 0 }).dom().contains(
                other,
            ) <==> book.dom().contains(other)),
        forall|other: u64|
            other != price && book.dom().contains(other) ==> #[trigger] apply_level(
                book,
                Level { price, amount: 0 },
            )[other] == book[other],
        !book.dom().contains(price) ==> apply_level(book, Level { price, amount: 0 }) == book,
{
    if !book.dom().contains(price) {
        assert(book.remove(price) =~= book);
    }
}

/// Applying one batch and then another gives what applying the two as one
/// batch gives.
pub proof fn lemma_apply_levels_concat(book: Map<u64, u64>, first: Seq<Level>, second: Seq<Level>)
    ensures
        apply_levels(apply_levels(book, first), second) == apply_levels(book, first + second),
    decreases second.len(),
{
    if second.len() == 0 {
        assert(first + second =~= first);
    } else {
        lemma_apply_levels_concat(book, first, second.drop_last());
        assert((first + second).drop_last() =~= first + second.drop_last());
        assert((first + second).last() == second.last());
    }
}

/// Two ordered sides of the same kind that hold the same map hold the same
/// levels in the same order.
pub proof fn lemma_levels_determined(side: Side, a: Seq<Level>, b: Seq<Level>)
    requires
        ordered(side, a),
        ordered(side, b),
        levels_map(a) == levels_map(b),
    ensures
        a == b,
    decreases a.len(),
{
    lemma_levels_map(side, a);
    lemma_levels_map(side, b);
    if a.len() == 0 {
        if b.len() > 0 {
            assert(levels_map(b).dom().contains(b[0].price));
            assert(has_price(a, b[0].price));
        }
        assert(a =~= b);
    } else {
        let la = a.last();
        assert(levels_map(a).dom().contains(a[a.len() - 1].price));
        let j = index_of(b, la.price);
        assert(0 <= j < b.len() && b[j].price == la.price);
        // the last level of `a` is the worst price of the map, so it is last in `b` too
        if j < b.len() - 1 {
            let worse = b[b.len() - 1];
            assert(better(side, b[j].price, worse.price));
            assert(levels_map(b).dom().contains(b[b.len() - 1].price));
            let k = index_of(a, worse.price);
            assert(0 <= k < a.len() && a[k].price == worse.price);
            if k < a.len() - 1 {
                assert(better(side, a[k].price, a[a.len() - 1].price));
            }
            assert(false);
        }
        assert(levels_map(b)[b[j].price] == b[j].amount);
        assert(levels_map(a)[a[a.len() - 1].price] == la.amount);
        assert(b.last() == la);
        let a0 = a.drop_last();
        let b0 = b.drop_last();
        assert(ordered(side, a0)) by {
            assert forall|x: int, y: int| 0 <= x < y < a0.len() implies better(
                side,
                (#[trigger] a0[x]).price,
                (#[trigger] a0[y]).price,
            ) by {
                assert(a0[x] == a[x] && a0[y] == a[y]);
            }
            assert forall|x: int| 0 <= x < a0.len() implies (#[trigger] a0[x]).amount > 0 by {
                assert(a0[x] == a[x]);
            }
        }
        assert(ordered(side, b0)) by {
            assert forall|x: int, y: int| 0 <= x < y < b0.len() implies better(
                side,
                (#[trigger] b0[x]).price,
                (#[trigger] b0[y]).price,
            ) by {
                assert(b0[x] == b[x] && b0[y] == b[y]);
            }
            assert forall|x: int| 0 <= x < b0.len() implies (#[trigger] b0[x]).amount > 0 by {
                assert(b0[x] == b[x]);
            }
        }
        lemma_levels_map(side, a0);
        lemma_levels_map(side, b0);
        assert(levels_map(a0) =~= levels_map(b0)) by {
            assert forall|p: u64| levels_map(a0).dom().contains(p) implies levels_map(b0).dom().contains(
                p,
            ) && levels_map(a0)[p] == levels_map(b0)[p] by {
                let x = index_of(a0, p);
                assert(a0[x] == a[x]);
                assert(better(side, a[x].price, a[a.len() - 1].price));
                assert(levels_map(a).dom().contains(a[x].price));
                let y = index_of(b, p);
                assert(0 <= y < b.len() && b[y].price == p);
                assert(y < b.len() - 1);
                assert(b0[y] == b[y]);
                assert(levels_map(b)[b[y].price] == b[y].amount);
                assert(levels_map(a)[a[x].price] == a[x].amount);
            }
            assert forall|p: u64| levels_map(b0).dom().contains(p) implies levels_map(a0).dom().contains(
                p,
            ) by {
                let y = index_of(b0, p);
                assert(b0[y] == b[y]);
                assert(better(side, b[y].price, b[b.len() - 1].price));
                assert(levels_map(b).dom().contains(b[y].price));
                let x = index_of(a, p);
                assert(0 <= x < a.len() && a[x].price == p);
                assert(x < a.len() - 1);
                assert(a0[x] == a[x]);
            }
        }
        lemma_levels_determined(side, a0, b0);
        assert(a =~= a0.push(la));
        assert(b =~= b0.push(la));
    }
}

} // verus!
