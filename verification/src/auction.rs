//! A bid book in which buyers lock bid tokens at a price and an admin sells
//! offer tokens into it, filling the lowest-priced bids first.
//!
//! Bids that still hold bid tokens form the chain, ordered by price; a bid
//! with an equal price goes behind the bids already there. A bid that is
//! filled completely leaves the chain and waits, with its filled amount, until
//! its owner closes it.
use vstd::prelude::*;
use crate::decimal::{Decimal, in_range, mul_attos, div_attos, one_attos};

verus! {

/// What a bid receipt records: the price asked (offer tokens per bid token),
/// the bid tokens still locked, and the offer tokens claimable.
#[derive(Clone, Copy, Debug, PartialEq, Eq, Structural)]
pub struct BidReceipt {
    pub id: u64,
    pub price: Decimal,
    pub amount: Decimal,
    pub filled: Decimal,
}

/// Why a request to the bid book was refused.
#[derive(Clone, Copy, Debug, PartialEq, Eq, Structural)]
pub enum AuctionError {
    /// The price of a bid must be positive.
    NonPositivePrice,
    /// A bid must lock some bid tokens.
    EmptyBid,
    /// Receipt id zero marks the end of the chain and cannot name a bid.
    ZeroId,
    /// A receipt with this id already exists.
    DuplicateId,
    /// No open receipt has this id.
    UnknownReceipt,
}

/// The state of one auction: the chain of open bids, the bids filled
/// completely but not closed, and the balances of its two vaults.
#[derive(Debug)]
pub struct Auction {
    pub chain: Vec<BidReceipt>,
    pub settled: Vec<BidReceipt>,
    pub bid_vault: Decimal,
    pub offer_vault: Decimal,
}

/// Sum of `f` over the receipts of `s`.
pub open spec fn sum_by(s: Seq<BidReceipt>, f: spec_fn(BidReceipt) -> int) -> int
    decreases s.len(),
{
    if s.len() == 0 {
        0
    } else {
        sum_by(s.drop_last(), f) + f(s.last())
    }
}

/// The bid tokens a receipt still locks.
pub open spec fn amount_of(b: BidReceipt) -> int {
    b.amount@
}

/// The offer tokens a receipt can claim.
pub open spec fn filled_of(b: BidReceipt) -> int {
    b.filled@
}

/// Summing function for the bid tokens receipts lock.
pub open spec fn amount_fn() -> spec_fn(BidReceipt) -> int {
    |b: BidReceipt| amount_of(b)
}

/// Summing function for the offer tokens receipts can claim.
pub open spec fn filled_fn() -> spec_fn(BidReceipt) -> int {
    |b: BidReceipt| filled_of(b)
}

/// Prices never decrease along the sequence.
pub open spec fn sorted_by_price(s: Seq<BidReceipt>) -> bool {
    forall|i: int, j: int| 0 <= i <= j < s.len() ==> s[i].price@ <= s[j].price@
}

/// `pos` is the first place whose bid asks a price above `price`, or the end.
pub open spec fn is_insert_pos(s: Seq<BidReceipt>, price: int, pos: int) -> bool {
    &&& 0 <= pos <= s.len()
    &&& forall|j: int| 0 <= j < pos ==> s[j].price@ <= price
    &&& pos < s.len() ==> price < s[pos].price@
}

/// Whether some receipt of `s` has this id.
pub open spec fn has_id(s: Seq<BidReceipt>, id: u64) -> bool {
    exists|i: int| 0 <= i < s.len() && s[i].id == id
}

/// `i` is the first index of a receipt with this id.
pub open spec fn first_with_id(s: Seq<BidReceipt>, id: u64, i: int) -> bool {
    &&& 0 <= i < s.len()
    &&& s[i].id == id
    &&& forall|j: int| 0 <= j < i ==> s[j].id != id
}

/// Filling the chain with `offer` tokens: the chain left, the receipts filled
/// completely (in chain order), the bid tokens bought, and the offer left.
pub open spec fn fill(chain: Seq<BidReceipt>, offer: int) -> (Seq<BidReceipt>, Seq<
    BidReceipt,
>, int, int)
    decreases chain.len(),
{
    if chain.len() == 0 || offer <= 0 {
        (chain, Seq::empty(), 0, offer)
    } else {
        let b = chain[0];
        let calc = mul_attos(b.amount@, b.price@);
        if calc > offer {
            let amt = div_attos(offer, b.price@);
            let b2 = BidReceipt {
                id: b.id,
                price: b.price,
                amount: Decimal { attos: (b.amount@ - amt) as i128 },
                filled: Decimal { attos: (b.filled@ + offer) as i128 },
            };
            (chain.update(0, b2), Seq::empty(), amt, 0)
        } else {
            let b2 = BidReceipt {
                id: b.id,
                price: b.price,
                amount: Decimal { attos: 0 },
                filled: Decimal { attos: (b.filled@ + calc) as i128 },
            };
            let rest = fill(chain.drop_first(), offer - calc);
            (rest.0, seq![b2] + rest.1, b.amount@ + rest.2, rest.3)
        }
    }
}

/// Every product `amount * price` that filling computes fits the decimal
/// range.
pub open spec fn fill_defined(chain: Seq<BidReceipt>, offer: int) -> bool
    decreases chain.len(),
{
    if chain.len() == 0 || offer <= 0 {
        true
    } else {
        let calc = mul_attos(chain[0].amount@, chain[0].price@);
        in_range(calc) && (calc > offer || fill_defined(chain.drop_first(), offer - calc))
    }
}

proof fn lemma_sum_concat(a: Seq<BidReceipt>, b: Seq<BidReceipt>, f: spec_fn(BidReceipt) -> int)
    ensures
        sum_by(a + b, f) == sum_by(a, f) + sum_by(b, f),
    decreases b.len(),
{
    if b.len() == 0 {
        assert(a + b =~= a);
    } else {
        lemma_sum_concat(a, b.drop_last(), f);
        assert((a + b).drop_last() =~= a + b.drop_last());
    }
}

proof fn lemma_sum_first(s: Seq<BidReceipt>, f: spec_fn(BidReceipt) -> int)
    requires
        s.len() > 0,
    ensures
        sum_by(s, f) == f(s[0]) + sum_by(s.drop_first(), f),
{
    lemma_sum_concat(seq![s[0]], s.drop_first(), f);
    assert(seq![s[0]] + s.drop_first() =~= s);
    assert(seq![s[0]].drop_last() =~= Seq::<BidReceipt>::empty());
    assert(sum_by(Seq::<BidReceipt>::empty(), f) == 0);
    assert(sum_by(seq![s[0]], f) == f(s[0]));
}

proof fn lemma_sum_insert(s: Seq<BidReceipt>, i: int, x: BidReceipt, f: spec_fn(BidReceipt) -> int)
    requires
        0 <= i <= s.len(),
    ensures
        sum_by(s.insert(i, x), f) == sum_by(s, f) + f(x),
{
    lemma_sum_concat(s.take(i), s.skip(i), f);
    assert(s.take(i) + s.skip(i) =~= s);
    lemma_sum_concat(s.take(i).push(x), s.skip(i), f);
    assert(s.take(i).push(x) + s.skip(i) =~= s.insert(i, x));
    assert(s.take(i).push(x).drop_last() =~= s.take(i));
}

proof fn lemma_sum_remove(s: Seq<BidReceipt>, i: int, f: spec_fn(BidReceipt) -> int)
    requires
        0 <= i < s.len(),
    ensures
        sum_by(s.remove(i), f) == sum_by(s, f) - f(s[i]),
{
    lemma_sum_insert(s.remove(i), i, s[i], f);
    assert(s.remove(i).insert(i, s[i]) =~= s);
}

proof fn lemma_sum_nonneg(s: Seq<BidReceipt>, f: spec_fn(BidReceipt) -> int)
    requires
        forall|i: int| 0 <= i < s.len() ==> f(#[trigger] s[i]) >= 0,
    ensures
        sum_by(s, f) >= 0,
    decreases s.len(),
{
    if s.len() > 0 {
        lemma_sum_nonneg(s.drop_last(), f);
        assert(f(s[s.len() - 1]) >= 0);
    }
}

proof fn lemma_elem_le_sum(s: Seq<BidReceipt>, i: int, f: spec_fn(BidReceipt) -> int)
    requires
        0 <= i < s.len(),
        forall|k: int| 0 <= k < s.len() ==> f(#[trigger] s[k]) >= 0,
    ensures
        f(s[i]) <= sum_by(s, f),
{
    lemma_sum_remove(s, i, f);
    assert forall|k: int| 0 <= k < s.remove(i).len() implies f(#[trigger] s.remove(i)[k]) >= 0 by {
        if k < i {
            assert(s.remove(i)[k] == s[k]);
        } else {
            assert(s.remove(i)[k] == s[k + 1]);
        }
    }
    lemma_sum_nonneg(s.remove(i), f);
}

proof fn lemma_div_lt_amount(amount: int, price: int, offer: int)
    requires
        amount > 0,
        price > 0,
        offer >= 0,
        mul_attos(amount, price) > offer,
    ensures
        0 <= div_attos(offer, price) < amount,
{
    let one = one_attos();
    assert(amount * price >= 0) by (nonlinear_arith)
        requires
            amount > 0,
            price > 0,
    ;
    assert((amount * price) / one > offer);
    assert(amount * price >= (offer + 1) * one) by (nonlinear_arith)
        requires
            (amount * price) / one > offer,
            one > 0,
            amount * price >= 0,
    ;
    assert(offer * one >= 0) by (nonlinear_arith)
        requires
            offer >= 0,
            one > 0,
    ;
    assert((offer * one) / price < amount) by (nonlinear_arith)
        requires
            amount * price >= (offer + 1) * one,
            price > 0,
            offer * one >= 0,
            one > 0,
    ;
    assert((offer * one) / price >= 0) by (nonlinear_arith)
        requires
            price > 0,
            offer * one >= 0,
    ;
}

proof fn lemma_mul_nonneg(a: int, b: int)
    requires
        a >= 0,
        b > 0,
    ensures
        mul_attos(a, b) >= 0,
{
    assert(a * b >= 0) by (nonlinear_arith)
        requires
            a >= 0,
            b > 0,
    ;
}

/// What filling keeps and moves: it returns a sorted suffix of open bids,
/// takes the bought tokens out of the open amounts, and adds every offer
/// token spent to the filled amounts.
proof fn lemma_fill(chain: Seq<BidReceipt>, offer: int)
    requires
        offer >= 0,
        forall|i: int|
            #![trigger chain[i]]
            0 <= i < chain.len() ==> chain[i].price@ > 0 && chain[i].amount@ > 0
                && chain[i].filled@ >= 0,
        forall|i: int| 0 <= i < chain.len() ==> in_range(chain[i].filled@ + offer),
        fill_defined(chain, offer),
        sorted_by_price(chain),
    ensures
        ({
            let f = fill(chain, offer);
            &&& 0 <= f.3 <= offer
            &&& f.2 >= 0
            &&& sum_by(f.0, amount_fn()) == sum_by(
                chain,
                amount_fn(),
            ) - f.2
            &&& sum_by(f.0, filled_fn()) + sum_by(
                f.1,
                filled_fn(),
            ) == sum_by(chain, filled_fn()) + offer - f.3
            &&& sorted_by_price(f.0)
            &&& forall|i: int|
                #![trigger f.0[i]]
                0 <= i < f.0.len() ==> f.0[i].price@ > 0 && f.0[i].amount@ > 0
                    && f.0[i].filled@ >= 0
            &&& forall|i: int|
                #![trigger f.1[i]]
                0 <= i < f.1.len() ==> f.1[i].amount@ == 0 && f.1[i].filled@ >= 0
            &&& f.0.len() <= chain.len()
        }),
    decreases chain.len(),
{
    let fa = amount_fn();
    let ff = filled_fn();
    if chain.len() == 0 || offer <= 0 {
        assert(sum_by(Seq::<BidReceipt>::empty(), ff) == 0);
    } else {
        let b = chain[0];
        let calc = mul_attos(b.amount@, b.price@);
        lemma_mul_nonneg(b.amount@, b.price@);
        lemma_sum_first(chain, fa);
        lemma_sum_first(chain, ff);
        if calc > offer {
            let amt = div_attos(offer, b.price@);
            lemma_div_lt_amount(b.amount@, b.price@, offer);
            let b2 = BidReceipt {
                id: b.id,
                price: b.price,
                amount: Decimal { attos: (b.amount@ - amt) as i128 },
                filled: Decimal { attos: (b.filled@ + offer) as i128 },
            };
            let c2 = chain.update(0, b2);
            assert(c2.drop_first() =~= chain.drop_first());
            lemma_sum_first(c2, fa);
            lemma_sum_first(c2, ff);
            assert(sum_by(Seq::<BidReceipt>::empty(), ff) == 0);
            assert(sorted_by_price(c2)) by {
                assert forall|i: int, j: int| 0 <= i <= j < c2.len() implies c2[i].price@
                    <= c2[j].price@ by {
                    assert(chain[i].price@ <= chain[j].price@);
                }
            }
        } else {
            let b2 = BidReceipt {
                id: b.id,
                price: b.price,
                amount: Decimal { attos: 0 },
                filled: Decimal { attos: (b.filled@ + calc) as i128 },
            };
            let rest_chain = chain.drop_first();
            assert forall|i: int| 0 <= i < rest_chain.len() implies in_range(
                rest_chain[i].filled@ + (offer - calc),
            ) by {
                assert(in_range(chain[i + 1].filled@ + offer));
            }
            assert(sorted_by_price(rest_chain)) by {
                assert forall|i: int, j: int| 0 <= i <= j < rest_chain.len() implies rest_chain[i].price@
                    <= rest_chain[j].price@ by {
                    assert(chain[i + 1].price@ <= chain[j + 1].price@);
                }
            }
            lemma_fill(rest_chain, offer - calc);
            let rest = fill(rest_chain, offer - calc);
            lemma_sum_first(seq![b2] + rest.1, ff);
            assert((seq![b2] + rest.1).drop_first() =~= rest.1);
            assert forall|i: int| 0 <= i < (seq![b2] + rest.1).len() implies #[trigger] (seq![b2]
                + rest.1)[i].amount@ == 0 && (seq![b2] + rest.1)[i].filled@ >= 0 by {
                if i > 0 {
                    assert((seq![b2] + rest.1)[i] == rest.1[i - 1]);
                }
            }
        }
    }
}

impl Auction {
    /// Well-formedness: the chain is sorted by price and holds only bids with
    /// tokens left, the settled receipts hold none, and each vault holds
    /// exactly what the receipts are owed.
    pub open spec fn wf(&self) -> bool {
        &&& sorted_by_price(self.chain@)
        &&& forall|i: int|
            #![trigger self.chain@[i]]
            0 <= i < self.chain@.len() ==> self.chain@[i].price@ > 0
                && self.chain@[i].amount@ > 0 && self.chain@[i].filled@ >= 0
        &&& forall|i: int|
            #![trigger self.settled@[i]]
            0 <= i < self.settled@.len() ==> self.settled@[i].amount@ == 0
                && self.settled@[i].filled@ >= 0
        &&& self.bid_vault@ == sum_by(self.chain@, amount_fn())
        &&& self.offer_vault@ == sum_by(self.chain@, filled_fn()) + sum_by(
            self.settled@,
            filled_fn(),
        )
    }

    /// A new auction with no bids and empty vaults.
    pub fn new() -> (r: Auction)
        ensures
            r.wf(),
            r.chain@.len() == 0,
            r.settled@.len() == 0,
            r.bid_vault@ == 0,
            r.offer_vault@ == 0,
    {
        let r = Auction {
            chain: Vec::new(),
            settled: Vec::new(),
            bid_vault: Decimal::zero(),
            offer_vault: Decimal::zero(),
        };
        assert(sum_by(r.chain@, amount_fn()) == 0);
        assert(sum_by(r.chain@, filled_fn()) == 0);
        assert(sum_by(r.settled@, filled_fn()) == 0);
        r
    }

    fn contains_id(&self, id: u64) -> (r: bool)
        ensures
            r == (has_id(self.chain@, id) || has_id(self.settled@, id)),
    {
        let mut i: usize = 0;
        while i < self.chain.len()
            invariant
                0 <= i <= self.chain@.len(),
                forall|j: int| 0 <= j < i ==> self.chain@[j].id != id,
            decreases self.chain@.len() - i,
        {
            if self.chain[i].id == id {
                return true;
            }
            i = i + 1;
        }
        let mut k: usize = 0;
        while k < self.settled.len()
            invariant
                0 <= k <= self.settled@.len(),
                forall|j: int| 0 <= j < k ==> self.settled@[j].id != id,
                !has_id(self.chain@, id),
            decreases self.settled@.len() - k,
        {
            if self.settled[k].id == id {
                return true;
            }
            k = k + 1;
        }
        false
    }

    fn insert_position(&self, price: Decimal) -> (pos: usize)
        ensures
            is_insert_pos(self.chain@, price@, pos as int),
    {
        let mut i: usize = 0;
        while i < self.chain.len()
            invariant
                0 <= i <= self.chain@.len(),
                forall|j: int| 0 <= j < i ==> self.chain@[j].price@ <= price@,
            decreases self.chain@.len() - i,
        {
            if price.lt(self.chain[i].price) {
                return i;
            }
            i = i + 1;
        }
        i
    }

    /// Places a bid of `amount` bid tokens at `price` under receipt `id`.
    ///
    /// The bid goes into the chain before the first bid that asks a higher
    /// price, so bids at one price are filled in the order they came.
    pub fn create_bid(&mut self, id: u64, amount: Decimal, price: Decimal) -> (r: Result<
        (),
        AuctionError,
    >)
        requires
            old(self).wf(),
            in_range(old(self).bid_vault@ + amount@),
        ensures
            final(self).wf(),
            price@ <= 0 ==> r == Err::<(), AuctionError>(AuctionError::NonPositivePrice),
            price@ > 0 && amount@ <= 0 ==> r == Err::<(), AuctionError>(AuctionError::EmptyBid),
            price@ > 0 && amount@ > 0 && id == 0 ==> r == Err::<(), AuctionError>(
                AuctionError::ZeroId,
            ),
            price@ > 0 && amount@ > 0 && id != 0 && (has_id(old(self).chain@, id) || has_id(
                old(self).settled@,
                id,
            )) ==> r == Err::<(), AuctionError>(AuctionError::DuplicateId),
            r is Err ==> *final(self) == *old(self),
            r is Ok <==> (price@ > 0 && amount@ > 0 && id != 0 && !has_id(old(self).chain@, id)
                && !has_id(old(self).settled@, id)),
            r is Ok ==> exists|pos: int|
                is_insert_pos(old(self).chain@, price@, pos) && final(self).chain@ == old(self).chain@.insert(
                    pos,
                    BidReceipt { id, price, amount, filled: Decimal { attos: 0 } },
                ),
            r is Ok ==> final(self).settled@ == old(self).settled@,
            r is Ok ==> final(self).bid_vault@ == old(self).bid_vault@ + amount@,
            r is Ok ==> final(self).offer_vault@ == old(self).offer_vault@,
    {
        if !Decimal::zero().lt(price) {
            return Err(AuctionError::NonPositivePrice);
        }
        if !Decimal::zero().lt(amount) {
            return Err(AuctionError::EmptyBid);
        }
        if id == 0 {
            return Err(AuctionError::ZeroId);
        }
        if self.contains_id(id) {
            return Err(AuctionError::DuplicateId);
        }
        let pos = self.insert_position(price);
        let bid = BidReceipt { id, price, amount, filled: Decimal::zero() };
        let ghost old_chain = self.chain@;
        self.chain.insert(pos, bid);
        self.bid_vault = self.bid_vault.add(amount);
        proof {
            lemma_sum_insert(old_chain, pos as int, bid, amount_fn());
            lemma_sum_insert(old_chain, pos as int, bid, filled_fn());
            let c = self.chain@;
            assert forall|i: int| 0 <= i < c.len() implies #[trigger] c[i].price@ > 0
                && c[i].amount@ > 0 && c[i].filled@ >= 0 by {
                if i < pos {
                    assert(c[i] == old_chain[i]);
                } else if i > pos {
                    assert(c[i] == old_chain[i - 1]);
                }
            }
            assert forall|i: int, j: int| 0 <= i <= j < c.len() implies c[i].price@
                <= c[j].price@ by {
                if i < pos {
                    assert(c[i] == old_chain[i]);
                    if j < pos {
                        assert(c[j] == old_chain[j]);
                    } else if j > pos {
                        assert(c[j] == old_chain[j - 1]);
                        assert(old_chain[i].price@ <= old_chain[j - 1].price@);
                    }
                } else if i == pos {
                    if j > pos {
                        assert(c[j] == old_chain[j - 1]);
                        assert(old_chain[pos as int].price@ <= old_chain[j - 1].price@);
                    }
                } else {
                    assert(c[i] == old_chain[i - 1]);
                    assert(c[j] == old_chain[j - 1]);
                }
            }
        }
        Ok(())
    }

    fn find_first(v: &Vec<BidReceipt>, id: u64) -> (r: Option<usize>)
        ensures
            r matches Some(i) ==> first_with_id(v@, id, i as int),
            r is None ==> !has_id(v@, id),
    {
        let mut i: usize = 0;
        while i < v.len()
            invariant
                0 <= i <= v@.len(),
                forall|j: int| 0 <= j < i ==> v@[j].id != id,
            decreases v@.len() - i,
        {
            if v[i].id == id {
                return Some(i);
            }
            i = i + 1;
        }
        None
    }

    /// Closes the receipt `id` and pays it out: returns the bid tokens it
    /// still locks and the offer tokens it has earned, in that order. An open
    /// bid leaves the chain.
    pub fn close_bid(&mut self, id: u64) -> (r: Result<(Decimal, Decimal), AuctionError>)
        requires
            old(self).wf(),
        ensures
            final(self).wf(),
            r is Err <==> (!has_id(old(self).chain@, id) && !has_id(old(self).settled@, id)),
            r is Err ==> r == Err::<(Decimal, Decimal), AuctionError>(
                AuctionError::UnknownReceipt,
            ) && *final(self) == *old(self),
            has_id(old(self).chain@, id) ==> exists|i: int|
                first_with_id(old(self).chain@, id, i) && r == Ok::<
                    (Decimal, Decimal),
                    AuctionError,
                >((old(self).chain@[i].amount, old(self).chain@[i].filled))
                    && final(self).chain@ == old(self).chain@.remove(i) && final(self).settled@
                    == old(self).settled@,
            !has_id(old(self).chain@, id) && has_id(old(self).settled@, id) ==> exists|i: int|
                first_with_id(old(self).settled@, id, i) && r == Ok::<
                    (Decimal, Decimal),
                    AuctionError,
                >((old(self).settled@[i].amount, old(self).settled@[i].filled))
                    && final(self).settled@ == old(self).settled@.remove(i)
                    && final(self).chain@ == old(self).chain@,
            r matches Ok(p) ==> final(self).bid_vault@ == old(self).bid_vault@ - p.0@
                && final(self).offer_vault@ == old(self).offer_vault@ - p.1@,
    {
        match Self::find_first(&self.chain, id) {
            Some(i) => {
                let ghost old_chain = self.chain@;
                let b = self.chain.remove(i);
                proof {
                    lemma_sum_remove(old_chain, i as int, amount_fn());
                    lemma_sum_remove(old_chain, i as int, filled_fn());
                    let c = self.chain@;
                    assert forall|k: int| 0 <= k < c.len() implies #[trigger] c[k].price@ > 0
                        && c[k].amount@ > 0 && c[k].filled@ >= 0 by {
                        if k < i {
                            assert(c[k] == old_chain[k]);
                        } else {
                            assert(c[k] == old_chain[k + 1]);
                        }
                    }
                    assert forall|k: int, j: int| 0 <= k <= j < c.len() implies c[k].price@
                        <= c[j].price@ by {
                        let k2 = if k < i {
                            k
                        } else {
                            k + 1
                        };
                        let j2 = if j < i {
                            j
                        } else {
                            j + 1
                        };
                        assert(c[k] == old_chain[k2]);
                        assert(c[j] == old_chain[j2]);
                        assert(old_chain[k2].price@ <= old_chain[j2].price@);
                    }
                    lemma_sum_nonneg(c, amount_fn());
                    lemma_sum_nonneg(c, filled_fn());
                    lemma_sum_nonneg(self.settled@, filled_fn());
                }
                self.bid_vault = self.bid_vault.sub(b.amount);
                self.offer_vault = self.offer_vault.sub(b.filled);
                Ok((b.amount, b.filled))
            },
            None => {
                match Self::find_first(&self.settled, id) {
                    Some(i) => {
                        let ghost old_settled = self.settled@;
                        let b = self.settled.remove(i);
                        proof {
                            lemma_sum_remove(old_settled, i as int, filled_fn());
                            let s = self.settled@;
                            assert forall|k: int| 0 <= k < s.len() implies #[trigger] s[k].amount@
                                == 0 && s[k].filled@ >= 0 by {
                                if k < i {
                                    assert(s[k] == old_settled[k]);
                                } else {
                                    assert(s[k] == old_settled[k + 1]);
                                }
                            }
                            lemma_sum_nonneg(s, filled_fn());
                            lemma_sum_nonneg(self.chain@, filled_fn());
                        }
                        self.offer_vault = self.offer_vault.sub(b.filled);
                        Ok((b.amount, b.filled))
                    },
                    None => Err(AuctionError::UnknownReceipt),
                }
            },
        }
    }

    /// Sells `offer` tokens into the chain, lowest price first; returns the
    /// bid tokens bought and the offer tokens left over.
    ///
    /// A bid whose whole amount the remaining offer covers is filled and
    /// leaves the chain; otherwise the rest of the offer fills it in part and
    /// the sale stops.
    pub fn auction(&mut self, offer: Decimal) -> (r: (Decimal, Decimal))
        requires
            old(self).wf(),
            offer@ >= 0,
            in_range(old(self).offer_vault@ + offer@),
            fill_defined(old(self).chain@, offer@),
        ensures
            final(self).wf(),
            ({
                let f = fill(old(self).chain@, offer@);
                &&& final(self).chain@ == f.0
                &&& final(self).settled@ == old(self).settled@ + f.1
                &&& r.0@ == f.2
                &&& r.1@ == f.3
            }),
            final(self).bid_vault@ == old(self).bid_vault@ - r.0@,
            final(self).offer_vault@ == old(self).offer_vault@ + (offer@ - r.1@),
    {
        let ghost c0 = self.chain@;
        let ghost total = fill(c0, offer@);
        proof {
            lemma_sum_nonneg(c0, filled_fn());
            lemma_sum_nonneg(self.settled@, filled_fn());
            assert forall|k: int| 0 <= k < c0.len() implies in_range(c0[k].filled@ + offer@) by {
                lemma_elem_le_sum(c0, k, filled_fn());
            }
        }
        let (new_chain, newly, bought, left) = fill_chain(&self.chain, offer);
        proof {
            lemma_fill(c0, offer@);
            lemma_sum_nonneg(total.0, amount_fn());
            lemma_sum_concat(self.settled@, total.1, filled_fn());
        }
        self.chain = new_chain;
        let mut newly_mut = newly;
        self.settled.append(&mut newly_mut);
        proof {
            let s = self.settled@;
            assert forall|k: int| 0 <= k < s.len() implies #[trigger] s[k].amount@ == 0
                && s[k].filled@ >= 0 by {
                if k >= old(self).settled@.len() {
                    assert(s[k] == total.1[k - old(self).settled@.len()]);
                }
            }
        }
        self.bid_vault = self.bid_vault.sub(bought);
        self.offer_vault = self.offer_vault.add(offer.sub(left));
        (bought, left)
    }
}

/// Bids fit for filling: positive price and amount, claims not negative.
pub open spec fn chain_ok(chain: Seq<BidReceipt>) -> bool {
    forall|i: int|
        #![trigger chain[i]]
        0 <= i < chain.len() ==> chain[i].price@ > 0 && chain[i].amount@ > 0
            && chain[i].filled@ >= 0
}

/// Computes `fill(chain, offer)`.
fn fill_chain(chain: &Vec<BidReceipt>, offer: Decimal) -> (r: (
    Vec<BidReceipt>,
    Vec<BidReceipt>,
    Decimal,
    Decimal,
))
    requires
        offer@ >= 0,
        chain_ok(chain@),
        forall|k: int| 0 <= k < chain@.len() ==> in_range(chain@[k].filled@ + offer@),
        fill_defined(chain@, offer@),
        in_range(sum_by(chain@, amount_fn())),
    ensures
        (r.0@, r.1@, r.2@, r.3@) == fill(chain@, offer@),
{
    let ghost c0 = chain@;
    let ghost total = fill(c0, offer@);
    let n = chain.len();
    let mut i: usize = 0;
    let mut left = offer;
    let mut bought = Decimal::zero();
    let mut newly: Vec<BidReceipt> = Vec::new();
    let mut partial: Option<BidReceipt> = None;
    proof {
        assert(c0.skip(0) =~= c0);
        assert(c0.take(0) =~= Seq::<BidReceipt>::empty());
        assert(newly@ + total.1 =~= total.1);
        assert(sum_by(Seq::<BidReceipt>::empty(), amount_fn()) == 0);
    }
    while i < n && Decimal::zero().lt(left)
        invariant_except_break
            partial is None,
            bought@ == sum_by(c0.take(i as int), amount_fn()),
            total == ({
                let rest = fill(c0.skip(i as int), left@);
                (rest.0, newly@ + rest.1, bought@ + rest.2, rest.3)
            }),
        invariant
            chain@ == c0,
            chain_ok(c0),
            n == c0.len(),
            0 <= i <= n,
            0 <= left@ <= offer@,
            fill_defined(c0.skip(i as int), left@),
            in_range(sum_by(c0, amount_fn())),
            forall|k: int| 0 <= k < c0.len() ==> in_range(c0[k].filled@ + offer@),
        ensures
            partial matches Some(b2) ==> i < n && left@ == 0 && total == (
                c0.skip(i as int).update(0, b2),
                newly@,
                bought@,
                0int,
            ),
            partial is None ==> total == (c0.skip(i as int), newly@, bought@, left@),
        decreases n - i,
    {
        let b = chain[i];
        proof {
            assert(c0.skip(i as int)[0] == b);
            assert(c0.skip(i as int).drop_first() =~= c0.skip(i + 1));
            lemma_sum_concat(c0.take(i as int), seq![b], amount_fn());
            assert(c0.take(i as int) + seq![b] =~= c0.take(i + 1));
            assert(seq![b].drop_last() =~= Seq::<BidReceipt>::empty());
            assert(sum_by(Seq::<BidReceipt>::empty(), amount_fn()) == 0);
            assert(sum_by(seq![b], amount_fn()) == amount_fn()(b));
            lemma_sum_concat(c0.take(i + 1), c0.skip(i + 1), amount_fn());
            assert(c0.take(i + 1) + c0.skip(i + 1) =~= c0);
            assert forall|k: int| 0 <= k < c0.skip(i + 1).len() implies amount_fn()(
                #[trigger] c0.skip(i + 1)[k],
            ) >= 0 by {
                assert(c0.skip(i + 1)[k] == c0[i + 1 + k]);
            }
            lemma_sum_nonneg(c0.skip(i + 1), amount_fn());
        }
        let calc = b.amount.mul(b.price);
        if calc.gt(left) {
            proof {
                lemma_div_lt_amount(b.amount@, b.price@, left@);
            }
            let amt = left.div(b.price);
            let b2 = BidReceipt {
                id: b.id,
                price: b.price,
                amount: b.amount.sub(amt),
                filled: b.filled.add(left),
            };
            proof {
                assert(newly@ + Seq::<BidReceipt>::empty() =~= newly@);
            }
            bought = bought.add(amt);
            left = Decimal::zero();
            partial = Some(b2);
            break ;
        } else {
            proof {
                lemma_mul_nonneg(b.amount@, b.price@);
            }
            let b2 = BidReceipt {
                id: b.id,
                price: b.price,
                amount: Decimal::zero(),
                filled: b.filled.add(calc),
            };
            let ghost newly_before = newly@;
            newly.push(b2);
            bought = bought.add(b.amount);
            left = left.sub(calc);
            i = i + 1;
            proof {
                assert(newly@ =~= newly_before + seq![b2]);
                let rest = fill(c0.skip(i as int), left@);
                assert(newly_before + (seq![b2] + rest.1) =~= newly@ + rest.1);
            }
        }
    }
    let mut new_chain: Vec<BidReceipt> = Vec::new();
    let start: usize;
    match partial {
        Some(b2) => {
            new_chain.push(b2);
            start = i + 1;
        },
        None => {
            start = i;
        },
    }
    let mut j: usize = start;
    while j < n
        invariant
            chain@ == c0,
            n == c0.len(),
            i <= start <= j <= n,
            partial matches Some(b2) ==> start == i + 1 && i < n && new_chain@ =~= c0.subrange(
                i as int,
                j as int,
            ).update(0, b2),
            partial is None ==> start == i && new_chain@ =~= c0.subrange(i as int, j as int),
        decreases n - j,
    {
        new_chain.push(chain[j]);
        j = j + 1;
    }
    proof {
        assert(c0.subrange(i as int, n as int) =~= c0.skip(i as int));
    }
    (new_chain, newly, bought, left)
}

/// An auction's state as values: open chain, settled receipts, bid vault,
/// offer vault.
pub type AuctionState = (Seq<BidReceipt>, Seq<BidReceipt>, int, int);

/// The state of an auction.
pub open spec fn auction_state(a: Auction) -> AuctionState {
    (a.chain@, a.settled@, a.bid_vault@, a.offer_vault@)
}

/// The states of a list of auctions.
pub open spec fn auction_states(a: Seq<Auction>) -> Seq<AuctionState> {
    a.map_values(|x: Auction| auction_state(x))
}

/// Every auction of a list is well formed.
pub open spec fn all_wf(a: Seq<Auction>) -> bool {
    forall|i: int| 0 <= i < a.len() ==> #[trigger] a[i].wf()
}

/// Whether `offer` can be sold into an auction in state `v`: it is not
/// negative, the offer vault can take it, and every amount the sale
/// computes fits.
pub open spec fn can_auction(v: AuctionState, offer: int) -> bool {
    &&& offer >= 0
    &&& in_range(v.3 + offer)
    &&& fill_defined(v.0, offer)
}

/// What selling `offer` into an auction in state `v` returns: the bid
/// tokens bought and the offer left.
pub open spec fn auction_outcome(v: AuctionState, offer: int) -> (int, int) {
    let f = fill(v.0, offer);
    (f.2, f.3)
}

/// The state of an auction in state `v` after `offer` is sold into it.
pub open spec fn auctioned(v: AuctionState, offer: int) -> AuctionState {
    let f = fill(v.0, offer);
    (f.0, v.1 + f.1, v.2 - f.2, v.3 + (offer - f.3))
}

/// Whether selling `offer` into `chain` computes only amounts that fit
/// (see `fill_defined`).
fn can_fill(chain: &Vec<BidReceipt>, offer: Decimal) -> (r: bool)
    requires
        chain_ok(chain@),
    ensures
        r == fill_defined(chain@, offer@),
{
    let mut i: usize = 0;
    let mut left = offer;
    proof {
        assert(chain@.skip(0) =~= chain@);
    }
    while i < chain.len() && Decimal::zero().lt(left)
        invariant
            chain_ok(chain@),
            0 <= i <= chain@.len(),
            fill_defined(chain@, offer@) == fill_defined(chain@.skip(i as int), left@),
        decreases chain@.len() - i,
    {
        let b = chain[i];
        proof {
            assert(chain@.skip(i as int)[0] == b);
            assert(chain@.skip(i as int).drop_first() =~= chain@.skip(i + 1));
        }
        let calc = match b.amount.checked_mul(b.price) {
            Some(c) => c,
            None => {
                return false;
            },
        };
        if calc.gt(left) {
            return true;
        }
        proof {
            lemma_mul_nonneg(b.amount@, b.price@);
        }
        left = left.sub(calc);
        i = i + 1;
    }
    true
}

/// A copy of a chain of receipts.
fn copy_receipts(v: &Vec<BidReceipt>) -> (r: Vec<BidReceipt>)
    ensures
        r@ == v@,
{
    let mut out: Vec<BidReceipt> = Vec::new();
    let mut i: usize = 0;
    while i < v.len()
        invariant
            0 <= i <= v@.len(),
            out@ == v@.take(i as int),
        decreases v@.len() - i,
    {
        out.push(v[i]);
        i = i + 1;
        assert(out@ =~= v@.take(i as int));
    }
    assert(v@.take(v@.len() as int) =~= v@);
    out
}

impl Auction {
    /// A copy of the auction, in the same state.
    pub fn duplicate(&self) -> (r: Auction)
        ensures
            auction_state(r) == auction_state(*self),
    {
        Auction {
            chain: copy_receipts(&self.chain),
            settled: copy_receipts(&self.settled),
            bid_vault: self.bid_vault,
            offer_vault: self.offer_vault,
        }
    }

    /// Sells `offer` into the auction as `auction` does when it can (see
    /// `can_auction`) and returns what `auction` returns; otherwise returns
    /// `None` and leaves the auction unchanged.
    pub fn try_auction(&mut self, offer: Decimal) -> (r: Option<(Decimal, Decimal)>)
        requires
            old(self).wf(),
        ensures
            final(self).wf(),
            r is Some <==> can_auction(auction_state(*old(self)), offer@),
            r is None ==> *final(self) == *old(self),
            r matches Some(x) ==> (x.0@, x.1@) == auction_outcome(auction_state(*old(self)), offer@)
                && auction_state(*final(self)) == auctioned(auction_state(*old(self)), offer@),
    {
        if offer.lt(Decimal::zero()) {
            return None;
        }
        if self.offer_vault.checked_add(offer).is_none() {
            return None;
        }
        if !can_fill(&self.chain, offer) {
            return None;
        }
        let r = self.auction(offer);
        Some(r)
    }
}

/// A copy of a list of auctions, each in the same state.
pub fn copy_auctions(v: &Vec<Auction>) -> (r: Vec<Auction>)
    ensures
        auction_states(r@) == auction_states(v@),
{
    let mut out: Vec<Auction> = Vec::new();
    let mut i: usize = 0;
    while i < v.len()
        invariant
            0 <= i <= v@.len(),
            out@.len() == i,
            forall|j: int| 0 <= j < i ==> auction_state(#[trigger] out@[j]) == auction_state(v@[j]),
        decreases v@.len() - i,
    {
        let a = v[i].duplicate();
        out.push(a);
        i = i + 1;
    }
    assert(auction_states(out@) =~= auction_states(v@));
    out
}

} // verus!
