//! A simulated market: four token pools and a price for the first pair that
//! moves at random by 1% to 10% each new epoch.
//!
//! A request that fails a check or overflows is refused with an
//! error and leaves the market unchanged.
use vstd::prelude::*;
use crate::decimal::{Decimal, in_range, div_attos, mul_attos, ceil_to};

verus! {

/// Why the market refused a request.
#[derive(Clone, Copy, Debug, PartialEq, Eq, Structural)]
pub enum TradingError {
    /// The pool does not hold the tokens asked for.
    InsufficientLiquidity,
}

/// The market's pools (resource ids and balances), the epoch the price last
/// moved, and the current price of the first pair.
#[derive(Clone, Copy, Debug, PartialEq, Eq, Structural)]
pub struct TradingApp {
    pub main_token: u64,
    pub token1: u64,
    pub token2: u64,
    pub token3: u64,
    pub main_pool: Decimal,
    pub token1_pool: Decimal,
    pub token2_pool: Decimal,
    pub token3_pool: Decimal,
    pub last_epoch: u64,
    pub current_value: u64,
}

/// The price after one move: `random` modulo 10, plus one, is the percent of
/// the move, which is down when `direction` is even and up when it is odd;
/// the percent of the price is rounded down.
pub open spec fn moved_price(value: u64, random: u128, direction: u128) -> int {
    let pct = (random % 10) + 1;
    if direction % 2 == 0 {
        value - (value * pct) / 100
    } else {
        value + (value * pct) / 100
    }
}

/// Whether moving the price at `epoch` stays within `u64`: in a new epoch
/// the price times the percent of the move, and the moved price, must fit
/// (past that the market's arithmetic overflows).
pub open spec fn price_move_fits(m: TradingApp, epoch: u64, random: u128, direction: u128) -> bool {
    epoch > m.last_epoch ==> m.current_value * ((random % 10) + 1) <= u64::MAX && moved_price(
        m.current_value,
        random,
        direction,
    ) <= u64::MAX
}

/// Tokens bought by `xrd` at the price `value`: `xrd / value`, rounded up to
/// two decimal places.
pub open spec fn buy_amount(xrd: int, value: u64) -> int {
    ceil_to(div_attos(xrd, value * 1_000_000_000_000_000_000), 10_000_000_000_000_000)
}

/// XRD paid for `tokens` at the price `value`: `tokens * value`, rounded up
/// to two decimal places.
pub open spec fn sell_amount(tokens: int, value: u64) -> int {
    ceil_to(mul_attos(tokens, value * 1_000_000_000_000_000_000), 10_000_000_000_000_000)
}

impl TradingApp {
    /// Prices are positive and pools never negative.
    pub open spec fn wf(&self) -> bool {
        &&& self.current_value > 0
        &&& self.main_pool@ >= 0
        &&& self.token1_pool@ >= 0
        &&& self.token2_pool@ >= 0
        &&& self.token3_pool@ >= 0
    }

    /// The balance of the first token's pool.
    pub fn token1_pool_size(&self) -> (r: Decimal)
        ensures
            r == self.token1_pool,
    {
        self.token1_pool
    }

    /// The resource of the first token's pool.
    pub fn token1_pool_address(&self) -> (r: u64)
        ensures
            r == self.token1,
    {
        self.token1
    }

    /// The balance of the second token's pool.
    pub fn token2_pool_size(&self) -> (r: Decimal)
        ensures
            r == self.token2_pool,
    {
        self.token2_pool
    }

    /// The resource of the second token's pool.
    pub fn token2_pool_address(&self) -> (r: u64)
        ensures
            r == self.token2,
    {
        self.token2
    }

    /// The balance of the third token's pool.
    pub fn token3_pool_size(&self) -> (r: Decimal)
        ensures
            r == self.token3_pool,
    {
        self.token3_pool
    }

    /// The resource of the third token's pool.
    pub fn token3_pool_address(&self) -> (r: u64)
        ensures
            r == self.token3,
    {
        self.token3
    }

    /// The balance of the main (XRD) pool.
    pub fn main_pool_size(&self) -> (r: Decimal)
        ensures
            r == self.main_pool,
    {
        self.main_pool
    }

    /// A market for the four tokens with empty pools, priced at 40 from `epoch`.
    pub fn create_market(main_token: u64, token1: u64, token2: u64, token3: u64, epoch: u64) -> (r:
        TradingApp)
        ensures
            r.wf(),
            r == (TradingApp {
                main_token,
                token1,
                token2,
                token3,
                main_pool: Decimal { attos: 0 },
                token1_pool: Decimal { attos: 0 },
                token2_pool: Decimal { attos: 0 },
                token3_pool: Decimal { attos: 0 },
                last_epoch: epoch,
                current_value: 40,
            }),
    {
        TradingApp {
            main_token,
            token1,
            token2,
            token3,
            main_pool: Decimal::zero(),
            token1_pool: Decimal::zero(),
            token2_pool: Decimal::zero(),
            token3_pool: Decimal::zero(),
            last_epoch: epoch,
            current_value: 40,
        }
    }

    /// Funds all four pools at once.
    pub fn fund_market(&mut self, main: Decimal, t1: Decimal, t2: Decimal, t3: Decimal)
        requires
            old(self).wf(),
            main@ >= 0 && t1@ >= 0 && t2@ >= 0 && t3@ >= 0,
            in_range(old(self).main_pool@ + main@),
            in_range(old(self).token1_pool@ + t1@),
            in_range(old(self).token2_pool@ + t2@),
            in_range(old(self).token3_pool@ + t3@),
        ensures
            final(self).wf(),
            *final(self) == (TradingApp {
                main_pool: Decimal { attos: (old(self).main_pool@ + main@) as i128 },
                token1_pool: Decimal { attos: (old(self).token1_pool@ + t1@) as i128 },
                token2_pool: Decimal { attos: (old(self).token2_pool@ + t2@) as i128 },
                token3_pool: Decimal { attos: (old(self).token3_pool@ + t3@) as i128 },
                ..*old(self)
            }),
    {
        self.main_pool = self.main_pool.add(main);
        self.token1_pool = self.token1_pool.add(t1);
        self.token2_pool = self.token2_pool.add(t2);
        self.token3_pool = self.token3_pool.add(t3);
    }

    /// Funds the main pool only.
    pub fn fund_token1(&mut self, amount: Decimal)
        requires
            old(self).wf(),
            amount@ >= 0,
            in_range(old(self).main_pool@ + amount@),
        ensures
            final(self).wf(),
            *final(self) == (TradingApp {
                main_pool: Decimal { attos: (old(self).main_pool@ + amount@) as i128 },
                ..*old(self)
            }),
    {
        self.main_pool = self.main_pool.add(amount);
    }

    /// Funds the first token pool only.
    pub fn fund_token2(&mut self, amount: Decimal)
        requires
            old(self).wf(),
            amount@ >= 0,
            in_range(old(self).token1_pool@ + amount@),
        ensures
            final(self).wf(),
            *final(self) == (TradingApp {
                token1_pool: Decimal { attos: (old(self).token1_pool@ + amount@) as i128 },
                ..*old(self)
            }),
    {
        self.token1_pool = self.token1_pool.add(amount);
    }

    /// Funds the second token pool only.
    pub fn fund_token3(&mut self, amount: Decimal)
        requires
            old(self).wf(),
            amount@ >= 0,
            in_range(old(self).token2_pool@ + amount@),
        ensures
            final(self).wf(),
            *final(self) == (TradingApp {
                token2_pool: Decimal { attos: (old(self).token2_pool@ + amount@) as i128 },
                ..*old(self)
            }),
    {
        self.token2_pool = self.token2_pool.add(amount);
    }

    /// Funds the third token pool only.
    pub fn fund_token4(&mut self, amount: Decimal)
        requires
            old(self).wf(),
            amount@ >= 0,
            in_range(old(self).token3_pool@ + amount@),
        ensures
            final(self).wf(),
            *final(self) == (TradingApp {
                token3_pool: Decimal { attos: (old(self).token3_pool@ + amount@) as i128 },
                ..*old(self)
            }),
    {
        self.token3_pool = self.token3_pool.add(amount);
    }

    /// Whether moving the price at `epoch` stays within `u64` (see
    /// `price_move_fits`).
    pub fn can_move_price(&self, epoch: u64, random: u128, direction: u128) -> (r: bool)
        ensures
            r == price_move_fits(*self, epoch, random, direction),
    {
        if epoch <= self.last_epoch {
            return true;
        }
        let pct = (random % 10 + 1) as u64;
        let v = self.current_value;
        match v.checked_mul(pct) {
            None => false,
            Some(p) => {
                if direction % 2 == 0 {
                    proof {
                        assert(p / 100 <= v) by (nonlinear_arith)
                            requires
                                p == v * pct,
                                1 <= pct <= 10,
                        ;
                    }
                    true
                } else {
                    v.checked_add(p / 100).is_some()
                }
            },
        }
    }

    /// Moves the price at `epoch` when a new epoch has begun, with the random
    /// numbers `random` (size of the move) and `direction`; returns the price.
    pub fn current_price(&mut self, epoch: u64, random: u128, direction: u128) -> (r: u64)
        requires
            old(self).wf(),
            price_move_fits(*old(self), epoch, random, direction),
        ensures
            final(self).wf(),
            epoch > old(self).last_epoch ==> r == moved_price(old(self).current_value, random, direction)
                && *final(self) == (TradingApp {
                current_value: r,
                last_epoch: epoch,
                ..*old(self)
            }),
            epoch <= old(self).last_epoch ==> r == old(self).current_value && *final(self) == *old(
                self),
            r > 0,
    {
        if epoch > self.last_epoch {
            let pct = (random % 10 + 1) as u64;
            let v = self.current_value;
            proof {
                assert(v * pct / 100 < v) by (nonlinear_arith)
                    requires
                        v > 0,
                        1 <= pct <= 10,
                ;
            }
            if direction % 2 == 0 {
                self.current_value = v - v * pct / 100;
            } else {
                self.current_value = v + v * pct / 100;
            }
            self.last_epoch = epoch;
        }
        self.current_value
    }

    /// Buys from the first token pool with `xrd`, at the current price,
    /// rounded up to two decimal places; returns the tokens bought.
    pub fn buy(&mut self, xrd: Decimal) -> (r: Result<Decimal, TradingError>)
        requires
            old(self).wf(),
            xrd@ >= 0,
            in_range(old(self).main_pool@ + xrd@),
            in_range(buy_amount(xrd@, old(self).current_value)),
        ensures
            final(self).wf(),
            ({
                let n = buy_amount(xrd@, old(self).current_value);
                &&& n > old(self).token1_pool@ <==> r is Err
                &&& r is Err ==> r == Err::<Decimal, TradingError>(
                    TradingError::InsufficientLiquidity,
                ) && *final(self) == *old(self)
                &&& r matches Ok(t) ==> t@ == n && *final(self) == (TradingApp {
                    main_pool: Decimal { attos: (old(self).main_pool@ + xrd@) as i128 },
                    token1_pool: Decimal { attos: (old(self).token1_pool@ - n) as i128 },
                    ..*old(self)
                })
            }),
    {
        let price = Decimal::from_u64(self.current_value);
        proof {
            lemma_div_by_price(xrd@, self.current_value);
        }
        let n = xrd.div(price).round_up_hundredths();
        proof {
            lemma_ceil_nonneg(div_attos(xrd@, self.current_value * 1_000_000_000_000_000_000));
        }
        if n.gt(self.token1_pool) {
            return Err(TradingError::InsufficientLiquidity);
        }
        self.main_pool = self.main_pool.add(xrd);
        self.token1_pool = self.token1_pool.sub(n);
        Ok(n)
    }

    /// Buys `token` with `xrd`: from the first pool at 0.04, the second at
    /// the current price, the third at 10; any other token buys nothing. The
    /// XRD goes to the main pool in every case.
    pub fn buy_generic(&mut self, xrd: Decimal, token: u64) -> (r: Result<Decimal, TradingError>)
        requires
            old(self).wf(),
            xrd@ >= 0,
            in_range(old(self).main_pool@ + xrd@),
            in_range(div_attos(xrd@, 40_000_000_000_000_000)),
        ensures
            final(self).wf(),
            ({
                let o = *old(self);
                let n = if token == o.token1 {
                    div_attos(xrd@, 40_000_000_000_000_000)
                } else if token == o.token2 {
                    div_attos(xrd@, o.current_value * 1_000_000_000_000_000_000)
                } else if token == o.token3 {
                    div_attos(xrd@, 10_000_000_000_000_000_000)
                } else {
                    0
                };
                let pool = if token == o.token1 {
                    o.token1_pool@
                } else if token == o.token2 {
                    o.token2_pool@
                } else if token == o.token3 {
                    o.token3_pool@
                } else {
                    0
                };
                &&& n > pool <==> r is Err
                &&& r is Err ==> r == Err::<Decimal, TradingError>(
                    TradingError::InsufficientLiquidity,
                ) && *final(self) == o
                &&& r matches Ok(t) ==> t@ == n && final(self).main_pool@ == o.main_pool@ + xrd@
                    && final(self).token1_pool@ == o.token1_pool@ - (if token == o.token1 {
                    n
                } else {
                    0
                }) && final(self).token2_pool@ == o.token2_pool@ - (if token != o.token1 && token
                    == o.token2 {
                    n
                } else {
                    0
                }) && final(self).token3_pool@ == o.token3_pool@ - (if token != o.token1 && token
                    != o.token2 && token == o.token3 {
                    n
                } else {
                    0
                }) && final(self).current_value == o.current_value && final(self).last_epoch
                    == o.last_epoch
            }),
    {
        proof {
            lemma_div_by_price(xrd@, self.current_value);
            lemma_div_nonneg_pos(xrd@, 40_000_000_000_000_000);
            lemma_div_nonneg_pos(xrd@, 10_000_000_000_000_000_000);
            lemma_div_smaller(xrd@, 10_000_000_000_000_000_000, 40_000_000_000_000_000);
            lemma_div_smaller(
                xrd@,
                self.current_value * 1_000_000_000_000_000_000,
                40_000_000_000_000_000,
            );
            lemma_div_nonneg_pos(xrd@, self.current_value * 1_000_000_000_000_000_000);
        }
        if token == self.token1 {
            let n = xrd.div(Decimal::new(4, 2));
            if n.gt(self.token1_pool) {
                return Err(TradingError::InsufficientLiquidity);
            }
            self.main_pool = self.main_pool.add(xrd);
            self.token1_pool = self.token1_pool.sub(n);
            Ok(n)
        } else if token == self.token2 {
            let n = xrd.div(Decimal::from_u64(self.current_value));
            if n.gt(self.token2_pool) {
                return Err(TradingError::InsufficientLiquidity);
            }
            self.main_pool = self.main_pool.add(xrd);
            self.token2_pool = self.token2_pool.sub(n);
            Ok(n)
        } else if token == self.token3 {
            let n = xrd.div(Decimal::from_u64(10));
            if n.gt(self.token3_pool) {
                return Err(TradingError::InsufficientLiquidity);
            }
            self.main_pool = self.main_pool.add(xrd);
            self.token3_pool = self.token3_pool.sub(n);
            Ok(n)
        } else {
            self.main_pool = self.main_pool.add(xrd);
            Ok(Decimal::zero())
        }
    }

    /// Sells `tokens` of the first pool for XRD at the price after moving it
    /// for `epoch` (see `current_price`), the XRD rounded up to two decimal
    /// places; returns the XRD paid.
    pub fn sell(&mut self, tokens: Decimal, epoch: u64, random: u128, direction: u128) -> (r: Result<
        Decimal,
        TradingError,
    >)
        requires
            old(self).wf(),
            tokens@ >= 0,
            price_move_fits(*old(self), epoch, random, direction),
            in_range(old(self).token1_pool@ + tokens@),
            ({
                let v = if epoch > old(self).last_epoch {
                    moved_price(old(self).current_value, random, direction)
                } else {
                    old(self).current_value as int
                };
                &&& in_range(mul_attos(tokens@, v * 1_000_000_000_000_000_000))
                &&& in_range(sell_amount(tokens@, v as u64))
            }),
        ensures
            final(self).wf(),
            ({
                let moved = epoch > old(self).last_epoch;
                let v = if moved {
                    moved_price(old(self).current_value, random, direction)
                } else {
                    old(self).current_value as int
                };
                let n = sell_amount(tokens@, v as u64);
                let priced = if moved {
                    (TradingApp { current_value: v as u64, last_epoch: epoch, ..*old(self) })
                } else {
                    *old(self)
                };
                &&& n > old(self).main_pool@ ==> r == Err::<Decimal, TradingError>(
                    TradingError::InsufficientLiquidity,
                ) && *final(self) == *old(self)
                &&& n <= old(self).main_pool@ ==> (r matches Ok(x) && x@ == n && *final(self) == (
                TradingApp {
                    main_pool: Decimal { attos: (old(self).main_pool@ - n) as i128 },
                    token1_pool: Decimal { attos: (old(self).token1_pool@ + tokens@) as i128 },
                    ..priced
                }))
            }),
    {
        let saved = *self;
        let price = self.current_price(epoch, random, direction);
        proof {
            assert(price as int * 1_000_000_000_000_000_000 <= u64::MAX as int
                * 1_000_000_000_000_000_000);
            lemma_mul_nonneg(tokens@, price as int * 1_000_000_000_000_000_000);
            lemma_ceil_nonneg(mul_attos(tokens@, price as int * 1_000_000_000_000_000_000));
        }
        let n = tokens.mul(Decimal::from_u64(price)).round_up_hundredths();
        if n.gt(self.main_pool) {
            *self = saved;
            return Err(TradingError::InsufficientLiquidity);
        }
        self.main_pool = self.main_pool.sub(n);
        self.token1_pool = self.token1_pool.add(tokens);
        Ok(n)
    }
}

proof fn lemma_div_by_price(xrd: int, value: u64)
    requires
        value > 0,
    ensures
        value * 1_000_000_000_000_000_000 > 0,
{
}

proof fn lemma_div_nonneg_pos(a: int, b: int)
    requires
        a >= 0,
        b > 0,
    ensures
        div_attos(a, b) >= 0,
{
    assert(a * 1_000_000_000_000_000_000 >= 0) by (nonlinear_arith)
        requires
            a >= 0,
    ;
    assert((a * 1_000_000_000_000_000_000) / b >= 0) by (nonlinear_arith)
        requires
            a * 1_000_000_000_000_000_000 >= 0,
            b > 0,
    ;
}

proof fn lemma_div_smaller(a: int, big: int, small: int)
    requires
        a >= 0,
        big >= small > 0,
    ensures
        div_attos(a, big) <= div_attos(a, small),
{
    let m = a * 1_000_000_000_000_000_000;
    assert(m >= 0) by (nonlinear_arith)
        requires
            a >= 0,
            m == a * 1_000_000_000_000_000_000,
    ;
    assert(m / big <= m / small) by (nonlinear_arith)
        requires
            m >= 0,
            big >= small > 0,
    ;
}

proof fn lemma_mul_nonneg(a: int, b: int)
    requires
        a >= 0,
        b >= 0,
    ensures
        mul_attos(a, b) >= 0,
{
    assert(a * b >= 0) by (nonlinear_arith)
        requires
            a >= 0,
            b >= 0,
    ;
}

proof fn lemma_ceil_nonneg(a: int)
    requires
        a >= 0,
    ensures
        ceil_to(a, 10_000_000_000_000_000) >= 0,
{
}

/// Prices stay positive: every move keeps a positive price positive.
pub proof fn price_stays_positive(value: u64, random: u128, direction: u128)
    requires
        value > 0,
    ensures
        moved_price(value, random, direction) > 0,
{
    let pct = (random % 10) + 1;
    assert(value * pct / 100 < value) by (nonlinear_arith)
        requires
            value > 0,
            1 <= pct <= 10,
    ;
}

} // verus!
