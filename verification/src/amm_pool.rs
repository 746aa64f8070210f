//! A constant-product pool of two tokens, X and Y, with LP tokens that
//! track each provider's share.
use vstd::prelude::*;
use crate::decimal::{Decimal, in_range, mul_attos, div_attos, one_attos, tdiv, lemma_floor_bounds};

verus! {

/// Why the pool refused a request.
#[derive(Clone, Copy, Debug, PartialEq, Eq, Structural)]
pub enum PoolError {
    /// The tokens given are neither of the pool's pair.
    WrongToken,
    /// The tokens given are not this pool's LP tokens.
    InvalidLpTokens,
}

/// The balances of a pool: its two reserves and the LP tokens in existence.
/// Tokens are named by resource ids.
#[derive(Clone, Copy, Debug, PartialEq, Eq, Structural)]
pub struct Pool {
    pub x_token: u64,
    pub y_token: u64,
    pub lp_token: u64,
    pub x: Decimal,
    pub y: Decimal,
    pub lp_supply: Decimal,
}

/// Tokens paid out by `swap` for `d_in` tokens into a reserve of `r_in`,
/// drawn from a reserve of `r_out`: `r_out * d_in / (r_in + d_in)`.
pub open spec fn swap_out(r_in: int, r_out: int, d_in: int) -> int {
    div_attos(mul_attos(r_out, d_in), r_in + d_in)
}

/// What adding liquidity takes and mints: the part of X kept, the part of Y
/// kept, and the LP tokens minted.
pub open spec fn add_liquidity_spec(x: int, y: int, supply: int, dx: int, dy: int) -> (int, int, int) {
    if supply == 0 {
        (dx, dy, dx)
    } else {
        let x_ratio = div_attos(dx, x);
        let y_ratio = div_attos(dy, y);
        if x_ratio > y_ratio {
            (mul_attos(x, y_ratio), dy, mul_attos(y_ratio, supply))
        } else {
            (dx, mul_attos(y, x_ratio), mul_attos(x_ratio, supply))
        }
    }
}

proof fn lemma_tdiv_nonneg(a: int, b: int)
    requires
        a >= 0,
        b > 0,
    ensures
        tdiv(a, b) == a / b,
        0 <= a / b,
        (a / b) * b <= a,
{
    assert(0 <= a / b) by (nonlinear_arith)
        requires
            a >= 0,
            b > 0,
    ;
    assert((a / b) * b <= a) by (nonlinear_arith)
        requires
            a >= 0,
            b > 0,
    ;
}

/// The swap output never exceeds the exact ratio: `out * (r_in + d_in) <= r_out * d_in`
/// (both sides in atto units, scaled by 10^18).
proof fn lemma_swap_out_bound(r_in: int, r_out: int, d_in: int)
    requires
        r_in >= 0,
        r_out >= 0,
        d_in >= 0,
        r_in + d_in > 0,
    ensures
        swap_out(r_in, r_out, d_in) >= 0,
        swap_out(r_in, r_out, d_in) * (r_in + d_in) <= r_out * d_in,
        swap_out(r_in, r_out, d_in) <= r_out,
        r_in > 0 && r_out > 0 ==> swap_out(r_in, r_out, d_in) < r_out,
{
    let one = one_attos();
    let s = r_in + d_in;
    assert(r_out * d_in >= 0) by (nonlinear_arith)
        requires
            r_out >= 0,
            d_in >= 0,
    ;
    lemma_tdiv_nonneg(r_out * d_in, one);
    let p = mul_attos(r_out, d_in);
    assert(p * one <= r_out * d_in);
    assert(p * one >= 0) by (nonlinear_arith)
        requires
            p >= 0,
            one > 0,
    ;
    lemma_tdiv_nonneg(p * one, s);
    let q = swap_out(r_in, r_out, d_in);
    assert(q * s <= p * one);
    assert(q * s <= r_out * d_in);
    assert(r_out * d_in <= r_out * s) by (nonlinear_arith)
        requires
            r_out >= 0,
            d_in <= s,
    ;
    assert(q <= r_out) by (nonlinear_arith)
        requires
            q * s <= r_out * s,
            s > 0,
    ;
    if r_in > 0 && r_out > 0 {
        assert(r_out * d_in < r_out * s) by (nonlinear_arith)
            requires
                r_out > 0,
                d_in < s,
        ;
        assert(q < r_out) by (nonlinear_arith)
            requires
                q * s < r_out * s,
                s > 0,
        ;
    }
}

/// For non-negative operands the product is at most the exact product.
proof fn lemma_mul_attos_le(a: int, b: int)
    requires
        a >= 0,
        b >= 0,
    ensures
        0 <= mul_attos(a, b),
        mul_attos(a, b) * one_attos() <= a * b,
{
    assert(a * b >= 0) by (nonlinear_arith)
        requires
            a >= 0,
            b >= 0,
    ;
    lemma_tdiv_nonneg(a * b, one_attos());
}

/// For a non-negative dividend and positive divisor the quotient is at most
/// the exact quotient.
proof fn lemma_div_attos_le(a: int, b: int)
    requires
        a >= 0,
        b > 0,
    ensures
        0 <= div_attos(a, b),
        div_attos(a, b) * b <= a * one_attos(),
{
    assert(a * one_attos() >= 0) by (nonlinear_arith)
        requires
            a >= 0,
    ;
    lemma_tdiv_nonneg(a * one_attos(), b);
}

/// The part of the larger-ratio token that adding liquidity keeps is at most
/// what was offered: `r * (d' / r') <= d` whenever `d' / r' <= d / r`.
proof fn lemma_keep_le(r: int, d: int, ratio_small: int)
    requires
        r > 0,
        d >= 0,
        0 <= ratio_small <= div_attos(d, r),
    ensures
        0 <= mul_attos(r, ratio_small) <= d,
{
    let one = one_attos();
    lemma_div_attos_le(d, r);
    lemma_mul_attos_le(r, ratio_small);
    let m = mul_attos(r, ratio_small);
    let q = div_attos(d, r);
    assert(r * ratio_small <= r * q) by (nonlinear_arith)
        requires
            r > 0,
            ratio_small <= q,
    ;
    assert(m * one <= d * one) by (nonlinear_arith)
        requires
            m * one <= r * ratio_small,
            r * ratio_small <= r * q,
            q * r <= d * one,
    ;
    assert(m <= d) by (nonlinear_arith)
        requires
            m * one <= d * one,
            one > 0,
    ;
}

impl Pool {
    /// Reserves and supply are never negative.
    pub open spec fn wf(&self) -> bool {
        &&& self.x@ >= 0
        &&& self.y@ >= 0
        &&& self.lp_supply@ >= 0
    }

    /// A pool seeded with `x` and `y` tokens; the provider receives as many
    /// LP tokens as X tokens given.
    pub fn new(x_token: u64, y_token: u64, lp_token: u64, x: Decimal, y: Decimal) -> (r: (
        Pool,
        Decimal,
    ))
        requires
            x@ >= 0,
            y@ >= 0,
        ensures
            r.0.wf(),
            r.0.x == x,
            r.0.y == y,
            r.0.lp_supply == x,
            r.1 == x,
            r.0.x_token == x_token && r.0.y_token == y_token && r.0.lp_token == lp_token,
    {
        (Pool { x_token, y_token, lp_token, x, y, lp_supply: x }, x)
    }

    /// The pair of tokens the pool trades.
    pub fn get_pair(&self) -> (r: (u64, u64))
        ensures
            r == (self.x_token, self.y_token),
    {
        (self.x_token, self.y_token)
    }

    /// Swaps `amount` tokens of `token` for the other token of the pair;
    /// returns the tokens paid out, `reserve_out * amount / (reserve_in + amount)`.
    pub fn swap(&mut self, token: u64, amount: Decimal) -> (r: Result<Decimal, PoolError>)
        requires
            old(self).wf(),
            amount@ >= 0,
            token == old(self).x_token ==> old(self).x@ + amount@ > 0 && in_range(
                old(self).x@ + amount@,
            ) && in_range(mul_attos(old(self).y@, amount@)),
            token != old(self).x_token && token == old(self).y_token ==> old(self).y@ + amount@
                > 0 && in_range(old(self).y@ + amount@) && in_range(
                mul_attos(old(self).x@, amount@),
            ),
        ensures
            final(self).wf(),
            token != old(self).x_token && token != old(self).y_token ==> r == Err::<
                Decimal,
                PoolError,
            >(PoolError::WrongToken) && *final(self) == *old(self),
            token == old(self).x_token ==> (r matches Ok(out) && out@ == swap_out(
                old(self).x@,
                old(self).y@,
                amount@,
            ) && final(self).x@ == old(self).x@ + amount@ && final(self).y@ == old(self).y@
                - out@),
            token != old(self).x_token && token == old(self).y_token ==> (r matches Ok(out)
                && out@ == swap_out(old(self).y@, old(self).x@, amount@) && final(self).y@ == old(self).y@ + amount@ && final(self).x@ == old(self).x@ - out@),
            r is Ok ==> final(self).lp_supply == old(self).lp_supply && final(self).x_token == old(self).x_token && final(self).y_token == old(self).y_token && final(self).lp_token == old(self).lp_token,
    {
        if token == self.x_token {
            proof {
                lemma_swap_out_bound(self.x@, self.y@, amount@);
                lemma_mul_attos_le(self.y@, amount@);
                lemma_div_attos_le(mul_attos(self.y@, amount@), self.x@ + amount@);
            }
            let x_after = self.x.add(amount);
            let dy = self.y.mul(amount).div(x_after);
            self.x = x_after;
            self.y = self.y.sub(dy);
            Ok(dy)
        } else if token == self.y_token {
            proof {
                lemma_swap_out_bound(self.y@, self.x@, amount@);
                lemma_mul_attos_le(self.x@, amount@);
                lemma_div_attos_le(mul_attos(self.x@, amount@), self.y@ + amount@);
            }
            let y_after = self.y.add(amount);
            let dx = self.x.mul(amount).div(y_after);
            self.y = y_after;
            self.x = self.x.sub(dx);
            Ok(dx)
        } else {
            Err(PoolError::WrongToken)
        }
    }

    /// Adds liquidity from `dx` X tokens and `dy` Y tokens. Returns the LP
    /// tokens minted and what is given back: when the supply is zero both are
    /// kept and `dx` LP tokens are minted; otherwise only the amounts in the
    /// pool's ratio are kept, the rest of the token offered in excess is
    /// returned, and LP tokens are minted in the smaller of the two ratios.
    /// The returned flag is true when the remainder is in X tokens.
    pub fn add_liquidity(&mut self, dx: Decimal, dy: Decimal) -> (r: (Decimal, Decimal, bool))
        requires
            old(self).wf(),
            dx@ >= 0,
            dy@ >= 0,
            old(self).lp_supply@ != 0 ==> old(self).x@ > 0 && old(self).y@ > 0,
            old(self).lp_supply@ != 0 ==> in_range(div_attos(dx@, old(self).x@)) && in_range(
                div_attos(dy@, old(self).y@),
            ),
            ({
                let a = add_liquidity_spec(
                    old(self).x@,
                    old(self).y@,
                    old(self).lp_supply@,
                    dx@,
                    dy@,
                );
                &&& in_range(old(self).x@ + a.0)
                &&& in_range(old(self).y@ + a.1)
                &&& in_range(a.2)
                &&& in_range(old(self).lp_supply@ + a.2)
            }),
            old(self).lp_supply@ != 0 ==> in_range(
                mul_attos(div_attos(dy@, old(self).y@), old(self).lp_supply@),
            ) && in_range(mul_attos(div_attos(dx@, old(self).x@), old(self).lp_supply@))
                && in_range(mul_attos(old(self).x@, div_attos(dy@, old(self).y@))) && in_range(
                mul_attos(old(self).y@, div_attos(dx@, old(self).x@)),
            ),
        ensures
            final(self).wf(),
            ({
                let a = add_liquidity_spec(
                    old(self).x@,
                    old(self).y@,
                    old(self).lp_supply@,
                    dx@,
                    dy@,
                );
                &&& final(self).x@ == old(self).x@ + a.0
                &&& final(self).y@ == old(self).y@ + a.1
                &&& r.0@ == a.2
                &&& final(self).lp_supply@ == old(self).lp_supply@ + a.2
                &&& r.2 ==> r.1@ == dx@ - a.0 && a.1 == dy@
                &&& !r.2 ==> r.1@ == dy@ - a.1 && a.0 == dx@
                &&& 0 <= a.0 <= dx@
                &&& 0 <= a.1 <= dy@
            }),
            final(self).x_token == old(self).x_token && final(self).y_token == old(self).y_token
                && final(self).lp_token == old(self).lp_token,
    {
        if self.lp_supply.is_zero() {
            self.x = self.x.add(dx);
            self.y = self.y.add(dy);
            self.lp_supply = self.lp_supply.add(dx);
            (dx, Decimal::zero(), true)
        } else {
            let x_ratio = dx.div(self.x);
            let y_ratio = dy.div(self.y);
            proof {
                lemma_div_attos_le(dx@, self.x@);
                lemma_div_attos_le(dy@, self.y@);
                lemma_mul_attos_le(y_ratio@, self.lp_supply@);
                lemma_mul_attos_le(x_ratio@, self.lp_supply@);
            }
            if x_ratio.gt(y_ratio) {
                proof {
                    lemma_keep_le(self.x@, dx@, y_ratio@);
                }
                let keep = self.x.mul(y_ratio);
                let minted = y_ratio.mul(self.lp_supply);
                self.y = self.y.add(dy);
                self.x = self.x.add(keep);
                self.lp_supply = self.lp_supply.add(minted);
                (minted, dx.sub(keep), true)
            } else {
                proof {
                    lemma_keep_le(self.y@, dy@, x_ratio@);
                }
                let keep = self.y.mul(x_ratio);
                let minted = x_ratio.mul(self.lp_supply);
                self.x = self.x.add(dx);
                self.y = self.y.add(keep);
                self.lp_supply = self.lp_supply.add(minted);
                (minted, dy.sub(keep), false)
            }
        }
    }

    /// Burns `amount` LP tokens of `token` for the holder's share of both
    /// reserves; returns the X and Y tokens paid out.
    pub fn remove_liquidity(&mut self, token: u64, amount: Decimal) -> (r: Result<
        (Decimal, Decimal),
        PoolError,
    >)
        requires
            old(self).wf(),
            0 <= amount@ <= old(self).lp_supply@,
            token == old(self).lp_token ==> old(self).lp_supply@ > 0,
        ensures
            final(self).wf(),
            token != old(self).lp_token <==> r is Err,
            r is Err ==> r == Err::<(Decimal, Decimal), PoolError>(PoolError::InvalidLpTokens)
                && *final(self) == *old(self),
            r matches Ok(out) ==> ({
                let ratio = div_attos(amount@, old(self).lp_supply@);
                &&& out.0@ == mul_attos(old(self).x@, ratio)
                &&& out.1@ == mul_attos(old(self).y@, ratio)
                &&& final(self).x@ == old(self).x@ - out.0@
                &&& final(self).y@ == old(self).y@ - out.1@
                &&& final(self).lp_supply@ == old(self).lp_supply@ - amount@
                &&& final(self).x_token == old(self).x_token
                &&& final(self).y_token == old(self).y_token
                &&& final(self).lp_token == old(self).lp_token
            }),
    {
        if token != self.lp_token {
            return Err(PoolError::InvalidLpTokens);
        }
        proof {
            lemma_ratio_le_one(amount@, self.lp_supply@);
        }
        let ratio = amount.div(self.lp_supply);
        proof {
            lemma_share_le(self.x@, ratio@);
            lemma_share_le(self.y@, ratio@);
        }
        let x_out = self.x.mul(ratio);
        let y_out = self.y.mul(ratio);
        self.x = self.x.sub(x_out);
        self.y = self.y.sub(y_out);
        self.lp_supply = self.lp_supply.sub(amount);
        Ok((x_out, y_out))
    }
}

/// A share ratio of at most one: `amount / supply <= 1` when `amount <= supply`.
proof fn lemma_ratio_le_one(amount: int, supply: int)
    requires
        0 <= amount <= supply,
        supply > 0,
    ensures
        0 <= div_attos(amount, supply) <= one_attos(),
{
    let one = one_attos();
    lemma_div_attos_le(amount, supply);
    let q = div_attos(amount, supply);
    assert(amount * one <= supply * one) by (nonlinear_arith)
        requires
            amount <= supply,
            one > 0,
    ;
    assert(q <= one) by (nonlinear_arith)
        requires
            q * supply <= amount * one,
            amount * one <= supply * one,
            supply > 0,
    ;
}

/// Taking a share of at most one of a non-negative reserve gives at most the reserve.
proof fn lemma_share_le(reserve: int, ratio: int)
    requires
        reserve >= 0,
        0 <= ratio <= one_attos(),
    ensures
        0 <= mul_attos(reserve, ratio) <= reserve,
{
    let one = one_attos();
    lemma_mul_attos_le(reserve, ratio);
    let m = mul_attos(reserve, ratio);
    assert(reserve * ratio <= reserve * one) by (nonlinear_arith)
        requires
            reserve >= 0,
            ratio <= one,
    ;
    assert(m <= reserve) by (nonlinear_arith)
        requires
            m * one <= reserve * ratio,
            reserve * ratio <= reserve * one,
            one > 0,
    ;
}

/// A swap never lowers the product of the two reserves, and it always
/// leaves tokens of the paid-out kind in a pool that had some of both.
pub proof fn swap_keeps_product(r_in: int, r_out: int, d_in: int)
    requires
        r_in >= 0,
        r_out >= 0,
        d_in >= 0,
        r_in + d_in > 0,
    ensures
        (r_in + d_in) * (r_out - swap_out(r_in, r_out, d_in)) >= r_in * r_out,
        r_out - swap_out(r_in, r_out, d_in) >= 0,
        r_in > 0 && r_out > 0 ==> r_out - swap_out(r_in, r_out, d_in) > 0,
{
    lemma_swap_out_bound(r_in, r_out, d_in);
    let q = swap_out(r_in, r_out, d_in);
    assert((r_in + d_in) * (r_out - q) == (r_in + d_in) * r_out - q * (r_in + d_in))
        by (nonlinear_arith);
    assert((r_in + d_in) * r_out == r_in * r_out + d_in * r_out) by (nonlinear_arith);
    assert(d_in * r_out == r_out * d_in) by (nonlinear_arith);
}

/// Whether `swap` accepts `amount` of `token` into pool `p`: the token is
/// one of the pair, the amount is not negative, and the reserve it goes
/// into and the product the swap computes fit, with a positive reserve
/// after the deposit.
pub open spec fn can_swap(p: Pool, token: u64, amount: int) -> bool {
    &&& p.wf()
    &&& amount >= 0
    &&& (token == p.x_token || token == p.y_token)
    &&& token == p.x_token ==> p.x@ + amount > 0 && in_range(p.x@ + amount) && in_range(
        mul_attos(p.y@, amount),
    )
    &&& token != p.x_token ==> p.y@ + amount > 0 && in_range(p.y@ + amount) && in_range(
        mul_attos(p.x@, amount),
    )
}

/// The pool after `swap` takes `amount` of `token`, and the tokens it pays
/// out.
pub open spec fn swapped(p: Pool, token: u64, amount: int) -> (Pool, int) {
    if token == p.x_token {
        let out = swap_out(p.x@, p.y@, amount);
        (
            Pool {
                x: Decimal { attos: (p.x@ + amount) as i128 },
                y: Decimal { attos: (p.y@ - out) as i128 },
                ..p
            },
            out,
        )
    } else {
        let out = swap_out(p.y@, p.x@, amount);
        (
            Pool {
                y: Decimal { attos: (p.y@ + amount) as i128 },
                x: Decimal { attos: (p.x@ - out) as i128 },
                ..p
            },
            out,
        )
    }
}

impl Pool {
    /// Swaps as `swap` does when it can (see `can_swap`) and returns the
    /// tokens paid out; otherwise returns `None` and leaves the pool
    /// unchanged.
    pub fn try_swap(&mut self, token: u64, amount: Decimal) -> (r: Option<Decimal>)
        requires
            old(self).wf(),
        ensures
            final(self).wf(),
            r is Some <==> can_swap(*old(self), token, amount@),
            r is None ==> *final(self) == *old(self),
            r matches Some(out) ==> out@ == swapped(*old(self), token, amount@).1 && *final(self)
                == swapped(*old(self), token, amount@).0,
    {
        if amount.lt(Decimal::zero()) {
            return None;
        }
        if token == self.x_token {
            let s = match self.x.checked_add(amount) {
                Some(s) => s,
                None => {
                    return None;
                },
            };
            if !s.gt(Decimal::zero()) || self.y.checked_mul(amount).is_none() {
                return None;
            }
        } else if token == self.y_token {
            let s = match self.y.checked_add(amount) {
                Some(s) => s,
                None => {
                    return None;
                },
            };
            if !s.gt(Decimal::zero()) || self.x.checked_mul(amount).is_none() {
                return None;
            }
        } else {
            return None;
        }
        match self.swap(token, amount) {
            Ok(out) => Some(out),
            Err(_) => None,
        }
    }
}

/// Adding liquidity never raises a provider's share beyond what it leaves
/// in the pool: of the tokens offered, at most `dx` X and `dy` Y are kept,
/// and the LP tokens minted over the supply are at most the X kept over the
/// X reserve and the Y kept over the Y reserve (up to one LP token unit of
/// rounding), so they follow the smaller of the two ratios offered.
pub proof fn add_liquidity_mints_smaller_share(x: int, y: int, supply: int, dx: int, dy: int)
    requires
        x > 0,
        y > 0,
        supply > 0,
        dx >= 0,
        dy >= 0,
    ensures
        ({
            let (kx, ky, minted) = add_liquidity_spec(x, y, supply, dx, dy);
            &&& 0 <= kx <= dx
            &&& 0 <= ky <= dy
            &&& minted >= 0
            &&& minted * x < (kx + 1) * supply
            &&& minted * y < (ky + 1) * supply
        }),
{
    let d: int = 1_000_000_000_000_000_000;
    assert(dx * d >= 0 && dy * d >= 0) by (nonlinear_arith)
        requires
            dx >= 0,
            dy >= 0,
            d > 0,
    ;
    lemma_floor_bounds(dx * d, x);
    lemma_floor_bounds(dy * d, y);
    let rx = (dx * d) / x;
    let ry = (dy * d) / y;
    assert(div_attos(dx, x) == rx && div_attos(dy, y) == ry);
    if rx > ry {
        // Y is the limit: ry <= dy * d / y and ry < rx <= dx * d / x.
        assert(x * ry >= 0 && ry * supply >= 0) by (nonlinear_arith)
            requires
                x > 0,
                ry >= 0,
                supply > 0,
        ;
        lemma_floor_bounds(x * ry, d);
        lemma_floor_bounds(ry * supply, d);
        let kx = (x * ry) / d;
        let m = (ry * supply) / d;
        assert(add_liquidity_spec(x, y, supply, dx, dy) == (kx, dy, m));
        assert(kx <= dx) by (nonlinear_arith)
            requires
                kx * d <= x * ry,
                ry < rx,
                rx * x <= dx * d,
                x > 0,
                d > 0,
        ;
        assert(m * y < (dy + 1) * supply) by (nonlinear_arith)
            requires
                m * d <= ry * supply,
                ry * y <= dy * d,
                y > 0,
                d > 0,
                supply > 0,
        ;
        assert(m * x < (kx + 1) * supply) by (nonlinear_arith)
            requires
                m * d <= ry * supply,
                x * ry < kx * d + d,
                x > 0,
                d > 0,
                supply > 0,
        ;
    } else {
        assert(y * rx >= 0 && rx * supply >= 0) by (nonlinear_arith)
            requires
                y > 0,
                rx >= 0,
                supply > 0,
        ;
        lemma_floor_bounds(y * rx, d);
        lemma_floor_bounds(rx * supply, d);
        let ky = (y * rx) / d;
        let m = (rx * supply) / d;
        assert(add_liquidity_spec(x, y, supply, dx, dy) == (dx, ky, m));
        assert(ky <= dy) by (nonlinear_arith)
            requires
                ky * d <= y * rx,
                rx <= ry,
                ry * y <= dy * d,
                y > 0,
                d > 0,
        ;
        assert(m * x < (dx + 1) * supply) by (nonlinear_arith)
            requires
                m * d <= rx * supply,
                rx * x <= dx * d,
                x > 0,
                d > 0,
                supply > 0,
        ;
        assert(m * y < (ky + 1) * supply) by (nonlinear_arith)
            requires
                m * d <= rx * supply,
                y * rx < ky * d + d,
                y > 0,
                d > 0,
                supply > 0,
        ;
    }
}

} // verus!
