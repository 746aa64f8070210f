//! A Juicy Yields account: the user's XRD wallet, the fees owed to the
//! platform, the JUICE tokens received, and the investments the platform
//! picked for the user's preferences.
//!
//! A request that fails a check or overflows is refused with an
//! error and leaves the account unchanged.
use vstd::prelude::*;
use crate::decimal::{Decimal, in_range, mul_attos};
use crate::juicy_data::{User, LevelChoice, UserPref, Validator, Dex, InvestmentType, Investment};
use crate::validators::instantiate_validators;
use crate::dexes::instantiate_dex;

verus! {

/// Why an account request was refused.
#[derive(Clone, Copy, Debug, PartialEq, Eq, Structural)]
pub enum JYieldsError {
    /// The XRD wallet does not hold the amount asked for.
    NotEnoughXrd,
    /// A vault cannot release a negative amount.
    NegativeAmount,
}

/// A user's account.
#[derive(Debug)]
pub struct JYields {
    pub user_data: User,
    pub xrd_wallet: Decimal,
    pub fee_wallet: Decimal,
    pub juicy_wallet: Decimal,
    pub investment_data: Vec<Investment>,
}

/// The investment type picked for a risk level from the best current
/// returns of staking, lending and arbitrage: a low risk rules out
/// arbitrage, a medium risk rules out lending, staking is the default.
pub open spec fn choose_type(risk: LevelChoice, staking: int, lending: int, arbitrage: int) -> InvestmentType {
    let do_arbitrage = risk != LevelChoice::Low;
    let do_lending = risk != LevelChoice::Medium;
    if do_lending && (lending > arbitrage || !do_arbitrage) && lending > staking {
        InvestmentType::Lending
    } else if do_arbitrage && arbitrage > staking {
        InvestmentType::Arbitrage
    } else {
        InvestmentType::Staking
    }
}

/// The least uptime (in percent, as attos) accepted for a risk level:
/// 99.8 for low, 95 for medium, 80 for high.
pub open spec fn min_uptime(risk: LevelChoice) -> int {
    match risk {
        LevelChoice::Low => 99_800_000_000_000_000_000,
        LevelChoice::Medium => 95_000_000_000_000_000_000,
        LevelChoice::High => 80_000_000_000_000_000_000,
    }
}

/// A validator suits the preferences: it offers every extra the user wants
/// (an extra not wanted is no obstacle) and has the uptime the risk level asks.
pub open spec fn suits(v: Validator, p: UserPref) -> bool {
    &&& (v.does_lottery == p.wants_lottery || !p.wants_lottery)
    &&& (v.does_charity == p.wants_charity || !p.wants_charity)
    &&& (v.does_airdrops == p.wants_airdrops || !p.wants_airdrops)
    &&& v.uptime@ >= min_uptime(p.risk_level)
}

/// The indices of the first `n` validators that suit the preferences.
pub open spec fn preselect(vs: Seq<Validator>, p: UserPref, n: int) -> Seq<usize>
    decreases n,
{
    if n <= 0 {
        Seq::empty()
    } else if suits(vs[n - 1], p) {
        preselect(vs, p, n - 1).push((n - 1) as usize)
    } else {
        preselect(vs, p, n - 1)
    }
}

/// The index the selection settles on among many candidates: the last
/// `i + 1 < n` whose validator (in the full list) has a higher APY than the
/// one before it, or zero.
pub open spec fn climb(vs: Seq<Validator>, n: int) -> int
    decreases n,
{
    if n < 2 {
        0
    } else if vs[n - 1].apy@ > vs[n - 2].apy@ {
        n - 1
    } else {
        climb(vs, n - 1)
    }
}

/// The validator picked: with two or more candidates the climb over the
/// first as many validators of the list, with one the candidate, with none
/// no validator.
pub open spec fn select_spec(vs: Seq<Validator>, p: UserPref) -> Option<usize> {
    let pre = preselect(vs, p, vs.len() as int);
    if pre.len() >= 2 {
        Some(climb(vs, pre.len() as int) as usize)
    } else if pre.len() == 1 {
        Some(pre[0])
    } else {
        None
    }
}

/// An exchange's quote as (token, value, swap fee).
pub open spec fn quote_of(d: Dex) -> (Seq<char>, int, int) {
    (d.token@, d.value@, d.swap_fee@)
}

/// The quotes of a list of exchanges.
pub open spec fn dex_quotes(ds: Seq<Dex>) -> Seq<(Seq<char>, int, int)> {
    ds.map_values(|d: Dex| quote_of(d))
}

/// The values and swap fees of the first `n` quotes for `token`, in order.
pub open spec fn quotes_for(qs: Seq<(Seq<char>, int, int)>, token: Seq<char>, n: int) -> Seq<(int, int)>
    decreases n,
{
    if n <= 0 {
        Seq::empty()
    } else if qs[n - 1].0 == token {
        quotes_for(qs, token, n - 1).push((qs[n - 1].1, qs[n - 1].2))
    } else {
        quotes_for(qs, token, n - 1)
    }
}

/// The indices of the highest and lowest quote as the scan finds them: each
/// step to a higher value moves the high mark there, each step to a lower
/// value moves the low mark there.
pub open spec fn high_low(q: Seq<(int, int)>, n: int) -> (int, int)
    decreases n,
{
    if n < 2 {
        (0, 0)
    } else {
        let hl = high_low(q, n - 1);
        if q[n - 1].0 > q[n - 2].0 {
            (n - 1, hl.1)
        } else if q[n - 1].0 < q[n - 2].0 {
            (hl.0, n - 1)
        } else {
            hl
        }
    }
}

/// The value after fees of `inv` tokens sold at quote `q`.
pub open spec fn net(inv: int, q: (int, int)) -> int {
    mul_attos(inv, q.0 - q.1)
}

/// The profit of buying `inv` worth where it is cheapest and selling where
/// it is dearest, after fees; zero when no two quotes differ.
pub open spec fn arbitrage_profit(q: Seq<(int, int)>, inv: int) -> int {
    let hl = high_low(q, q.len() as int);
    if hl.0 != hl.1 {
        net(inv, q[hl.0]) - net(inv, q[hl.1])
    } else {
        0
    }
}

/// Every product the arbitrage computes fits the decimal range.
pub open spec fn arbitrage_defined(q: Seq<(int, int)>, inv: int) -> bool {
    let hl = high_low(q, q.len() as int);
    hl.0 != hl.1 ==> {
        &&& in_range(q[hl.0].0 - q[hl.0].1)
        &&& in_range(q[hl.1].0 - q[hl.1].1)
        &&& in_range(net(inv, q[hl.0]))
        &&& in_range(net(inv, q[hl.1]))
        &&& in_range(net(inv, q[hl.0]) - net(inv, q[hl.1]))
    }
}

/// The DPH and XSE quotes the platform works with, as (token, value, fee).
pub open spec fn fixed_quotes() -> Seq<(Seq<char>, int, int)> {
    seq![
        ("DPH"@, 4_530_000_000_000_000_000, 4_000_000_000_000_000),
        ("DPH"@, 4_280_000_000_000_000_000, 5_000_000_000_000_000),
        ("XSE"@, 2_050_000_000_000_000_000, 5_000_000_000_000_000),
    ]
}

/// `new` is `old` with one investment of type `t`, value `v` and address
/// `addr` appended.
pub open spec fn appended(old: Seq<Investment>, new: Seq<Investment>, t: InvestmentType, v: int, addr: Seq<char>) -> bool {
    &&& new.len() == old.len() + 1
    &&& forall|i: int| 0 <= i < old.len() ==> new[i] == old[i]
    &&& new[old.len() as int].inv_type == t
    &&& new[old.len() as int].inv_value@ == v
    &&& new[old.len() as int].inv_address@ == addr
}

/// Picks a validator for staking from `vs` as the platform does (see
/// `select_spec`).
pub fn select_validator(vs: &Vec<Validator>, p: UserPref) -> (r: Option<usize>)
    ensures
        r == select_spec(vs@, p),
{
    let mut pre: Vec<usize> = Vec::new();
    let mut i: usize = 0;
    while i < vs.len()
        invariant
            0 <= i <= vs@.len(),
            pre@ == preselect(vs@, p, i as int),
        decreases vs@.len() - i,
    {
        let v = &vs[i];
        let min = match p.risk_level {
            LevelChoice::Low => Decimal::new(998, 1),
            LevelChoice::Medium => Decimal::new(95, 0),
            LevelChoice::High => Decimal::new(80, 0),
        };
        if (v.does_lottery == p.wants_lottery || !p.wants_lottery) && (v.does_charity
            == p.wants_charity || !p.wants_charity) && (v.does_airdrops == p.wants_airdrops
            || !p.wants_airdrops) {
            if v.uptime.ge(min) {
                pre.push(i);
            }
        }
        i = i + 1;
    }
    proof {
        lemma_preselect_len(vs@, p, vs@.len() as int);
    }
    if pre.len() >= 2 {
        let mut select: usize = 0;
        let mut k: usize = 0;
        while k < pre.len()
            invariant
                pre@.len() <= vs@.len(),
                0 <= k <= pre@.len(),
                pre@.len() >= 2,
                select as int == climb(vs@, if k + 1 <= pre@.len() {
                    k + 1
                } else {
                    pre@.len() as int
                }),
            decreases pre@.len() - k,
        {
            if pre.len() > k + 1 {
                if vs[k + 1].apy.gt(vs[k].apy) {
                    select = k + 1;
                }
            }
            k = k + 1;
        }
        Some(select)
    } else if pre.len() == 1 {
        Some(pre[0])
    } else {
        None
    }
}

proof fn lemma_preselect_len(vs: Seq<Validator>, p: UserPref, n: int)
    requires
        0 <= n <= vs.len(),
    ensures
        preselect(vs, p, n).len() <= n,
    decreases n,
{
    if n > 0 {
        lemma_preselect_len(vs, p, n - 1);
    }
}

/// The high and low marks over the first `n` quotes (see `high_low`).
fn scan_high_low(q: &Vec<(Decimal, Decimal)>) -> (r: (usize, usize))
    ensures
        r.0 as int == high_low(pairs_view(q@), q@.len() as int).0,
        r.1 as int == high_low(pairs_view(q@), q@.len() as int).1,
        q@.len() >= 2 ==> r.0 < q@.len() && r.1 < q@.len(),
        q@.len() < 2 ==> r.0 == 0 && r.1 == 0,
{
    let mut high: usize = 0;
    let mut low: usize = 0;
    if q.len() >= 2 {
        let mut i: usize = 0;
        while i < q.len()
            invariant
                q@.len() >= 2,
                0 <= i <= q@.len(),
                high < q@.len() && low < q@.len(),
                (high as int, low as int) == high_low(pairs_view(q@), if i + 1 <= q@.len() {
                    i + 1
                } else {
                    q@.len() as int
                }),
            decreases q@.len() - i,
        {
            if q.len() > i + 1 {
                if q[i + 1].0.gt(q[i].0) {
                    high = i + 1;
                } else if q[i + 1].0.lt(q[i].0) {
                    low = i + 1;
                }
            }
            i = i + 1;
        }
    }
    (high, low)
}

/// A sequence of (value, fee) decimals as integer pairs.
pub open spec fn pairs_view(q: Seq<(Decimal, Decimal)>) -> Seq<(int, int)> {
    q.map_values(|x: (Decimal, Decimal)| (x.0@, x.1@))
}

/// The profit of an arbitrage of `inv` on `token` across `dexes` (see
/// `arbitrage_profit`).
pub fn plan_arbitrage(dexes: &Vec<Dex>, token: &String, inv: Decimal) -> (r: Decimal)
    requires
        arbitrage_defined(quotes_for(dex_quotes(dexes@), token@, dexes@.len() as int), inv@),
    ensures
        r@ == arbitrage_profit(quotes_for(dex_quotes(dexes@), token@, dexes@.len() as int), inv@),
{
    let mut q: Vec<(Decimal, Decimal)> = Vec::new();
    let mut i: usize = 0;
    while i < dexes.len()
        invariant
            0 <= i <= dexes@.len(),
            pairs_view(q@) == quotes_for(dex_quotes(dexes@), token@, i as int),
        decreases dexes@.len() - i,
    {
        let d = &dexes[i];
        proof {
            assert(dex_quotes(dexes@)[i as int] == quote_of(dexes@[i as int]));
        }
        if d.token == *token {
            let ghost before = q@;
            q.push((d.value, d.swap_fee));
            proof {
                assert(pairs_view(q@) =~= pairs_view(before).push((d.value@, d.swap_fee@)));
            }
        }
        i = i + 1;
    }
    let (high, low) = scan_high_low(&q);
    if high != low {
        let ghost qs = pairs_view(q@);
        assert(qs[high as int] == (q@[high as int].0@, q@[high as int].1@));
        assert(qs[low as int] == (q@[low as int].0@, q@[low as int].1@));
        let up = inv.mul(q[high].0.sub(q[high].1));
        let down = inv.mul(q[low].0.sub(q[low].1));
        up.sub(down)
    } else {
        Decimal::zero()
    }
}

impl JYields {
    /// A new account for `name`, with default preferences (low risk and
    /// contribution, no extras), empty wallets but the JUICE given, and no
    /// investments.
    pub fn create_user(name: String, user_address: u64, juice: Decimal) -> (r: JYields)
        ensures
            r.user_data.user_name@ == name@,
            r.user_data.user_address == user_address,
            r.user_data.preferences == (UserPref {
                risk_level: LevelChoice::Low,
                contribution_level: LevelChoice::Low,
                wants_lottery: false,
                wants_charity: false,
                wants_airdrops: false,
            }),
            r.xrd_wallet@ == 0 && r.fee_wallet@ == 0 && r.juicy_wallet == juice,
            r.investment_data@.len() == 0,
    {
        JYields {
            user_data: User {
                user_name: name,
                user_address,
                preferences: UserPref {
                    risk_level: LevelChoice::Low,
                    contribution_level: LevelChoice::Low,
                    wants_lottery: false,
                    wants_charity: false,
                    wants_airdrops: false,
                },
            },
            xrd_wallet: Decimal::zero(),
            fee_wallet: Decimal::zero(),
            juicy_wallet: juice,
            investment_data: Vec::new(),
        }
    }

    /// Replaces the user's preferences.
    pub fn set_preferences(
        &mut self,
        risk_level: LevelChoice,
        contribution_level: LevelChoice,
        wants_lottery: bool,
        wants_charity: bool,
        wants_airdrops: bool,
    )
        ensures
            final(self).user_data.preferences == (UserPref {
                risk_level,
                contribution_level,
                wants_lottery,
                wants_charity,
                wants_airdrops,
            }),
            final(self).user_data.user_name == old(self).user_data.user_name,
            final(self).user_data.user_address == old(self).user_data.user_address,
            final(self).xrd_wallet == old(self).xrd_wallet,
            final(self).fee_wallet == old(self).fee_wallet,
            final(self).juicy_wallet == old(self).juicy_wallet,
            final(self).investment_data@ == old(self).investment_data@,
    {
        self.user_data.preferences = UserPref {
            risk_level,
            contribution_level,
            wants_lottery,
            wants_charity,
            wants_airdrops,
        };
    }

    /// Adds `amount` XRD to the wallet.
    pub fn set_deposit(&mut self, amount: Decimal)
        requires
            in_range(old(self).xrd_wallet@ + amount@),
        ensures
            final(self).xrd_wallet@ == old(self).xrd_wallet@ + amount@,
            final(self).fee_wallet == old(self).fee_wallet,
            final(self).juicy_wallet == old(self).juicy_wallet,
            final(self).investment_data@ == old(self).investment_data@,
            final(self).user_data.preferences == old(self).user_data.preferences,
    {
        self.xrd_wallet = self.xrd_wallet.add(amount);
    }

    /// Moves the fee `inv * fee` from the XRD wallet to the fee wallet and
    /// then takes `inv` less the fee out of the XRD wallet; returns what was
    /// taken. Refused, with nothing moved, when either amount is negative or
    /// exceeds what the wallet holds at that point.
    fn charge_and_take(&mut self, inv: Decimal, fee: Decimal) -> (r: Result<
        Decimal,
        JYieldsError,
    >)
        requires
            in_range(mul_attos(inv@, fee@)),
            in_range(inv@ - mul_attos(inv@, fee@)),
            in_range(old(self).fee_wallet@ + mul_attos(inv@, fee@)),
        ensures
            ({
                let c = mul_attos(inv@, fee@);
                let rest = inv@ - c;
                let w = old(self).xrd_wallet@;
                &&& (c < 0 || rest < 0) <==> r == Err::<Decimal, JYieldsError>(
                    JYieldsError::NegativeAmount,
                )
                &&& (c >= 0 && rest >= 0 && (c > w || rest > w - c)) <==> r == Err::<
                    Decimal,
                    JYieldsError,
                >(JYieldsError::NotEnoughXrd)
                &&& r is Err ==> final(self).xrd_wallet == old(self).xrd_wallet
                    && final(self).fee_wallet == old(self).fee_wallet
                &&& r matches Ok(t) ==> t@ == rest && final(self).xrd_wallet@ == w - c - rest
                    && final(self).fee_wallet@ == old(self).fee_wallet@ + c
            }),
            final(self).juicy_wallet == old(self).juicy_wallet,
            final(self).investment_data@ == old(self).investment_data@,
            final(self).user_data.preferences == old(self).user_data.preferences,
    {
        let c = inv.mul(fee);
        let rest = inv.sub(c);
        if c.lt(Decimal::zero()) || rest.lt(Decimal::zero()) {
            return Err(JYieldsError::NegativeAmount);
        }
        if c.gt(self.xrd_wallet) || rest.gt(self.xrd_wallet.sub(c)) {
            return Err(JYieldsError::NotEnoughXrd);
        }
        self.xrd_wallet = self.xrd_wallet.sub(c).sub(rest);
        self.fee_wallet = self.fee_wallet.add(c);
        Ok(rest)
    }

    /// Buys one lottery ticket for 100 XRD, 5 of which are the fee; records
    /// a lottery investment of 95 and returns the 95 XRD for the ticket.
    pub fn buy_lottery(&mut self) -> (r: Result<Decimal, JYieldsError>)
        requires
            in_range(old(self).fee_wallet@ + 5_000_000_000_000_000_000),
        ensures
            old(self).xrd_wallet@ < 100_000_000_000_000_000_000 <==> r is Err,
            r is Err ==> r == Err::<Decimal, JYieldsError>(JYieldsError::NotEnoughXrd)
                && final(self).xrd_wallet == old(self).xrd_wallet && final(self).fee_wallet == old(
                self).fee_wallet && final(self).investment_data@ == old(self).investment_data@,
            r matches Ok(t) ==> t@ == 95_000_000_000_000_000_000 && final(self).xrd_wallet@ == old(
                self).xrd_wallet@ - 100_000_000_000_000_000_000 && final(self).fee_wallet@ == old(
                self).fee_wallet@ + 5_000_000_000_000_000_000 && appended(
                old(self).investment_data@,
                final(self).investment_data@,
                InvestmentType::Lottery,
                95_000_000_000_000_000_000,
                "Juicy Yields"@,
            ),
            final(self).juicy_wallet == old(self).juicy_wallet,
            final(self).user_data.preferences == old(self).user_data.preferences,
    {
        let price = Decimal::new(100, 0);
        if self.xrd_wallet.lt(price) {
            return Err(JYieldsError::NotEnoughXrd);
        }
        let taken = match self.charge_and_take(price, Decimal::new(5, 2)) {
            Ok(t) => t,
            Err(e) => {
                return Err(e);
            },
        };
        self.investment_data.push(
            Investment {
                inv_address: "Juicy Yields".to_owned(),
                inv_type: InvestmentType::Lottery,
                inv_value: taken,
            },
        );
        Ok(taken)
    }

    /// Stakes `inv` XRD with the validator the preferences select among the
    /// platform's validators, less a fee of 2.5%; records the investment and
    /// returns the XRD staked. The platform's validators always include two
    /// that suit any preferences, so a validator is always found.
    pub fn perform_stake(&mut self, inv: Decimal) -> (r: Result<Decimal, JYieldsError>)
        requires
            in_range(mul_attos(inv@, 25_000_000_000_000_000)),
            in_range(inv@ - mul_attos(inv@, 25_000_000_000_000_000)),
            in_range(old(self).fee_wallet@ + mul_attos(inv@, 25_000_000_000_000_000)),
        ensures
            ({
                let c = mul_attos(inv@, 25_000_000_000_000_000);
                let rest = inv@ - c;
                let w = old(self).xrd_wallet@;
                &&& w < inv@ ==> r == Err::<Decimal, JYieldsError>(JYieldsError::NotEnoughXrd)
                &&& w >= inv@ && (c < 0 || rest < 0) ==> r == Err::<Decimal, JYieldsError>(
                    JYieldsError::NegativeAmount,
                )
                &&& w >= inv@ && c >= 0 && rest >= 0 ==> (r matches Ok(t) && t@ == rest
                    && final(self).xrd_wallet@ == w - inv@ && final(self).fee_wallet@ == old(
                    self).fee_wallet@ + c && appended(
                    old(self).investment_data@,
                    final(self).investment_data@,
                    InvestmentType::Staking,
                    rest,
                    "Best Validator found"@,
                ))
                &&& r is Err ==> final(self).xrd_wallet == old(self).xrd_wallet
                    && final(self).fee_wallet == old(self).fee_wallet
                    && final(self).investment_data@ == old(self).investment_data@
            }),
            final(self).juicy_wallet == old(self).juicy_wallet,
            final(self).user_data.preferences == old(self).user_data.preferences,
    {
        if self.xrd_wallet.lt(inv) {
            return Err(JYieldsError::NotEnoughXrd);
        }
        let validators = instantiate_validators();
        let chosen = select_validator(&validators, self.user_data.preferences);
        proof {
            let p = self.user_data.preferences;
            let vs = validators@;
            assert(suits(vs[2], p));
            assert(suits(vs[3], p));
            reveal_with_fuel(preselect, 6);
            lemma_preselect_len(vs, p, 2);
            assert(preselect(vs, p, 5).len() >= 2) by {
                assert(preselect(vs, p, 3).len() == preselect(vs, p, 2).len() + 1);
                assert(preselect(vs, p, 4).len() == preselect(vs, p, 3).len() + 1);
                if suits(vs[4], p) {
                    assert(preselect(vs, p, 5).len() == preselect(vs, p, 4).len() + 1);
                } else {
                    assert(preselect(vs, p, 5).len() == preselect(vs, p, 4).len());
                }
            }
        }
        if chosen.is_none() {
            return Ok(Decimal::zero());
        }
        let staked = match self.charge_and_take(inv, Decimal::new(25, 3)) {
            Ok(t) => t,
            Err(e) => {
                return Err(e);
            },
        };
        self.investment_data.push(
            Investment {
                inv_address: "Best Validator found".to_owned(),
                inv_value: staked,
                inv_type: InvestmentType::Staking,
            },
        );
        Ok(staked)
    }

    /// Lends `inv` XRD on the platform picked, less a fee of 1.5%; records
    /// the investment and returns the XRD lent.
    pub fn perform_lending(&mut self, inv: Decimal) -> (r: Result<Decimal, JYieldsError>)
        requires
            in_range(mul_attos(inv@, 15_000_000_000_000_000)),
            in_range(inv@ - mul_attos(inv@, 15_000_000_000_000_000)),
            in_range(old(self).fee_wallet@ + mul_attos(inv@, 15_000_000_000_000_000)),
        ensures
            ({
                let c = mul_attos(inv@, 15_000_000_000_000_000);
                let rest = inv@ - c;
                let w = old(self).xrd_wallet@;
                &&& w < inv@ ==> r == Err::<Decimal, JYieldsError>(JYieldsError::NotEnoughXrd)
                &&& w >= inv@ && (c < 0 || rest < 0) ==> r == Err::<Decimal, JYieldsError>(
                    JYieldsError::NegativeAmount,
                )
                &&& w >= inv@ && c >= 0 && rest >= 0 ==> (r matches Ok(t) && t@ == rest
                    && final(self).xrd_wallet@ == w - inv@ && final(self).fee_wallet@ == old(
                    self).fee_wallet@ + c && appended(
                    old(self).investment_data@,
                    final(self).investment_data@,
                    InvestmentType::Lending,
                    rest,
                    "Best lending platform found"@,
                ))
                &&& r is Err ==> final(self).xrd_wallet == old(self).xrd_wallet
                    && final(self).fee_wallet == old(self).fee_wallet
                    && final(self).investment_data@ == old(self).investment_data@
            }),
            final(self).juicy_wallet == old(self).juicy_wallet,
            final(self).user_data.preferences == old(self).user_data.preferences,
    {
        if self.xrd_wallet.lt(inv) {
            return Err(JYieldsError::NotEnoughXrd);
        }
        let lent = match self.charge_and_take(inv, Decimal::new(15, 3)) {
            Ok(t) => t,
            Err(e) => {
                return Err(e);
            },
        };
        self.investment_data.push(
            Investment {
                inv_address: "Best lending platform found".to_owned(),
                inv_value: lent,
                inv_type: InvestmentType::Lending,
            },
        );
        Ok(lent)
    }

    /// Bets `inv` XRD on the bet picked, less a fee of 6%; records the
    /// investment and returns the XRD bet.
    pub fn perform_bet(&mut self, inv: Decimal) -> (r: Result<Decimal, JYieldsError>)
        requires
            in_range(mul_attos(inv@, 60_000_000_000_000_000)),
            in_range(inv@ - mul_attos(inv@, 60_000_000_000_000_000)),
            in_range(old(self).fee_wallet@ + mul_attos(inv@, 60_000_000_000_000_000)),
        ensures
            ({
                let c = mul_attos(inv@, 60_000_000_000_000_000);
                let rest = inv@ - c;
                let w = old(self).xrd_wallet@;
                &&& w < inv@ ==> r == Err::<Decimal, JYieldsError>(JYieldsError::NotEnoughXrd)
                &&& w >= inv@ && (c < 0 || rest < 0) ==> r == Err::<Decimal, JYieldsError>(
                    JYieldsError::NegativeAmount,
                )
                &&& w >= inv@ && c >= 0 && rest >= 0 ==> (r matches Ok(t) && t@ == rest
                    && final(self).xrd_wallet@ == w - inv@ && final(self).fee_wallet@ == old(
                    self).fee_wallet@ + c && appended(
                    old(self).investment_data@,
                    final(self).investment_data@,
                    InvestmentType::Betting,
                    rest,
                    "Delphibets"@,
                ))
                &&& r is Err ==> final(self).xrd_wallet == old(self).xrd_wallet
                    && final(self).fee_wallet == old(self).fee_wallet
                    && final(self).investment_data@ == old(self).investment_data@
            }),
            final(self).juicy_wallet == old(self).juicy_wallet,
            final(self).user_data.preferences == old(self).user_data.preferences,
    {
        if self.xrd_wallet.lt(inv) {
            return Err(JYieldsError::NotEnoughXrd);
        }
        let bet = match self.charge_and_take(inv, Decimal::new(6, 2)) {
            Ok(t) => t,
            Err(e) => {
                return Err(e);
            },
        };
        self.investment_data.push(
            Investment {
                inv_address: "Delphibets".to_owned(),
                inv_value: bet,
                inv_type: InvestmentType::Betting,
            },
        );
        Ok(bet)
    }

    /// Looks for an arbitrage of `inv` XRD on `token` across the platform's
    /// exchanges. When the profit after swap fees is at least 10 XRD, a fee
    /// of 5% of the profit moves to the fee wallet and an arbitrage
    /// investment of `inv` is recorded; returns whether that happened.
    pub fn perform_arbitrage(&mut self, inv: Decimal, token: &String) -> (r: Result<
        bool,
        JYieldsError,
    >)
        requires
            ({
                let q = quotes_for(fixed_quotes(), token@, 3);
                let profit = arbitrage_profit(q, inv@);
                &&& arbitrage_defined(q, inv@)
                &&& in_range(mul_attos(profit, 50_000_000_000_000_000))
                &&& in_range(old(self).fee_wallet@ + mul_attos(profit, 50_000_000_000_000_000))
            }),
        ensures
            ({
                let q = quotes_for(fixed_quotes(), token@, 3);
                let profit = arbitrage_profit(q, inv@);
                let c = mul_attos(profit, 50_000_000_000_000_000);
                let w = old(self).xrd_wallet@;
                let go = profit >= 10_000_000_000_000_000_000;
                &&& w < inv@ ==> r == Err::<bool, JYieldsError>(JYieldsError::NotEnoughXrd)
                &&& w >= inv@ && !go ==> r == Ok::<bool, JYieldsError>(false) && final(
                    self).xrd_wallet == old(self).xrd_wallet && final(self).fee_wallet == old(
                    self).fee_wallet && final(self).investment_data@ == old(
                    self).investment_data@
                &&& w >= inv@ && go && c < 0 ==> r == Err::<bool, JYieldsError>(
                    JYieldsError::NegativeAmount,
                )
                &&& w >= inv@ && go && c > w ==> r == Err::<bool, JYieldsError>(
                    JYieldsError::NotEnoughXrd,
                )
                &&& w >= inv@ && go && 0 <= c <= w ==> (r == Ok::<bool, JYieldsError>(true)
                    && final(self).xrd_wallet@ == w - c && final(self).fee_wallet@ == old(
                    self).fee_wallet@ + c && appended(
                    old(self).investment_data@,
                    final(self).investment_data@,
                    InvestmentType::Arbitrage,
                    inv@,
                    ""@,
                ))
                &&& r is Err ==> final(self).xrd_wallet == old(self).xrd_wallet
                    && final(self).fee_wallet == old(self).fee_wallet
                    && final(self).investment_data@ == old(self).investment_data@
            }),
            final(self).juicy_wallet == old(self).juicy_wallet,
            final(self).user_data.preferences == old(self).user_data.preferences,
    {
        if self.xrd_wallet.lt(inv) {
            return Err(JYieldsError::NotEnoughXrd);
        }
        let all_dex = instantiate_dex();
        proof {
            lemma_fixed_quotes(all_dex@);
        }
        let profit = plan_arbitrage(&all_dex, token, inv);
        if !profit.ge(Decimal::new(10, 0)) {
            return Ok(false);
        }
        let c = profit.mul(Decimal::new(5, 2));
        if c.lt(Decimal::zero()) {
            return Err(JYieldsError::NegativeAmount);
        }
        if c.gt(self.xrd_wallet) {
            return Err(JYieldsError::NotEnoughXrd);
        }
        self.xrd_wallet = self.xrd_wallet.sub(c);
        self.fee_wallet = self.fee_wallet.add(c);
        self.investment_data.push(
            Investment {
                inv_address: "".to_owned(),
                inv_value: inv,
                inv_type: InvestmentType::Arbitrage,
            },
        );
        Ok(true)
    }

    /// Proposes and makes an investment of `inv` XRD for the user's risk
    /// level, with the current best returns: staking 9.75%, lending 7.3%,
    /// arbitrage 5.4%. Staking and lending return the XRD invested; an
    /// arbitrage (on DPH) returns `None`.
    pub fn make_proposal(&mut self, inv: Decimal) -> (r: Result<Option<Decimal>, JYieldsError>)
        requires
            in_range(mul_attos(inv@, 25_000_000_000_000_000)),
            in_range(inv@ - mul_attos(inv@, 25_000_000_000_000_000)),
            in_range(old(self).fee_wallet@ + mul_attos(inv@, 25_000_000_000_000_000)),
        ensures
            ({
                let c = mul_attos(inv@, 25_000_000_000_000_000);
                let rest = inv@ - c;
                let w = old(self).xrd_wallet@;
                &&& w < inv@ ==> r == Err::<Option<Decimal>, JYieldsError>(
                    JYieldsError::NotEnoughXrd,
                )
                &&& w >= inv@ && (c < 0 || rest < 0) ==> r == Err::<
                    Option<Decimal>,
                    JYieldsError,
                >(JYieldsError::NegativeAmount)
                &&& w >= inv@ && c >= 0 && rest >= 0 ==> (r matches Ok(Some(t)) && t@ == rest
                    && final(self).xrd_wallet@ == w - inv@ && final(self).fee_wallet@ == old(
                    self).fee_wallet@ + c && appended(
                    old(self).investment_data@,
                    final(self).investment_data@,
                    InvestmentType::Staking,
                    rest,
                    "Best Validator found"@,
                ))
                &&& r is Err ==> final(self).xrd_wallet == old(self).xrd_wallet
                    && final(self).fee_wallet == old(self).fee_wallet
                    && final(self).investment_data@ == old(self).investment_data@
            }),
            final(self).juicy_wallet == old(self).juicy_wallet,
            final(self).user_data.preferences == old(self).user_data.preferences,
    {
        if self.xrd_wallet.lt(inv) {
            return Err(JYieldsError::NotEnoughXrd);
        }
        let inv_type = choose_investment_type(
            self.user_data.preferences.risk_level,
            Decimal::new(975, 2),
            Decimal::new(73, 1),
            Decimal::new(54, 1),
        );
        // With these rates staking always wins.
        assert(inv_type == InvestmentType::Staking);
        match inv_type {
            InvestmentType::Staking => match self.perform_stake(inv) {
                Ok(t) => Ok(Some(t)),
                Err(e) => Err(e),
            },
            InvestmentType::Lending => match self.perform_lending(inv) {
                Ok(t) => Ok(Some(t)),
                Err(e) => Err(e),
            },
            InvestmentType::Arbitrage => match self.perform_arbitrage(inv, &"DPH".to_owned()) {
                Ok(_) => Ok(None),
                Err(e) => Err(e),
            },
            InvestmentType::Lottery => Ok(None),
            InvestmentType::Betting => Ok(None),
        }
    }

    /// Takes every fee collected.
    pub fn collect_fee(&mut self) -> (r: Decimal)
        ensures
            r == old(self).fee_wallet,
            final(self).fee_wallet@ == 0,
            final(self).xrd_wallet == old(self).xrd_wallet,
            final(self).juicy_wallet == old(self).juicy_wallet,
            final(self).investment_data@ == old(self).investment_data@,
    {
        let fees = self.fee_wallet;
        self.fee_wallet = Decimal::zero();
        fees
    }

    /// Adds JUICE rewards to the JUICE wallet.
    pub fn drop_juice(&mut self, juice: Decimal)
        requires
            in_range(old(self).juicy_wallet@ + juice@),
        ensures
            final(self).juicy_wallet@ == old(self).juicy_wallet@ + juice@,
            final(self).xrd_wallet == old(self).xrd_wallet,
            final(self).fee_wallet == old(self).fee_wallet,
            final(self).investment_data@ == old(self).investment_data@,
    {
        self.juicy_wallet = self.juicy_wallet.add(juice);
    }

    /// Takes every JUICE token out, so that the JUICE component can count them.
    pub fn check_juice_amount(&mut self) -> (r: Decimal)
        ensures
            r == old(self).juicy_wallet,
            final(self).juicy_wallet@ == 0,
            final(self).xrd_wallet == old(self).xrd_wallet,
            final(self).fee_wallet == old(self).fee_wallet,
            final(self).investment_data@ == old(self).investment_data@,
    {
        let juice = self.juicy_wallet;
        self.juicy_wallet = Decimal::zero();
        juice
    }
}

/// Picks the investment type for a risk level and the three best returns
/// (see `choose_type`).
pub fn choose_investment_type(
    risk: LevelChoice,
    staking: Decimal,
    lending: Decimal,
    arbitrage: Decimal,
) -> (r: InvestmentType)
    ensures
        r == choose_type(risk, staking@, lending@, arbitrage@),
{
    let mut do_arbitrage = true;
    let mut do_lending = true;
    match risk {
        LevelChoice::Low => {
            do_arbitrage = false;
        },
        LevelChoice::Medium => {
            do_lending = false;
        },
        LevelChoice::High => {},
    }
    if do_lending && (lending.gt(arbitrage) || !do_arbitrage) && lending.gt(staking) {
        InvestmentType::Lending
    } else if do_arbitrage && arbitrage.gt(staking) {
        InvestmentType::Arbitrage
    } else {
        InvestmentType::Staking
    }
}

proof fn lemma_fixed_quotes(ds: Seq<Dex>)
    requires
        ds.len() == 3,
        ds[0].token@ == "DPH"@ && ds[0].value@ == 4_530_000_000_000_000_000 && ds[0].swap_fee@
            == 4_000_000_000_000_000,
        ds[1].token@ == "DPH"@ && ds[1].value@ == 4_280_000_000_000_000_000 && ds[1].swap_fee@
            == 5_000_000_000_000_000,
        ds[2].token@ == "XSE"@ && ds[2].value@ == 2_050_000_000_000_000_000 && ds[2].swap_fee@
            == 5_000_000_000_000_000,
    ensures
        dex_quotes(ds) == fixed_quotes(),
{
    assert(dex_quotes(ds) =~= fixed_quotes());
}

} // verus!
