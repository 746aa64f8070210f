//! A pooled portfolio: users fund it with XRD and withdraw their funding
//! scaled by how the whole portfolio (XRD plus the token it holds, valued at
//! the market price) has grown against what was funded.
//!
//! Trades either take the market's answers as arguments or are made on the
//! market itself. A request that fails a check or overflows is refused
//! with an error and leaves the portfolio (and the market) unchanged.
use vstd::prelude::*;
use crate::decimal::{Decimal, in_range, mul_attos, div_attos, decimal_text, lemma_decimal_text_no_bar, lemma_floor_bounds};
use crate::trading_app::{TradingApp, TradingError, moved_price, buy_amount, sell_amount, price_move_fits};
use crate::text::{
    digits,
    bool_text,
    option_text,
    push_text,
    push_digits,
    push_option_number,
    push_option_bool,
    push_option_text,
    no_bar,
    bar_fields,
    join_bar,
    digits_value,
    lemma_digits_read_back,
    lemma_bool_text_no_bar,
    lemma_option_text_no_bar,
    lemma_fields_of_join,
};

verus! {

/// Why the portfolio refused a request.
#[derive(Clone, Copy, Debug, PartialEq, Eq, Structural)]
pub enum PortfolioError {
    /// The main vault does not hold the XRD asked for.
    InsufficientXrd,
    /// The token vault does not hold the tokens asked for.
    InsufficientTokens,
    /// A vault cannot release a negative amount.
    NegativeAmount,
    /// An amount overflows.
    Overflow,
    /// The market refused the trade.
    Market(TradingError),
}

/// A user's trading record.
#[derive(Clone, Copy, Debug, PartialEq, Eq, Structural)]
pub struct UserHistory {
    pub username: u64,
    pub positive_operation: u32,
    pub negative_operation: u32,
    pub expert: bool,
}

/// An open position: what was spent, at which price, and what was received.
/// The account, token A and the requester are held as the text of their
/// addresses (the requester's as its `Debug` form prints it), which is what
/// the position's text shows.
#[derive(Clone, Debug, PartialEq, Eq)]
pub struct OperationHistory {
    pub username: String,
    pub operation_id: u128,
    pub xrd_tokens: Decimal,
    pub current_price: u64,
    pub token_a_address: String,
    pub token_b_address: u64,
    pub num_token_b_received: Decimal,
    pub date_opened: u64,
    pub date_closed: Option<u64>,
    pub current_standing: Option<bool>,
    pub number_of_request_for_autoclosing: Option<u32>,
    pub current_requestor_for_closing: Option<String>,
}

/// What a funding NFT records of one funding.
#[derive(Clone, Copy, Debug, PartialEq, Eq, Structural)]
pub struct UserAccountFundingData {
    pub xrd_tokens: Decimal,
    pub in_progress: bool,
    pub total_amount: Decimal,
    pub funded_ratio: Decimal,
    pub epoch_funded: u64,
}

/// The portfolio's vaults, positions, and the XRD funded so far.
#[derive(Debug)]
pub struct Portfolio {
    pub main_token: u64,
    /// The text of the main token's address, recorded in positions.
    pub main_token_address: String,
    pub token1: u64,
    pub main_pool: Decimal,
    pub token1_pool: Decimal,
    pub positions: Vec<OperationHistory>,
    pub amount_funded: Decimal,
}

/// One hundred, in attos.
pub open spec fn hundred() -> int {
    100_000_000_000_000_000_000
}

/// XRD returned for a funding of `xrd` when the portfolio is worth `total`
/// against `funded` funded: `xrd * (100 + (total / funded * 100 - 100)) / 100`.
pub open spec fn withdraw_amount(xrd: int, total: int, funded: int) -> int {
    let diff_ratio = mul_attos(div_attos(total, funded), hundred()) - hundred();
    div_attos(mul_attos(xrd, hundred() + diff_ratio), hundred())
}

/// Every product and quotient `withdraw_amount` computes fits the range.
pub open spec fn withdraw_defined(xrd: int, total: int, funded: int) -> bool {
    let q = div_attos(total, funded);
    let diff_ratio = mul_attos(q, hundred()) - hundred();
    &&& in_range(q)
    &&& in_range(mul_attos(q, hundred()))
    &&& in_range(diff_ratio)
    &&& in_range(hundred() + diff_ratio)
    &&& in_range(mul_attos(xrd, hundred() + diff_ratio))
    &&& in_range(withdraw_amount(xrd, total, funded))
}

/// The ids of a sequence of positions.
pub open spec fn ids(ps: Seq<OperationHistory>) -> Seq<u128> {
    ps.map_values(|p: OperationHistory| p.operation_id)
}

/// The tokens received by the last position with this id, or zero.
pub open spec fn last_received(ps: Seq<OperationHistory>, id: u128) -> int
    decreases ps.len(),
{
    if ps.len() == 0 {
        0
    } else if ps.last().operation_id == id {
        ps.last().num_token_b_received@
    } else {
        last_received(ps.drop_last(), id)
    }
}

/// The digits of an optional number, if any.
pub open spec fn number_opt(o: Option<u128>) -> Option<Seq<char>> {
    match o {
        Some(n) => Some(digits(n as nat)),
        None => None,
    }
}

/// An optional `u64` widened to `u128`.
pub open spec fn wide(o: Option<u64>) -> Option<u128> {
    match o {
        Some(n) => Some(n as u128),
        None => None,
    }
}

/// The text of a position, given the texts of its two decimals: its
/// fields joined by `|` in this order: user, id, XRD spent, price, the
/// token A address (twice, as the record has always printed it), tokens
/// received, opening date, then the closing date, standing, requests to
/// close and requester, each as `Some(..)` or `None`.
pub open spec fn history_text(h: OperationHistory, xrd_text: Seq<char>, received_text: Seq<char>) -> Seq<char> {
    h.username@ + "|"@ + digits(h.operation_id as nat) + "|"@ + xrd_text + "|"@
        + digits(h.current_price as nat) + "|"@ + h.token_a_address@ + "|"@
        + h.token_a_address@ + "|"@ + received_text + "|"@ + digits(
        h.date_opened as nat,
    ) + "|"@ + option_text(number_opt(wide(h.date_closed))) + "|"@ + option_text(
        match h.current_standing {
            Some(b) => Some(bool_text(b)),
            None => None,
        },
    ) + "|"@ + option_text(
        number_opt(
            match h.number_of_request_for_autoclosing {
                Some(n) => Some(n as u128),
                None => None,
            },
        ),
    ) + "|"@ + option_text(
        match h.current_requestor_for_closing {
            Some(t) => Some(t@),
            None => None,
        },
    )
}

/// Whether `s` can be the text of an address: the texts Scrypto writes for
/// addresses (hex or Bech32m characters, and the `Debug` form's name and
/// brackets around them) never hold a `|`.
pub open spec fn is_address_text(s: Seq<char>) -> bool {
    no_bar(s)
}

impl OperationHistory {
    /// The addresses the position holds are address texts.
    pub open spec fn wf(&self) -> bool {
        &&& is_address_text(self.username@)
        &&& is_address_text(self.token_a_address@)
        &&& self.current_requestor_for_closing matches Some(t) ==> is_address_text(t@)
    }
}

/// The twelve fields of a position's text (see `history_text`), given the
/// texts of its two decimals.
pub open spec fn history_fields(h: OperationHistory, xrd_text: Seq<char>, received_text: Seq<char>) -> Seq<
    Seq<char>,
> {
    seq![
        h.username@,
        digits(h.operation_id as nat),
        xrd_text,
        digits(h.current_price as nat),
        h.token_a_address@,
        h.token_a_address@,
        received_text,
        digits(h.date_opened as nat),
        option_text(number_opt(wide(h.date_closed))),
        option_text(
            match h.current_standing {
                Some(b) => Some(bool_text(b)),
                None => None,
            },
        ),
        option_text(
            number_opt(
                match h.number_of_request_for_autoclosing {
                    Some(n) => Some(n as u128),
                    None => None,
                },
            ),
        ),
        option_text(
            match h.current_requestor_for_closing {
                Some(t) => Some(t@),
                None => None,
            },
        ),
    ]
}

proof fn lemma_join_step(f: Seq<Seq<char>>, k: int)
    requires
        1 <= k < f.len(),
    ensures
        join_bar(f.take(k + 1)) == join_bar(f.take(k)) + "|"@ + f[k],
{
    assert(f.take(k + 1).drop_last() =~= f.take(k));
    assert(f.take(k + 1).last() == f[k]);
}

proof fn lemma_history_is_join(h: OperationHistory, x: Seq<char>, r: Seq<char>)
    ensures
        history_text(h, x, r) == join_bar(history_fields(h, x, r)),
{
    let f = history_fields(h, x, r);
    assert(join_bar(f.take(1)) == f[0]) by {
        assert(f.take(1) =~= seq![f[0]]);
    }
    lemma_join_step(f, 1);
    lemma_join_step(f, 2);
    lemma_join_step(f, 3);
    lemma_join_step(f, 4);
    lemma_join_step(f, 5);
    lemma_join_step(f, 6);
    lemma_join_step(f, 7);
    lemma_join_step(f, 8);
    lemma_join_step(f, 9);
    lemma_join_step(f, 10);
    lemma_join_step(f, 11);
    assert(f.take(12) =~= f);
}

/// A position's text splits at its `|` into its twelve fields, in order
/// (eleven separators), and its id, price and opening date read back from
/// theirs.
pub proof fn position_text_reads_back(h: OperationHistory)
    requires
        h.wf(),
    ensures
        ({
            let x = decimal_text(h.xrd_tokens@);
            let r = decimal_text(h.num_token_b_received@);
            let f = bar_fields(history_text(h, x, r));
            &&& f == history_fields(h, x, r)
            &&& f.len() == 12
            &&& digits_value(f[1]) == Some(h.operation_id as nat)
            &&& digits_value(f[3]) == Some(h.current_price as nat)
            &&& digits_value(f[7]) == Some(h.date_opened as nat)
        }),
{
    let x = decimal_text(h.xrd_tokens@);
    let r = decimal_text(h.num_token_b_received@);
    let f = history_fields(h, x, r);
    lemma_decimal_text_no_bar(h.xrd_tokens@);
    lemma_decimal_text_no_bar(h.num_token_b_received@);
    lemma_digits_read_back(h.operation_id as nat);
    lemma_digits_read_back(h.current_price as nat);
    lemma_digits_read_back(h.date_opened as nat);
    match h.date_closed {
        Some(d) => lemma_digits_read_back(d as nat),
        None => {},
    }
    match h.number_of_request_for_autoclosing {
        Some(n) => lemma_digits_read_back(n as nat),
        None => {},
    }
    match h.current_standing {
        Some(b) => lemma_bool_text_no_bar(b),
        None => {},
    }
    lemma_option_text_no_bar(number_opt(wide(h.date_closed)));
    lemma_option_text_no_bar(
        match h.current_standing {
            Some(b) => Some(bool_text(b)),
            None => None,
        },
    );
    lemma_option_text_no_bar(
        number_opt(
            match h.number_of_request_for_autoclosing {
                Some(n) => Some(n as u128),
                None => None,
            },
        ),
    );
    lemma_option_text_no_bar(
        match h.current_requestor_for_closing {
            Some(t) => Some(t@),
            None => None,
        },
    );
    assert forall|i: int| 0 <= i < f.len() implies no_bar(#[trigger] f[i]) by {}
    lemma_history_is_join(h, x, r);
    lemma_fields_of_join(f);
}

/// `h` is the position opened for the account `user` under `operation_id`:
/// `xrd` spent at the price `price`, token A reading `token_a`, token B
/// `token_b`, the tokens received being `xrd / price`, opened at `epoch`
/// and not yet closed, judged or asked to close.
pub open spec fn opened_position(
    h: OperationHistory,
    user: Seq<char>,
    operation_id: u128,
    xrd: Decimal,
    price: u64,
    token_a: Seq<char>,
    token_b: u64,
    epoch: u64,
) -> bool {
    &&& h.username@ == user
    &&& h.operation_id == operation_id
    &&& h.xrd_tokens == xrd
    &&& h.current_price == price
    &&& h.token_a_address@ == token_a
    &&& h.token_b_address == token_b
    &&& h.num_token_b_received@ == div_attos(xrd@, price * 1_000_000_000_000_000_000)
    &&& h.date_opened == epoch
    &&& h.date_closed is None
    &&& h.current_standing is None
    &&& h.number_of_request_for_autoclosing is None
    &&& h.current_requestor_for_closing is None
}

fn widen(o: Option<u64>) -> (r: Option<u128>)
    ensures
        r == wide(o),
{
    match o {
        Some(n) => Some(n as u128),
        None => None,
    }
}

impl OperationHistory {
    /// The position's text (see `history_text`), with the XRD spent and the
    /// tokens received written as `xrd_text` and `received_text`.
    pub fn to_string_with(&self, xrd_text: &str, received_text: &str) -> (r: String)
        ensures
            r@ == history_text(*self, xrd_text@, received_text@),
    {
        let mut s = String::new();
        push_text(&mut s, self.username.as_str());
        assert(s@ =~= self.username@);
        push_text(&mut s, "|");
        push_digits(&mut s, self.operation_id);
        push_text(&mut s, "|");
        push_text(&mut s, xrd_text);
        push_text(&mut s, "|");
        push_digits(&mut s, self.current_price as u128);
        push_text(&mut s, "|");
        push_text(&mut s, self.token_a_address.as_str());
        push_text(&mut s, "|");
        push_text(&mut s, self.token_a_address.as_str());
        push_text(&mut s, "|");
        push_text(&mut s, received_text);
        push_text(&mut s, "|");
        push_digits(&mut s, self.date_opened as u128);
        push_text(&mut s, "|");
        push_option_number(&mut s, widen(self.date_closed));
        push_text(&mut s, "|");
        push_option_bool(&mut s, self.current_standing);
        push_text(&mut s, "|");
        let requests: Option<u128> = match self.number_of_request_for_autoclosing {
            Some(n) => Some(n as u128),
            None => None,
        };
        push_option_number(&mut s, requests);
        push_text(&mut s, "|");
        push_option_text(&mut s, &self.current_requestor_for_closing);
        s
    }

    /// The position's text, its decimals written as Scrypto displays them
    /// (see `history_text`).
    pub fn to_string(&self) -> (r: String)
        ensures
            r@ == history_text(
                *self,
                decimal_text(self.xrd_tokens@),
                decimal_text(self.num_token_b_received@),
            ),
    {
        let xrd = self.xrd_tokens.to_text();
        let received = self.num_token_b_received.to_text();
        self.to_string_with(xrd.as_str(), received.as_str())
    }
}

/// The market once asked for its price in `epoch`: a new epoch moves the
/// price (see `moved_price`).
pub open spec fn market_after_price(m: TradingApp, epoch: u64, random: u128, direction: u128) -> TradingApp {
    if epoch > m.last_epoch {
        TradingApp {
            current_value: moved_price(m.current_value, random, direction) as u64,
            last_epoch: epoch,
            ..m
        }
    } else {
        m
    }
}

/// Buying on the market with `xrd` from a main vault of `main` and a token
/// vault of `t1`: the tokens bought, the price then quoted, and the market
/// after; or why the purchase is refused.
pub open spec fn purchase_result(
    main: int,
    t1: int,
    m: TradingApp,
    xrd: int,
    epoch: u64,
    random: u128,
    direction: u128,
) -> Result<(int, u64, TradingApp), PortfolioError> {
    let cv = m.current_value;
    if xrd > main {
        Err(PortfolioError::InsufficientXrd)
    } else if xrd < 0 {
        Err(PortfolioError::NegativeAmount)
    } else if !price_move_fits(m, epoch, random, direction) || !in_range(m.main_pool@ + xrd) || !in_range(
        div_attos(xrd, cv * 1_000_000_000_000_000_000),
    ) || !in_range(buy_amount(xrd, cv)) {
        Err(PortfolioError::Overflow)
    } else {
        let n = buy_amount(xrd, cv);
        if n > m.token1_pool@ {
            Err(PortfolioError::Market(TradingError::InsufficientLiquidity))
        } else {
            let m1 = TradingApp {
                main_pool: Decimal { attos: (m.main_pool@ + xrd) as i128 },
                token1_pool: Decimal { attos: (m.token1_pool@ - n) as i128 },
                ..m
            };
            let m2 = market_after_price(m1, epoch, random, direction);
            let p = m2.current_value;
            if !in_range(t1 + n) || !in_range(div_attos(xrd, p * 1_000_000_000_000_000_000)) {
                Err(PortfolioError::Overflow)
            } else {
                Ok((n, p, m2))
            }
        }
    }
}

/// Selling `tokens` on the market from a main vault of `main` and a token
/// vault of `t1`: the XRD received and the market after; or why the sale
/// is refused.
pub open spec fn sale_result(
    main: int,
    t1: int,
    m: TradingApp,
    tokens: int,
    epoch: u64,
    random: u128,
    direction: u128,
) -> Result<(int, TradingApp), PortfolioError> {
    if tokens < 0 {
        Err(PortfolioError::NegativeAmount)
    } else if tokens > t1 {
        Err(PortfolioError::InsufficientTokens)
    } else if !price_move_fits(m, epoch, random, direction) || !in_range(m.token1_pool@ + tokens) {
        Err(PortfolioError::Overflow)
    } else {
        let m1 = market_after_price(m, epoch, random, direction);
        let v = m1.current_value;
        if !in_range(mul_attos(tokens, v * 1_000_000_000_000_000_000)) || !in_range(
            sell_amount(tokens, v),
        ) {
            Err(PortfolioError::Overflow)
        } else {
            let n = sell_amount(tokens, v);
            if n > m.main_pool@ {
                Err(PortfolioError::Market(TradingError::InsufficientLiquidity))
            } else if !in_range(main + n) {
                Err(PortfolioError::Overflow)
            } else {
                Ok(
                    (
                        n,
                        TradingApp {
                            main_pool: Decimal { attos: (m.main_pool@ - n) as i128 },
                            token1_pool: Decimal { attos: (m.token1_pool@ + tokens) as i128 },
                            ..m1
                        },
                    ),
                )
            }
        }
    }
}

/// Whether `a` rounded up to two decimal places fits the decimal range.
fn hundredths_fit(a: Decimal) -> (r: bool)
    requires
        a@ >= 0,
    ensures
        r == in_range(crate::decimal::ceil_to(a@, 10_000_000_000_000_000)),
{
    let rem = a.attos % 10_000_000_000_000_000i128;
    if rem == 0 {
        true
    } else {
        a.attos - rem <= 170141183460469231731687303715884105727i128 - 10_000_000_000_000_000i128
    }
}

proof fn lemma_quotient_nonneg(a: int, b: int)
    requires
        a >= 0,
        b > 0,
    ensures
        div_attos(a, b) >= 0,
{
    assert(a * 1_000_000_000_000_000_000 >= 0) by (nonlinear_arith)
        requires
            a >= 0,
    ;
}

proof fn lemma_product_nonneg(a: int, b: int)
    requires
        a >= 0,
        b >= 0,
    ensures
        mul_attos(a, b) >= 0,
{
    assert(a * b >= 0) by (nonlinear_arith)
        requires
            a >= 0,
            b >= 0,
    ;
}

impl Portfolio {
    /// Vault balances and the amount funded are never negative; the main
    /// token's address and every position are valid.
    pub open spec fn wf(&self) -> bool {
        &&& self.main_pool@ >= 0
        &&& self.token1_pool@ >= 0
        &&& is_address_text(self.main_token_address@)
        &&& forall|i: int| 0 <= i < self.positions@.len() ==> (#[trigger] self.positions@[i]).wf()
    }

    /// An empty portfolio of XRD (`main_token`, whose address reads
    /// `main_token_address`) and one token.
    pub fn new(main_token: u64, token1: u64, main_token_address: String) -> (r: Portfolio)
        requires
            is_address_text(main_token_address@),
        ensures
            r.wf(),
            r.main_token == main_token && r.token1 == token1,
            r.main_token_address == main_token_address,
            r.main_pool@ == 0 && r.token1_pool@ == 0 && r.amount_funded@ == 0,
            r.positions@.len() == 0,
    {
        Portfolio {
            main_token,
            main_token_address,
            token1,
            main_pool: Decimal::zero(),
            token1_pool: Decimal::zero(),
            positions: Vec::new(),
            amount_funded: Decimal::zero(),
        }
    }

    /// The trading record a newly registered account `address` starts with:
    /// no operations yet, not an expert.
    pub fn register(&self, address: u64) -> (r: UserHistory)
        ensures
            r == (UserHistory {
                username: address,
                positive_operation: 0,
                negative_operation: 0,
                expert: false,
            }),
    {
        UserHistory { username: address, positive_operation: 0, negative_operation: 0, expert: false }
    }

    /// Adds `amount` XRD at `epoch`; returns the funding record: the amount,
    /// the vault total after it, and the amount's share of that total in percent.
    pub fn fund_portfolio(&mut self, amount: Decimal, epoch: u64) -> (r: UserAccountFundingData)
        requires
            old(self).wf(),
            amount@ >= 0,
            old(self).main_pool@ + amount@ != 0,
            in_range(old(self).main_pool@ + amount@),
            in_range(old(self).amount_funded@ + amount@),
            in_range(mul_attos(amount@, hundred())),
            in_range(div_attos(mul_attos(amount@, hundred()), old(self).main_pool@ + amount@)),
        ensures
            final(self).wf(),
            final(self).main_pool@ == old(self).main_pool@ + amount@,
            final(self).amount_funded@ == old(self).amount_funded@ + amount@,
            final(self).token1_pool == old(self).token1_pool,
            final(self).positions@ == old(self).positions@,
            r == (UserAccountFundingData {
                xrd_tokens: amount,
                in_progress: true,
                total_amount: final(self).main_pool,
                funded_ratio: Decimal {
                    attos: div_attos(
                        mul_attos(amount@, hundred()),
                        old(self).main_pool@ + amount@,
                    ) as i128,
                },
                epoch_funded: epoch,
            }),
    {
        self.main_pool = self.main_pool.add(amount);
        let total = self.main_pool;
        let ratio = amount.mul(Decimal::from_u64(100)).div(total);
        self.amount_funded = self.amount_funded.add(amount);
        UserAccountFundingData {
            xrd_tokens: amount,
            in_progress: true,
            total_amount: total,
            funded_ratio: ratio,
            epoch_funded: epoch,
        }
    }

    /// The value of the token vault at `price` XRD per token.
    pub fn portfolio_value(&self, price: u64) -> (r: Decimal)
        requires
            in_range(mul_attos(self.token1_pool@, price * 1_000_000_000_000_000_000)),
        ensures
            r@ == mul_attos(self.token1_pool@, price * 1_000_000_000_000_000_000),
    {
        self.token1_pool.mul(Decimal::from_u64(price))
    }

    /// The value of the token vault at `price` plus the XRD vault.
    pub fn portfolio_total_value(&self, price: u64) -> (r: Decimal)
        requires
            in_range(mul_attos(self.token1_pool@, price * 1_000_000_000_000_000_000)),
            in_range(
                mul_attos(self.token1_pool@, price * 1_000_000_000_000_000_000) + self.main_pool@,
            ),
        ensures
            r@ == mul_attos(self.token1_pool@, price * 1_000_000_000_000_000_000)
                + self.main_pool@,
    {
        self.portfolio_value(price).add(self.main_pool)
    }

    /// Withdraws the funding recorded in `data` at `epoch`, with the token
    /// priced at `price`: returns the XRD paid out (see `withdraw_amount`) and
    /// the record, now closed. What is taken off the amount funded is the
    /// vault total recorded at funding time.
    pub fn withdraw_portfolio(&mut self, data: UserAccountFundingData, price: u64, epoch: u64) -> (r:
        Result<(Decimal, UserAccountFundingData), PortfolioError>)
        requires
            old(self).wf(),
            epoch >= data.epoch_funded,
            old(self).amount_funded@ != 0,
            ({
                let value = mul_attos(old(self).token1_pool@, price * 1_000_000_000_000_000_000);
                &&& in_range(value)
                &&& in_range(value + old(self).main_pool@)
                &&& withdraw_defined(
                    data.xrd_tokens@,
                    value + old(self).main_pool@,
                    old(self).amount_funded@,
                )
            }),
            in_range(old(self).amount_funded@ - data.total_amount@),
        ensures
            final(self).wf(),
            ({
                let value = mul_attos(old(self).token1_pool@, price * 1_000_000_000_000_000_000);
                let out = withdraw_amount(
                    data.xrd_tokens@,
                    value + old(self).main_pool@,
                    old(self).amount_funded@,
                );
                &&& out < 0 <==> r == Err::<(Decimal, UserAccountFundingData), PortfolioError>(
                    PortfolioError::NegativeAmount,
                )
                &&& out > old(self).main_pool@ && out >= 0 <==> r == Err::<
                    (Decimal, UserAccountFundingData),
                    PortfolioError,
                >(PortfolioError::InsufficientXrd)
                &&& r is Err ==> final(self).main_pool == old(self).main_pool && final(
                    self).amount_funded == old(self).amount_funded
                &&& r matches Ok(res) ==> res.0@ == out && final(self).main_pool@ == old(
                    self).main_pool@ - out && final(self).amount_funded@ == old(
                    self).amount_funded@ - data.total_amount@ && res.1 == (UserAccountFundingData {
                    in_progress: false,
                    xrd_tokens: Decimal { attos: 0 },
                    total_amount: Decimal { attos: 0 },
                    epoch_funded: epoch,
                    ..data
                })
            }),
            final(self).token1_pool == old(self).token1_pool,
            final(self).positions@ == old(self).positions@,
    {
        let total = self.portfolio_value(price).add(self.main_pool);
        let hundred = Decimal::from_u64(100);
        let diff_ratio = total.div(self.amount_funded).mul(hundred).sub(hundred);
        let out = data.xrd_tokens.mul(hundred.add(diff_ratio)).div(hundred);
        if out.lt(Decimal::zero()) {
            return Err(PortfolioError::NegativeAmount);
        }
        if out.gt(self.main_pool) {
            return Err(PortfolioError::InsufficientXrd);
        }
        self.main_pool = self.main_pool.sub(out);
        self.amount_funded = self.amount_funded.sub(data.total_amount);
        let closed = UserAccountFundingData {
            in_progress: false,
            xrd_tokens: Decimal::zero(),
            total_amount: Decimal::zero(),
            epoch_funded: epoch,
            ..data
        };
        Ok((out, closed))
    }

    /// Whether the main vault holds the `xrd` a buy would spend.
    pub fn can_buy(&self, xrd: Decimal) -> (r: bool)
        ensures
            r == (self.main_pool@ >= xrd@),
    {
        self.main_pool.ge(xrd)
    }

    /// Records a buy of `xrd` XRD for `user`: the market returned `bought`
    /// tokens and quotes `price`; the position records `xrd / price` tokens
    /// received under `operation_id`, opened at `epoch`.
    pub fn buy(
        &mut self,
        xrd: Decimal,
        user: String,
        token_to_buy: u64,
        bought: Decimal,
        price: u64,
        operation_id: u128,
        epoch: u64,
    ) -> (r: Result<(), PortfolioError>)
        requires
            is_address_text(user@),
            old(self).wf(),
            bought@ >= 0,
            price > 0,
            in_range(old(self).token1_pool@ + bought@),
            in_range(div_attos(xrd@, price * 1_000_000_000_000_000_000)),
        ensures
            final(self).wf(),
            xrd@ > old(self).main_pool@ ==> r == Err::<(), PortfolioError>(
                PortfolioError::InsufficientXrd,
            ),
            xrd@ <= old(self).main_pool@ && xrd@ < 0 ==> r == Err::<(), PortfolioError>(
                PortfolioError::NegativeAmount,
            ),
            r is Err ==> final(self).main_pool == old(self).main_pool && final(self).token1_pool
                == old(self).token1_pool && final(self).positions@ == old(self).positions@,
            r is Ok <==> 0 <= xrd@ <= old(self).main_pool@,
            r is Ok ==> final(self).main_pool@ == old(self).main_pool@ - xrd@ && final(
                self).token1_pool@ == old(self).token1_pool@ + bought@ && final(self).positions@.len()
                == old(self).positions@.len() + 1 && final(self).positions@.drop_last()
                == old(self).positions@ && opened_position(
                final(self).positions@.last(),
                user@,
                operation_id,
                xrd,
                price,
                old(self).main_token_address@,
                token_to_buy,
                epoch,
            ),
            final(self).amount_funded == old(self).amount_funded,
    {
        if xrd.gt(self.main_pool) {
            return Err(PortfolioError::InsufficientXrd);
        }
        if xrd.lt(Decimal::zero()) {
            return Err(PortfolioError::NegativeAmount);
        }
        self.main_pool = self.main_pool.sub(xrd);
        self.token1_pool = self.token1_pool.add(bought);
        let how_many = xrd.div(Decimal::from_u64(price));
        let ghost before = self.positions@;
        self.positions.push(
            OperationHistory {
                username: user,
                operation_id,
                xrd_tokens: xrd,
                current_price: price,
                token_a_address: self.main_token_address.clone(),
                token_b_address: token_to_buy,
                num_token_b_received: how_many,
                date_opened: epoch,
                date_closed: None,
                current_standing: None,
                number_of_request_for_autoclosing: None,
                current_requestor_for_closing: None,
            },
        );
        assert(self.positions@.drop_last() =~= before);
        Ok(())
    }

    /// Sells `tokens` from the token vault; the market paid `received` XRD.
    pub fn sell(&mut self, tokens: Decimal, received: Decimal) -> (r: Result<(), PortfolioError>)
        requires
            old(self).wf(),
            received@ >= 0,
            in_range(old(self).main_pool@ + received@),
        ensures
            final(self).wf(),
            tokens@ < 0 <==> r == Err::<(), PortfolioError>(PortfolioError::NegativeAmount),
            tokens@ > old(self).token1_pool@ <==> r == Err::<(), PortfolioError>(
                PortfolioError::InsufficientTokens,
            ),
            r is Ok <==> 0 <= tokens@ <= old(self).token1_pool@,
            r is Err ==> final(self).main_pool == old(self).main_pool && final(self).token1_pool
                == old(self).token1_pool,
            r is Ok ==> final(self).token1_pool@ == old(self).token1_pool@ - tokens@ && final(
                self).main_pool@ == old(self).main_pool@ + received@,
            final(self).positions@ == old(self).positions@,
            final(self).amount_funded == old(self).amount_funded,
    {
        if tokens.lt(Decimal::zero()) {
            return Err(PortfolioError::NegativeAmount);
        }
        if tokens.gt(self.token1_pool) {
            return Err(PortfolioError::InsufficientTokens);
        }
        self.token1_pool = self.token1_pool.sub(tokens);
        self.main_pool = self.main_pool.add(received);
        Ok(())
    }

    /// The ids of the positions listed as losing. The net result is computed
    /// as a wrapping `u64` difference, which is never below zero, so every
    /// position is listed.
    pub fn position(&self) -> (r: Vec<u128>)
        ensures
            r@ == ids(self.positions@),
    {
        let mut out: Vec<u128> = Vec::new();
        let mut i: usize = 0;
        while i < self.positions.len()
            invariant
                0 <= i <= self.positions@.len(),
                out@ == ids(self.positions@.take(i as int)),
            decreases self.positions@.len() - i,
        {
            proof {
                assert(ids(self.positions@.take(i + 1)) =~= ids(self.positions@.take(i as int)).push(
                    self.positions@[i as int].operation_id,
                ));
            }
            out.push(self.positions[i].operation_id);
            i = i + 1;
        }
        proof {
            assert(self.positions@.take(i as int) =~= self.positions@);
        }
        out
    }

    /// The tokens to sell to close the position `operation_id`: those the
    /// last position with that id received, or zero.
    pub fn close_position_amount(&self, operation_id: u128) -> (r: Decimal)
        ensures
            r@ == last_received(self.positions@, operation_id),
    {
        let mut amount = Decimal::zero();
        let mut i: usize = 0;
        while i < self.positions.len()
            invariant
                0 <= i <= self.positions@.len(),
                amount@ == last_received(self.positions@.take(i as int), operation_id),
            decreases self.positions@.len() - i,
        {
            proof {
                assert(self.positions@.take(i + 1).drop_last() =~= self.positions@.take(i as int));
            }
            if self.positions[i].operation_id == operation_id {
                amount = self.positions[i].num_token_b_received;
            }
            i = i + 1;
        }
        proof {
            assert(self.positions@.take(i as int) =~= self.positions@);
        }
        amount
    }

    /// Buys the market's token with `xrd` from the main vault for `user`,
    /// records the position `operation_id` at the price the market then
    /// quotes in `epoch` (moved with `random` and `direction`), and keeps the
    /// tokens bought (see `purchase_result`). Refused, with the portfolio's
    /// vaults and positions and the market unchanged, as `purchase_result`
    /// says.
    pub fn buy_on_market(
        &mut self,
        xrd: Decimal,
        user: String,
        token_to_buy: u64,
        market: &mut TradingApp,
        operation_id: u128,
        epoch: u64,
        random: u128,
        direction: u128,
    ) -> (r: Result<(), PortfolioError>)
        requires
            is_address_text(user@),
            old(self).wf(),
            old(market).wf(),
        ensures
            final(self).wf(),
            final(market).wf(),
            final(self).amount_funded == old(self).amount_funded,
            match purchase_result(
                old(self).main_pool@,
                old(self).token1_pool@,
                *old(market),
                xrd@,
                epoch,
                random,
                direction,
            ) {
                Err(e) => r == Err::<(), PortfolioError>(e) && *final(market) == *old(market)
                    && final(self).main_pool == old(self).main_pool && final(self).token1_pool
                    == old(self).token1_pool && final(self).positions@ == old(self).positions@,
                Ok(x) => r is Ok && *final(market) == x.2 && final(self).main_pool@ == old(
                    self).main_pool@ - xrd@ && final(self).token1_pool@ == old(self).token1_pool@
                    + x.0 && final(self).positions@.len() == old(self).positions@.len() + 1
                    && final(self).positions@.drop_last() == old(self).positions@
                    && opened_position(
                    final(self).positions@.last(),
                    user@,
                    operation_id,
                    xrd,
                    x.1,
                    old(self).main_token_address@,
                    token_to_buy,
                    epoch,
                ),
            },
    {
        if xrd.gt(self.main_pool) {
            return Err(PortfolioError::InsufficientXrd);
        }
        if xrd.lt(Decimal::zero()) {
            return Err(PortfolioError::NegativeAmount);
        }
        let cv = market.current_value;
        if !market.can_move_price(epoch, random, direction) {
            return Err(PortfolioError::Overflow);
        }
        if market.main_pool.checked_add(xrd).is_none() {
            return Err(PortfolioError::Overflow);
        }
        let q = match xrd.checked_div(Decimal::from_u64(cv)) {
            Some(q) => q,
            None => {
                return Err(PortfolioError::Overflow);
            },
        };
        proof {
            lemma_quotient_nonneg(xrd@, cv * 1_000_000_000_000_000_000);
        }
        if !hundredths_fit(q) {
            return Err(PortfolioError::Overflow);
        }
        let saved = *market;
        let bought = match market.buy(xrd) {
            Ok(b) => b,
            Err(e) => {
                return Err(PortfolioError::Market(e));
            },
        };
        let price = market.current_price(epoch, random, direction);
        proof {
            assert(*market == market_after_price(
                TradingApp {
                    main_pool: Decimal { attos: (saved.main_pool@ + xrd@) as i128 },
                    token1_pool: Decimal { attos: (saved.token1_pool@ - bought@) as i128 },
                    ..saved
                },
                epoch,
                random,
                direction,
            ));
        }
        if self.token1_pool.checked_add(bought).is_none() || xrd.checked_div(Decimal::from_u64(price)).is_none() {
            *market = saved;
            return Err(PortfolioError::Overflow);
        }
        proof {
            crate::decimal::lemma_ceil_to_nonneg(q@);
        }
        match self.buy(xrd, user, token_to_buy, bought, price, operation_id, epoch) {
            Ok(_) => Ok(()),
            Err(e) => {
                *market = saved;
                Err(e)
            },
        }
    }

    /// Sells `tokens` from the token vault on the market at the price it
    /// quotes in `epoch` (moved with `random` and `direction`) and keeps the
    /// XRD received, which it returns (see `sale_result`). Refused, with the
    /// portfolio's vaults and the market unchanged, as `sale_result` says.
    pub fn sell_on_market(
        &mut self,
        tokens: Decimal,
        market: &mut TradingApp,
        epoch: u64,
        random: u128,
        direction: u128,
    ) -> (r: Result<Decimal, PortfolioError>)
        requires
            old(self).wf(),
            old(market).wf(),
        ensures
            final(self).wf(),
            final(market).wf(),
            final(self).amount_funded == old(self).amount_funded,
            final(self).positions@ == old(self).positions@,
            match sale_result(
                old(self).main_pool@,
                old(self).token1_pool@,
                *old(market),
                tokens@,
                epoch,
                random,
                direction,
            ) {
                Err(e) => r == Err::<Decimal, PortfolioError>(e) && *final(market) == *old(market)
                    && final(self).main_pool == old(self).main_pool && final(self).token1_pool
                    == old(self).token1_pool,
                Ok(x) => r matches Ok(v) && v@ == x.0 && *final(market) == x.1 && final(
                    self).main_pool@ == old(self).main_pool@ + x.0 && final(self).token1_pool@
                    == old(self).token1_pool@ - tokens@,
            },
    {
        if tokens.lt(Decimal::zero()) {
            return Err(PortfolioError::NegativeAmount);
        }
        if tokens.gt(self.token1_pool) {
            return Err(PortfolioError::InsufficientTokens);
        }
        if !market.can_move_price(epoch, random, direction) {
            return Err(PortfolioError::Overflow);
        }
        if market.token1_pool.checked_add(tokens).is_none() {
            return Err(PortfolioError::Overflow);
        }
        let mut probe = *market;
        let v = probe.current_price(epoch, random, direction);
        assert(probe == market_after_price(*market, epoch, random, direction));
        let prod = match tokens.checked_mul(Decimal::from_u64(v)) {
            Some(p) => p,
            None => {
                return Err(PortfolioError::Overflow);
            },
        };
        proof {
            lemma_product_nonneg(tokens@, v * 1_000_000_000_000_000_000);
        }
        if !hundredths_fit(prod) {
            return Err(PortfolioError::Overflow);
        }
        let saved = *market;
        let received = match market.sell(tokens, epoch, random, direction) {
            Ok(x) => x,
            Err(e) => {
                return Err(PortfolioError::Market(e));
            },
        };
        proof {
            crate::decimal::lemma_ceil_to_nonneg(prod@);
        }
        if self.main_pool.checked_add(received).is_none() {
            *market = saved;
            return Err(PortfolioError::Overflow);
        }
        match self.sell(tokens, received) {
            Ok(_) => Ok(received),
            Err(e) => {
                *market = saved;
                Err(e)
            },
        }
    }

    /// Closes the position `operation_id`: sells on the market the tokens
    /// the last position with that id received (none when there is no such
    /// position), as `sell_on_market` does.
    pub fn close_position(
        &mut self,
        operation_id: u128,
        market: &mut TradingApp,
        epoch: u64,
        random: u128,
        direction: u128,
    ) -> (r: Result<Decimal, PortfolioError>)
        requires
            old(self).wf(),
            old(market).wf(),
        ensures
            final(self).wf(),
            final(market).wf(),
            final(self).amount_funded == old(self).amount_funded,
            final(self).positions@ == old(self).positions@,
            ({
                let tokens = last_received(old(self).positions@, operation_id);
                match sale_result(
                    old(self).main_pool@,
                    old(self).token1_pool@,
                    *old(market),
                    tokens,
                    epoch,
                    random,
                    direction,
                ) {
                    Err(e) => r == Err::<Decimal, PortfolioError>(e) && *final(market) == *old(
                        market) && final(self).main_pool == old(self).main_pool && final(
                        self).token1_pool == old(self).token1_pool,
                    Ok(x) => r matches Ok(v) && v@ == x.0 && *final(market) == x.1 && final(
                        self).main_pool@ == old(self).main_pool@ + x.0 && final(self).token1_pool@
                        == old(self).token1_pool@ - tokens,
                }
            }),
    {
        let amount = self.close_position_amount(operation_id);
        self.sell_on_market(amount, market, epoch, random, direction)
    }
}

/// Withdrawing a funding of `xrd` pays it out scaled by the portfolio's
/// value `total` over the amount funded `funded` (all in attos): the payout
/// times the amount funded never exceeds `xrd * total`, and falls short of
/// it by less than the rounding, so a gain raises the payout and a loss
/// lowers it.
pub proof fn withdrawal_scales_with_value(xrd: int, total: int, funded: int)
    requires
        xrd >= 0,
        total >= 0,
        funded > 0,
    ensures
        withdraw_amount(xrd, total, funded) >= 0,
        withdraw_amount(xrd, total, funded) * funded <= xrd * total,
        xrd * total * 1_000_000_000_000_000_000 < (withdraw_amount(xrd, total, funded) + 2)
            * funded * 1_000_000_000_000_000_000 + xrd * funded,
{
    let d: int = 1_000_000_000_000_000_000;
    let h = hundred();
    assert(h == 100 * d);
    assert(total * d >= 0) by (nonlinear_arith)
        requires
            total >= 0,
            d > 0,
    ;
    lemma_floor_bounds(total * d, funded);
    let q = (total * d) / funded;
    assert(div_attos(total, funded) == q);
    assert(q * h == d * (100 * q)) by (nonlinear_arith)
        requires
            h == 100 * d,
    ;
    assert(q * h >= 0) by (nonlinear_arith)
        requires
            q >= 0,
            h > 0,
    ;
    lemma_floor_bounds(q * h, d);
    vstd::arithmetic::div_mod::lemma_div_multiples_vanish(100 * q, d);
    assert(mul_attos(q, h) == 100 * q);
    let t = xrd * q;
    assert(t >= 0) by (nonlinear_arith)
        requires
            t == xrd * q,
            xrd >= 0,
            q >= 0,
    ;
    assert(xrd * (100 * q) == 100 * t) by (nonlinear_arith)
        requires
            t == xrd * q,
    ;
    lemma_floor_bounds(100 * t, d);
    let a = (100 * t) / d;
    assert(mul_attos(xrd, h + (100 * q - h)) == a);
    assert(a * d >= 0) by (nonlinear_arith)
        requires
            a >= 0,
            d > 0,
    ;
    lemma_floor_bounds(a * d, h);
    let w = (a * d) / h;
    assert(withdraw_amount(xrd, total, funded) == w);
    // w * 100d <= a * d <= 100 t, so w * d <= t.
    assert(w * d <= t) by (nonlinear_arith)
        requires
            w * h <= a * d,
            a * d <= 100 * t,
            h == 100 * d,
    ;
    // t = xrd * q and q * funded <= total * d give w * funded <= xrd * total.
    assert(w * funded <= xrd * total) by (nonlinear_arith)
        requires
            w * d <= t,
            t == xrd * q,
            q * funded <= total * d,
            xrd >= 0,
            funded > 0,
            d > 0,
    ;
    // a * d > 100 t - d and w * h + h > a * d give t < (w + 2) * d.
    assert(t < (w + 2) * d) by (nonlinear_arith)
        requires
            100 * t < a * d + d,
            a * d < w * h + h,
            h == 100 * d,
            d > 0,
    ;
    assert(xrd * total * d <= t * funded + xrd * funded) by (nonlinear_arith)
        requires
            total * d < q * funded + funded,
            t == xrd * q,
            xrd >= 0,
    ;
    assert(t * funded < (w + 2) * funded * d) by (nonlinear_arith)
        requires
            t < (w + 2) * d,
            funded > 0,
    ;
}

} // verus!
