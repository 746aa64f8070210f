use yield_farming::decimal::Decimal;
use yield_farming::portfolio_app::{OperationHistory, Portfolio, PortfolioError, UserHistory};
use yield_farming::trading_app::{TradingApp, TradingError};

fn d(units: i64) -> Decimal {
    Decimal::from_attos(units as i128 * 1_000_000_000_000_000_000)
}

const XRD: u64 = 1;
const BTC: u64 = 2;
const ETH: u64 = 3;
const LEO: u64 = 4;
const BENEFICIARY: u64 = 20;
const XRD_ADDRESS: &str = "030000000000000000000000000000000000000000000000000004";
const ACCOUNT: &str = "020d3869346218a5e8deaaf2001216dc00fcacb79fb43e30ded79a";

fn portfolio() -> Portfolio {
    Portfolio::new(XRD, BTC, XRD_ADDRESS.to_string())
}

#[test]
fn test_portfolio_app() {
    let mut trading = TradingApp::create_market(XRD, BTC, ETH, LEO, 0);
    trading.fund_token1(d(100));
    trading.fund_token2(d(10));
    assert_eq!(trading.main_pool, d(100));
    assert_eq!(trading.token1_pool, d(10));
    let price = trading.current_price(1, 7, 3);
    assert!(price > 0);
    let mut portfolio = portfolio();
    let funding = portfolio.fund_portfolio(d(10000), 1);
    assert_eq!(funding.xrd_tokens, d(10000));
    assert!(funding.in_progress);
    assert!(portfolio.can_buy(d(100)));
    let bought = trading.buy(d(100)).unwrap();
    let quote = trading.current_price(1, 0, 0);
    assert_eq!(portfolio.buy(d(100), ACCOUNT.to_string(), BTC, bought, quote, 1, 1), Ok(()));
    let ids = portfolio.position();
    assert_eq!(ids, vec![1u128]);
}

#[test]
fn trading_price_moves_once_per_epoch() {
    let mut trading = TradingApp::create_market(XRD, BTC, ETH, LEO, 0);
    assert_eq!(trading.current_price(0, 5, 1), 40);
    assert_eq!(trading.current_price(1, 5, 1), 42);
    assert_eq!(trading.current_price(1, 9, 0), 42);
    assert_eq!(trading.current_price(2, 9, 0), 38);
}

#[test]
fn trading_buy_at_current_price_rounded_up() {
    let mut trading = TradingApp::create_market(XRD, BTC, ETH, LEO, 0);
    trading.fund_token2(d(10));
    assert_eq!(trading.buy(d(100)), Ok(Decimal::new(25, 1)));
    assert_eq!(trading.token1_pool, Decimal::new(75, 1));
    assert_eq!(trading.main_pool, d(100));
    assert_eq!(trading.buy(d(1000)), Err(TradingError::InsufficientLiquidity));
    assert_eq!(trading.buy(d(1)), Ok(Decimal::new(3, 2)));
}

#[test]
fn portfolio_buy_refusals_and_positions() {
    let mut portfolio = portfolio();
    assert_eq!(
        portfolio.buy(d(100), ACCOUNT.to_string(), BTC, d(2), 40, 1, 1),
        Err(PortfolioError::InsufficientXrd)
    );
    portfolio.fund_portfolio(d(100), 1);
    assert!(!portfolio.can_buy(d(101)));
    assert_eq!(portfolio.buy(d(80), ACCOUNT.to_string(), BTC, d(2), 40, 7, 2), Ok(()));
    assert_eq!(portfolio.main_pool, d(20));
    assert_eq!(portfolio.token1_pool, d(2));
    assert_eq!(portfolio.positions[0].num_token_b_received, d(2));
    assert_eq!(portfolio.close_position_amount(7), d(2));
    assert_eq!(portfolio.position(), vec![7u128]);
}

#[test]
fn portfolio_funding_ratio_is_share_of_vault() {
    let mut portfolio = portfolio();
    let first = portfolio.fund_portfolio(d(100), 1);
    assert_eq!(first.funded_ratio, d(100));
    let second = portfolio.fund_portfolio(d(300), 2);
    assert_eq!(second.funded_ratio, d(75));
    assert_eq!(second.total_amount, d(400));
    assert_eq!(portfolio.amount_funded, d(400));
}

fn history() -> OperationHistory {
    OperationHistory {
        username: ACCOUNT.to_string(),
        operation_id: 7,
        xrd_tokens: Decimal::new(15, 1),
        current_price: 42,
        token_a_address: XRD_ADDRESS.to_string(),
        token_b_address: 3,
        num_token_b_received: d(100),
        date_opened: 5,
        date_closed: None,
        current_standing: Some(true),
        number_of_request_for_autoclosing: Some(0),
        current_requestor_for_closing: None,
    }
}

#[test]
fn position_text_joins_fields() {
    let h = history();
    let head = format!("{}|7|", ACCOUNT);
    let tokens = format!("|42|{}|{}|", XRD_ADDRESS, XRD_ADDRESS);
    assert_eq!(h.to_string_with("a", "b"), format!("{}a{}b|5|None|Some(true)|Some(0)|None", head, tokens));
    assert_eq!(h.to_string(), format!("{}1.5{}100|5|None|Some(true)|Some(0)|None", head, tokens));
    let closed = OperationHistory {
        date_closed: Some(1234567890),
        current_standing: None,
        number_of_request_for_autoclosing: None,
        current_requestor_for_closing: Some("ResourceAddress(\"03d1\")".to_string()),
        xrd_tokens: Decimal::new(-25, 2),
        ..history()
    };
    assert_eq!(
        closed.to_string(),
        format!("{}-0.25{}100|5|Some(1234567890)|None|None|Some(ResourceAddress(\"03d1\"))", head, tokens)
    );
}

#[test]
fn portfolio_trades_on_the_market() {
    let mut market = TradingApp::create_market(XRD, BTC, ETH, LEO, 0);
    market.fund_token1(d(100));
    market.fund_token2(d(10));
    let mut portfolio = portfolio();
    portfolio.fund_portfolio(d(10000), 1);
    assert_eq!(portfolio.buy_on_market(d(20000), ACCOUNT.to_string(), BTC, &mut market, 7, 0, 5, 1), Err(PortfolioError::InsufficientXrd));
    assert_eq!(portfolio.buy_on_market(d(100), ACCOUNT.to_string(), BTC, &mut market, 7, 0, 5, 1), Ok(()));
    assert_eq!(market.main_pool, d(200));
    assert_eq!(market.token1_pool, Decimal::new(75, 1));
    assert_eq!(portfolio.main_pool, d(9900));
    assert_eq!(portfolio.token1_pool, Decimal::new(25, 1));
    assert_eq!(portfolio.positions[0].current_price, 40);
    assert_eq!(portfolio.positions[0].username, ACCOUNT);
    assert_eq!(portfolio.positions[0].token_a_address, XRD_ADDRESS);
    assert_eq!(portfolio.positions[0].num_token_b_received, Decimal::new(25, 1));
    assert_eq!(
        portfolio.buy_on_market(d(1000), ACCOUNT.to_string(), BTC, &mut market, 8, 0, 5, 1),
        Err(PortfolioError::Market(TradingError::InsufficientLiquidity))
    );
    assert_eq!(market.main_pool, d(200));
    // A new epoch moves the price up by 5% to 42 before the sale.
    assert_eq!(portfolio.sell_on_market(d(1), &mut market, 1, 4, 1), Ok(d(42)));
    assert_eq!(market.current_value, 42);
    assert_eq!(market.main_pool, d(158));
    assert_eq!(portfolio.main_pool, d(9942));
    assert_eq!(portfolio.token1_pool, Decimal::new(15, 1));
    assert_eq!(portfolio.close_position(7, &mut market, 1, 0, 0), Err(PortfolioError::InsufficientTokens));
    assert_eq!(portfolio.close_position(99, &mut market, 1, 0, 0), Ok(d(0)));
    assert_eq!(portfolio.sell_on_market(d(-1), &mut market, 1, 0, 0), Err(PortfolioError::NegativeAmount));
}

#[test]
fn trading_pool_readers_report_each_pool() {
    let mut trading = TradingApp::create_market(XRD, BTC, ETH, LEO, 0);
    trading.fund_market(d(1000), d(10), d(20), d(30));
    assert_eq!(trading.main_pool_size(), d(1000));
    assert_eq!(trading.token1_pool_size(), d(10));
    assert_eq!(trading.token2_pool_size(), d(20));
    assert_eq!(trading.token3_pool_size(), d(30));
    assert_eq!(trading.token1_pool_address(), BTC);
    assert_eq!(trading.token2_pool_address(), ETH);
    assert_eq!(trading.token3_pool_address(), LEO);
}

#[test]
fn portfolio_register_starts_a_clean_record() {
    let portfolio = portfolio();
    assert_eq!(
        portfolio.register(BENEFICIARY),
        UserHistory { username: BENEFICIARY, positive_operation: 0, negative_operation: 0, expert: false }
    );
}

#[test]
fn trading_price_bound_only_matters_when_it_moves() {
    let mut trading = TradingApp::create_market(XRD, BTC, ETH, LEO, 5);
    trading.current_value = u64::MAX;
    assert!(trading.can_move_price(5, 9, 1));
    assert_eq!(trading.current_price(5, 9, 1), u64::MAX);
    assert!(!trading.can_move_price(6, 0, 1));
    assert!(!trading.can_move_price(6, 1, 0));
    assert!(trading.can_move_price(6, 0, 0));
    trading.current_value = u64::MAX / 2;
    assert!(!trading.can_move_price(6, 9, 0));
    assert!(trading.can_move_price(6, 0, 1));
    assert!(trading.can_move_price(6, 0, 0));
    assert_eq!(trading.current_price(6, 0, 0), u64::MAX / 2 - u64::MAX / 2 / 100);
}

#[test]
fn position_text_fields_read_back() {
    let h = OperationHistory {
        date_closed: Some(99),
        current_requestor_for_closing: Some("03d1".to_string()),
        xrd_tokens: Decimal::new(-12345, 3),
        ..history()
    };
    let text = h.to_string();
    let f: Vec<&str> = text.split('|').collect();
    assert_eq!(f.len(), 12);
    assert_eq!(f[0], ACCOUNT);
    assert_eq!(f[1].parse::<u128>(), Ok(h.operation_id));
    assert_eq!(f[2], "-12.345");
    assert_eq!(f[3].parse::<u64>(), Ok(h.current_price));
    assert_eq!(f[7].parse::<u64>(), Ok(h.date_opened));
    assert_eq!(f[8], "Some(99)");
    assert_eq!(f[11], "Some(03d1)");
}
