use std::str::FromStr;
use rust_decimal::Decimal;
use xtrade::decimal::{format_decimal, format_signed_decimal, Dec};
use xtrade::paper::{OrderSide, PaperError, PaperOrder, PaperPortfolio, PaperPosition, PaperTradingEngine};

fn d(s: &str) -> Dec {
    let x = Decimal::from_str(s).unwrap();
    Dec::from_parts(x.mantissa(), x.scale()).unwrap()
}

fn dd(v: &Dec) -> Decimal {
    Decimal::from_i128_with_scale(v.mantissa(), v.scale())
}

fn dec(s: &str) -> Decimal {
    Decimal::from_str(s).unwrap()
}

#[test]
fn test_paper_position_add() {
    let mut pos = PaperPosition::new("BTCUSDT");

    pos.add(d("0.1"), d("45000")).unwrap();
    assert_eq!(dd(&pos.quantity), dec("0.1"));
    assert_eq!(dd(&pos.avg_cost), dec("45000"));
    assert!(!pos.is_empty());

    pos.add(d("0.2"), d("46000")).unwrap();
    assert_eq!(dd(&pos.quantity), dec("0.3"));
    let expected_avg = (dec("0.1") * dec("45000") + dec("0.2") * dec("46000")) / dec("0.3");
    assert_eq!(dd(&pos.avg_cost), expected_avg);
}

#[test]
fn test_paper_position_reduce() {
    let mut pos = PaperPosition::new("BTCUSDT");

    pos.add(d("0.3"), d("45000")).unwrap();

    let realized = pos.reduce(d("0.1"), d("46000")).unwrap();
    assert_eq!(dd(&realized), dec("100"));
    assert_eq!(dd(&pos.quantity), dec("0.2"));
    assert_eq!(dd(&pos.avg_cost), dec("45000"));

    let realized = pos.reduce(d("0.2"), d("44000")).unwrap();
    assert_eq!(dd(&realized), dec("-200"));
    assert!(pos.is_empty());
}

#[test]
fn test_paper_position_pnl() {
    let mut pos = PaperPosition::new("BTCUSDT");
    pos.add(d("1"), d("45000")).unwrap();

    pos.update_price(d("46000")).unwrap();
    assert_eq!(dd(&pos.unrealized_pnl), dec("1000"));

    pos.update_price(d("44000")).unwrap();
    assert_eq!(dd(&pos.unrealized_pnl), dec("-1000"));
}

#[test]
fn test_paper_portfolio_positions() {
    let mut portfolio = PaperPortfolio::new();

    portfolio.apply_buy("BTCUSDT", d("0.1"), d("45000")).unwrap();

    assert_eq!(portfolio.open_position_count(), 1);
    assert!(portfolio.position("BTCUSDT").is_some());

    portfolio.update_price("BTCUSDT", d("46000")).unwrap();
    let pos = portfolio.position("BTCUSDT").unwrap();
    assert_eq!(dd(&pos.unrealized_pnl), dec("100"));
}

#[test]
fn test_paper_portfolio_order_history() {
    let mut portfolio = PaperPortfolio::new();

    for i in 1..=5u64 {
        let order = PaperOrder::new_filled(
            i,
            "BTCUSDT".to_string(),
            OrderSide::Buy,
            d("0.1"),
            Dec::from_parts((45000 + i * 100) as i128, 0).unwrap(),
        );
        portfolio.add_order(order);
    }

    assert_eq!(portfolio.order_history().len(), 5);

    let recent = portfolio.recent_orders(3);
    assert_eq!(recent.len(), 3);
    assert_eq!(recent[0].id, 5);
    assert_eq!(recent[1].id, 4);
    assert_eq!(recent[2].id, 3);
}

#[test]
fn test_paper_portfolio_reset() {
    let mut portfolio = PaperPortfolio::new();

    portfolio.apply_buy("BTCUSDT", d("0.2"), d("45000")).unwrap();
    portfolio.add_order(PaperOrder::new_filled(
        1,
        "BTCUSDT".to_string(),
        OrderSide::Buy,
        d("0.1"),
        d("45000"),
    ));
    // realize 100: sell 0.1 at 1000 above cost
    portfolio.apply_sell("BTCUSDT", d("0.1"), d("46000")).unwrap();
    assert_eq!(dd(&portfolio.realized_pnl()), dec("100"));

    portfolio.reset();

    assert!(portfolio.positions().is_empty());
    assert!(portfolio.order_history().is_empty());
    assert_eq!(portfolio.next_order_id(), 1);
    assert_eq!(dd(&portfolio.realized_pnl()), Decimal::ZERO);
}

#[test]
fn test_decimal_precision() {
    let a = d("0.1");
    let b = d("0.2");
    let mut pos = PaperPosition::new("X");
    pos.add(a, d("1")).unwrap();
    pos.add(b, d("1")).unwrap();
    assert_eq!(dd(&pos.quantity), dec("0.3"));
}

#[test]
fn test_sell_closes_position() {
    let mut engine = PaperTradingEngine::new();

    engine.buy("BTCUSDT", d("0.1"), d("45000")).unwrap();
    engine.sell("BTCUSDT", d("0.1"), d("44000")).unwrap();

    let position = engine.position("BTCUSDT").unwrap();
    assert!(position.is_empty());

    assert_eq!(dd(&engine.total_realized_pnl()), dec("-100"));
}

#[test]
fn test_price_update_refreshes_pnl() {
    let mut engine = PaperTradingEngine::new();

    engine.buy("BTCUSDT", d("1"), d("45000")).unwrap();
    assert_eq!(dd(&engine.total_unrealized_pnl().unwrap()), dec("0"));

    engine.on_price_update("BTCUSDT", d("46000")).unwrap();
    assert_eq!(dd(&engine.total_unrealized_pnl().unwrap()), dec("1000"));

    engine.on_price_update("BTCUSDT", d("44000")).unwrap();
    assert_eq!(dd(&engine.total_unrealized_pnl().unwrap()), dec("-1000"));
}

#[test]
fn test_order_history() {
    let mut engine = PaperTradingEngine::new();

    engine.buy("BTCUSDT", d("0.1"), d("45000")).unwrap();
    engine.buy("BTCUSDT", d("0.2"), d("46000")).unwrap();
    engine.sell("BTCUSDT", d("0.1"), d("47000")).unwrap();

    assert_eq!(engine.portfolio().order_history().len(), 3);

    let recent = engine.portfolio().recent_orders(2);
    assert_eq!(recent.len(), 2);
    assert_eq!(recent[0].side, OrderSide::Sell);
    assert_eq!(recent[1].side, OrderSide::Buy);
}

#[test]
fn selling_more_than_held_is_capped_at_the_holding() {
    let mut engine = PaperTradingEngine::new();
    engine.buy("BTCUSDT", d("0.1"), d("45000")).unwrap();
    let order = engine.sell("BTCUSDT", d("0.3"), d("46000")).unwrap();
    assert_eq!(dd(&order.quantity), dec("0.1"));
    assert!(engine.position("BTCUSDT").unwrap().is_empty());
    assert_eq!(dd(&engine.total_realized_pnl()), dec("100"));
    assert_eq!(engine.portfolio().order_history().len(), 2);
}

#[test]
fn selling_unknown_symbol_is_refused() {
    let mut engine = PaperTradingEngine::new();
    assert!(engine.sell("ETHUSDT", d("1"), d("3000")).is_err());
}

#[test]
fn non_positive_quantity_is_refused() {
    let mut engine = PaperTradingEngine::new();
    assert!(engine.buy("BTCUSDT", d("0"), d("45000")).is_err());
    assert!(engine.buy("BTCUSDT", d("-1"), d("45000")).is_err());
    assert!(engine.portfolio().order_history().is_empty());
}

#[test]
fn order_ids_increase() {
    let mut engine = PaperTradingEngine::new();
    let a = engine.buy("BTCUSDT", d("1"), d("10")).unwrap();
    let b = engine.buy("BTCUSDT", d("1"), d("12")).unwrap();
    assert_eq!(a.id, 1);
    assert_eq!(b.id, 2);
    let pos = engine.position("BTCUSDT").unwrap();
    assert_eq!(dd(&pos.avg_cost), dec("11"));
    assert_eq!(dd(&pos.market_value().unwrap()), dec("24"));
    assert_eq!(dd(&pos.cost_basis().unwrap()), dec("22"));
}

#[test]
fn order_side_labels() {
    assert_eq!(OrderSide::Buy.label(), "BUY");
    assert_eq!(OrderSide::Sell.label(), "SELL");
}

#[test]
fn decimals_are_rounded_and_written() {
    assert_eq!(format_decimal(d("45000.456"), 2), "45000.46");
    assert_eq!(format_decimal(d("2.5"), 0), "2");
    assert_eq!(format_decimal(d("3.5"), 0), "4");
    assert_eq!(format_decimal(d("-1.005"), 2), "-1.00");
    assert_eq!(format_decimal(d("0.1"), 6), "0.1");
    assert_eq!(format_decimal(d("0.001"), 2), "0.00");
    assert_eq!(format_signed_decimal(d("100"), 2), "+100");
    assert_eq!(format_signed_decimal(d("12.345"), 2), "+12.34");
    assert_eq!(format_signed_decimal(d("-0.5"), 2), "-0.5");
    assert_eq!(format_signed_decimal(d("0"), 2), "0");
}
