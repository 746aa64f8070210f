use yield_farming::decimal::Decimal;
use yield_farming::juice::{Juice, JuiceError};

fn d(units: i64) -> Decimal {
    Decimal::from_attos(units as i128 * 1_000_000_000_000_000_000)
}

#[test]
fn juice_fee_pays_a_fifth_in_juice() {
    let mut j = Juice::instantiate_juice(7, 0);
    assert_eq!(j.juice_vault, d(1_000_000_000));
    assert_eq!(j.get_fee(d(10)), Ok(d(2)));
    assert_eq!(j.xrd_vault, d(10));
    assert_eq!(j.withdraw(d(2_000_000_000)), Err(JuiceError::NotEnoughJuice));
    assert_eq!(j.withdraw(d(8)), Ok(d(8)));
    assert_eq!(j.juice_vault, d(999_999_990));
}

#[test]
fn juice_lottery_draws_and_pays_winner() {
    let mut j = Juice::instantiate_juice(7, 0);
    assert_eq!(j.run_lottery(3), Err(JuiceError::NoTickets));
    j.receive_lottery_ticket(d(5), 11);
    j.receive_lottery_ticket(d(5), 12);
    assert_eq!(j.run_lottery(3), Ok(()));
    assert_eq!(j.lottery_winner, 12);
    assert_eq!(j.withdraw_lottery(11), Err(JuiceError::NotTheWinner));
    assert_eq!(j.withdraw_lottery(12), Ok(d(10)));
    assert_eq!(j.lottery_winner, 7);
    assert_eq!(j.lottery_vault, d(0));
}

#[test]
fn juice_payout_every_five_hundred_epochs() {
    let mut j = Juice::instantiate_juice(7, 0);
    j.get_fee(d(100)).unwrap();
    assert_eq!(j.payout_xrd(d(10), 499), d(0));
    let paid = j.payout_xrd(d(10), 500);
    assert_eq!(paid, d(25));
    assert_eq!(j.owner_vault, d(25));
    assert_eq!(j.xrd_vault, d(50));
    assert_eq!(j.reward_epoch, 500);
}
