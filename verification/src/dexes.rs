//! The exchanges Juicy Yields compares for arbitrage, with fixed quotes.
use vstd::prelude::*;
use crate::decimal::Decimal;
use crate::juicy_data::Dex;

verus! {

fn dex(name: &str, token: &str, value: Decimal, swap_fee: Decimal) -> (r: Dex)
    ensures
        r.dex_name@ == name@,
        r.token@ == token@,
        r.value == value,
        r.swap_fee == swap_fee,
{
    Dex { dex_name: name.to_owned(), token: token.to_owned(), value, swap_fee }
}

/// The exchange quotes: Ociswap quotes DPH at 4.53 with a 0.004 swap fee,
/// Caviarswap quotes DPH at 4.28 and XSE at 2.05, each with a 0.005 fee.
pub fn instantiate_dex() -> (r: Vec<Dex>)
    ensures
        r@.len() == 3,
        r@[0].dex_name@ == "Ociswap"@ && r@[0].token@ == "DPH"@ && r@[0].value@
            == 4_530_000_000_000_000_000 && r@[0].swap_fee@ == 4_000_000_000_000_000,
        r@[1].dex_name@ == "Caviarswap"@ && r@[1].token@ == "DPH"@ && r@[1].value@
            == 4_280_000_000_000_000_000 && r@[1].swap_fee@ == 5_000_000_000_000_000,
        r@[2].dex_name@ == "Caviarswap"@ && r@[2].token@ == "XSE"@ && r@[2].value@
            == 2_050_000_000_000_000_000 && r@[2].swap_fee@ == 5_000_000_000_000_000,
{
    let mut d: Vec<Dex> = Vec::new();
    d.push(dex("Ociswap", "DPH", Decimal::new(453, 2), Decimal::new(4, 3)));
    d.push(dex("Caviarswap", "DPH", Decimal::new(428, 2), Decimal::new(5, 3)));
    d.push(dex("Caviarswap", "XSE", Decimal::new(205, 2), Decimal::new(5, 3)));
    d
}

} // verus!
