//! The validators Juicy Yields considers for staking, with fixed data.
use vstd::prelude::*;
use crate::decimal::Decimal;
use crate::juicy_data::Validator;

verus! {

fn validator(
    name: &str,
    address: &str,
    apy: Decimal,
    uptime: Decimal,
    fee: Decimal,
    rank: u8,
    does_lottery: bool,
    does_charity: bool,
    does_airdrops: bool,
) -> (r: Validator)
    ensures
        r.val_name@ == name@,
        r.val_address@ == address@,
        r.apy == apy && r.uptime == uptime && r.fee == fee && r.rank == rank,
        r.does_lottery == does_lottery && r.does_charity == does_charity && r.does_airdrops
            == does_airdrops,
{
    Validator {
        val_name: name.to_owned(),
        val_address: address.to_owned(),
        apy,
        uptime,
        fee,
        rank,
        does_lottery,
        does_charity,
        does_airdrops,
    }
}

/// The five validators with their APY, uptime, fee (all in percent), rank
/// and what they do besides staking. The third and fourth carry the same
/// name and data and differ only in address.
pub fn instantiate_validators() -> (r: Vec<Validator>)
    ensures
        r@.len() == 5,
        r@[0].val_name@ == "Validator 1"@ && r@[0].apy@ == 9_520_000_000_000_000_000
            && r@[0].uptime@ == 99_800_000_000_000_000_000 && r@[0].fee@
            == 2_100_000_000_000_000_000 && r@[0].rank == 4 && !r@[0].does_lottery
            && !r@[0].does_charity && r@[0].does_airdrops,
        r@[1].val_name@ == "Validator 2"@ && r@[1].apy@ == 9_590_000_000_000_000_000
            && r@[1].uptime@ == 100_000_000_000_000_000_000 && r@[1].fee@
            == 2_500_000_000_000_000_000 && r@[1].rank == 36 && r@[1].does_lottery
            && !r@[1].does_charity && !r@[1].does_airdrops,
        r@[2].val_name@ == "Validator 3"@ && r@[2].apy@ == 9_590_000_000_000_000_000
            && r@[2].uptime@ == 99_900_000_000_000_000_000 && r@[2].fee@
            == 1_500_000_000_000_000_000 && r@[2].rank == 11 && r@[2].does_lottery
            && r@[2].does_charity && r@[2].does_airdrops,
        r@[3].val_name@ == "Validator 3"@ && r@[3].apy@ == 9_590_000_000_000_000_000
            && r@[3].uptime@ == 99_900_000_000_000_000_000 && r@[3].fee@
            == 1_500_000_000_000_000_000 && r@[3].rank == 11 && r@[3].does_lottery
            && r@[3].does_charity && r@[3].does_airdrops,
        r@[4].val_name@ == "Validator 4"@ && r@[4].apy@ == 9_380_000_000_000_000_000
            && r@[4].uptime@ == 95_100_000_000_000_000_000 && r@[4].fee@
            == 500_000_000_000_000_000 && r@[4].rank == 13 && r@[4].does_lottery
            && r@[4].does_charity && r@[4].does_airdrops,
        r@[0].val_address@ == "rdx1qspn70eefr2k4dm2zutlggfvdsl1a45haa5l2k5z9w6304p7pdfwp3sl1test"@,
        r@[1].val_address@ == "rdx1qspn70eefr2k4dm2zutlggfvdsl1a45haa5l2k5z9w6311p7pdfwp3sl2test"@,
        r@[2].val_address@ == "rdx1qspn80eefr2k4dm2zutlggfvdsl1a66haa5l2k5z9w6311p7pdfwp3sl3test"@,
        r@[3].val_address@ == "rdx1qspn80eefr2k4dm2zutlggfvdsl1a66haa5l2k5z9w6311p7pdfwp3sl4test"@,
        r@[4].val_address@ == "rdx1qspn80eefr2k4dm2zutlggfvdsl1a66haa5l2k5z9w6311p7pdfwp3sl5test"@,
{
    let mut v: Vec<Validator> = Vec::new();
    v.push(
        validator(
            "Validator 1",
            "rdx1qspn70eefr2k4dm2zutlggfvdsl1a45haa5l2k5z9w6304p7pdfwp3sl1test",
            Decimal::new(952, 2),
            Decimal::new(998, 1),
            Decimal::new(21, 1),
            4,
            false,
            false,
            true,
        ),
    );
    v.push(
        validator(
            "Validator 2",
            "rdx1qspn70eefr2k4dm2zutlggfvdsl1a45haa5l2k5z9w6311p7pdfwp3sl2test",
            Decimal::new(959, 2),
            Decimal::new(100, 0),
            Decimal::new(25, 1),
            36,
            true,
            false,
            false,
        ),
    );
    v.push(
        validator(
            "Validator 3",
            "rdx1qspn80eefr2k4dm2zutlggfvdsl1a66haa5l2k5z9w6311p7pdfwp3sl3test",
            Decimal::new(959, 2),
            Decimal::new(999, 1),
            Decimal::new(15, 1),
            11,
            true,
            true,
            true,
        ),
    );
    v.push(
        validator(
            "Validator 3",
            "rdx1qspn80eefr2k4dm2zutlggfvdsl1a66haa5l2k5z9w6311p7pdfwp3sl4test",
            Decimal::new(959, 2),
            Decimal::new(999, 1),
            Decimal::new(15, 1),
            11,
            true,
            true,
            true,
        ),
    );
    v.push(
        validator(
            "Validator 4",
            "rdx1qspn80eefr2k4dm2zutlggfvdsl1a66haa5l2k5z9w6311p7pdfwp3sl5test",
            Decimal::new(938, 2),
            Decimal::new(951, 1),
            Decimal::new(5, 1),
            13,
            true,
            true,
            true,
        ),
    );
    v
}

} // verus!
