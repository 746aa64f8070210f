use yield_farming::maple_finance::{MapleFinance, RegistryError};
use yield_farming::structs::{UserType, RequestStatus};

const ADMIN: u64 = 1;
const TEMP: u64 = 2;
const BORROWER: u64 = 3;
const REQUEST: u64 = 4;

fn registry() -> MapleFinance {
    MapleFinance::new(ADMIN, TEMP, BORROWER, REQUEST)
}

#[test]
fn registry_onboards_a_fund_manager() {
    let mut r = registry();
    let t = r.create_temporary_badge("alice".to_string(), UserType::FundManager).unwrap();
    assert_eq!(t, 1);
    assert_eq!(
        r.create_temporary_badge("alice".to_string(), UserType::Borrower),
        Err(RegistryError::NameTaken)
    );
    let name = "alice".to_string();
    assert_eq!(r.create_fund_manager(99, &name, 500), Err(RegistryError::Unauthorized));
    assert_eq!(r.create_borrower(ADMIN, &name, 500), Err(RegistryError::WrongUserType));
    assert_eq!(r.create_fund_manager(ADMIN, &name, 500), Ok(500));
    let badge = 2;
    assert_eq!(r.temporary_badges[0].2, RequestStatus::Approved);
    assert_eq!(r.pending_approvals.len(), 0);
    assert_eq!(r.fund_manager_dashboards, vec![(2, 500)]);
    assert_eq!(r.create_fund_manager(ADMIN, &name, 500), Err(RegistryError::NotPending));
    assert_eq!(r.claim_badge(9, t), Err(RegistryError::WrongBadge));
    assert_eq!(r.claim_badge(TEMP, t), Ok(badge));
    assert_eq!(r.claim_badge(TEMP, t), Err(RegistryError::BadgeMissing));
    assert_eq!(r.fund_manager_badge_vault.len(), 0);
}

#[test]
fn registry_onboards_a_borrower_and_keeps_loan_requests() {
    let mut r = registry();
    let t = r.create_temporary_badge("bob".to_string(), UserType::Borrower).unwrap();
    assert_eq!(r.claim_badge(TEMP, t), Err(RegistryError::NotApproved));
    assert_eq!(r.create_borrower(ADMIN, &"bob".to_string(), 600), Ok(600));
    let badge = 2;
    assert_eq!(r.borrower_dashboards, vec![(badge, 600)]);
    assert_eq!(r.claim_badge(TEMP, t), Ok(badge));
    assert_eq!(r.view_loan_requests(badge), Err(RegistryError::NoLoanRequests));
    assert_eq!(r.deposit_loan_requests(BORROWER, badge, 77, 10), Err(RegistryError::WrongBadge));
    r.deposit_loan_requests(BORROWER, badge, REQUEST, 10).unwrap();
    r.deposit_loan_requests(BORROWER, badge, REQUEST, 11).unwrap();
    r.deposit_loan_requests(BORROWER, 42, REQUEST, 12).unwrap();
    assert_eq!(r.view_loan_requests(badge), Ok(vec![10, 11]));
    assert_eq!(r.retrieve_loan_request_nft(BORROWER, badge, 13), Err(RegistryError::LoanRequestMissing));
    assert_eq!(r.retrieve_loan_request_nft(BORROWER, badge, 10), Ok(10));
    assert_eq!(r.view_loan_requests(badge), Ok(vec![11]));
}

#[test]
fn registry_directories_refuse_duplicates() {
    let mut r = registry();
    assert_eq!(r.insert_funding_lockers(1, 100), Ok(()));
    assert_eq!(r.insert_funding_lockers(1, 101), Err(RegistryError::AlreadyExists));
    assert_eq!(r.retrieve_funding_locker_address(1), Ok(100));
    assert_eq!(r.retrieve_funding_locker_address(2), Err(RegistryError::NotFound));
    assert_eq!(r.insert_debt_fund(5, 200), Ok(()));
    assert_eq!(r.insert_debt_fund(5, 201), Err(RegistryError::AlreadyExists));
}

#[test]
fn registry_index_funds_keyed_by_sorted_name_and_ticker() {
    let mut r = registry();
    let name = "Alpha".to_string();
    assert_eq!(r.assert_index_fund(&name), Err(RegistryError::NoFundName));
    assert_eq!(r.insert_index_fund_name("Alpha".to_string(), "ALP".to_string()), Ok(()));
    assert_eq!(
        r.insert_index_fund_name("Alpha".to_string(), "X".to_string()),
        Err(RegistryError::AlreadyExists)
    );
    assert!(r.assert_index_fund_name(&name));
    assert_eq!(r.assert_index_fund(&name), Ok(false));
    assert_eq!(r.insert_index_fund("Alpha".to_string(), "ALP".to_string(), 300), Ok(()));
    assert_eq!(
        r.insert_index_fund("Alpha".to_string(), "ALP".to_string(), 301),
        Err(RegistryError::AlreadyExists)
    );
    assert_eq!(r.assert_index_fund(&name), Ok(true));
    assert_eq!(r.get_index_fund(&name), Ok(300));
    let list = r.index_fund_list();
    assert_eq!(list, vec![(("Alpha".to_string(), "ALP".to_string()), 300)]);
}
