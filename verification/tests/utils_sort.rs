use yield_farming::utils::sort_string;

#[test]
fn sort_string_puts_greater_first() {
    let (a, b) = sort_string("alpha".to_string(), "beta".to_string());
    assert_eq!((a.as_str(), b.as_str()), ("beta", "alpha"));
    let (a, b) = sort_string("beta".to_string(), "alpha".to_string());
    assert_eq!((a.as_str(), b.as_str()), ("beta", "alpha"));
}

#[test]
fn sort_string_orders_prefixes_and_equal_strings() {
    let (a, b) = sort_string("ab".to_string(), "a".to_string());
    assert_eq!((a.as_str(), b.as_str()), ("ab", "a"));
    let (a, b) = sort_string("same".to_string(), "same".to_string());
    assert_eq!((a.as_str(), b.as_str()), ("same", "same"));
    let (a, b) = sort_string("Zeta".to_string(), "alpha".to_string());
    assert_eq!((a.as_str(), b.as_str()), ("alpha", "Zeta"));
}
