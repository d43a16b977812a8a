use multi_currency::Bank;
use multi_currency::Currency;
use multi_currency::Money;

#[test]
fn test_multiplication() {
    let five = Money::doller(5);
    assert_eq!(Money::doller(10), five.times(2));
    assert_eq!(Money::doller(15), five.times(3));
}

#[test]
fn test_equality() {
    assert_eq!(Money::doller(5), Money::doller(5));
    assert_ne!(Money::doller(6), Money::doller(5));
    assert_ne!(Money::franc(5), Money::doller(5));
}

#[test]
fn test_simple_addition() {
    let five = Money::doller(5);
    let five2 = Money::doller(5);
    let sum = five + five2;
    let bank = Bank::new();
    let reduced = bank.reduce(sum, Currency::Doller);
    assert_eq!(Money::doller(10), reduced);
}

#[test]
fn test_reduce_money_diferrenct_currency() {
    let mut bank = Bank::new();
    bank.add_rate(Currency::Franc, Currency::Doller, 2);
    let result = bank.reduce(Money::franc(2), Currency::Doller);
    assert_eq!(Money::doller(1), result);
    let result = bank.reduce(Money::doller(6), Currency::Franc);
    assert_eq!(Money::franc(12), result);
}

#[test]
fn test_mixed_addition() {
    let five_bucks = Money::doller(5);
    let ten_francs = Money::franc(10);
    let mut bank = Bank::new();
    bank.add_rate(Currency::Franc, Currency::Doller, 2);
    let result = bank.reduce(five_bucks + ten_francs, Currency::Doller);
    assert_eq!(Money::doller(10), result);
}

#[test]
fn test_sum_plus_money() {
    let five_bucks = Money::doller(5);
    let five_bucks2 = Money::doller(5);
    let ten_francs = Money::franc(10);
    let mut bank = Bank::new();
    bank.add_rate(Currency::Franc, Currency::Doller, 2);
    let sum = five_bucks + ten_francs + five_bucks2;
    let result = bank.reduce(sum, Currency::Doller);
    assert_eq!(Money::doller(15), result);
}

#[test]
fn test_sum_times() {
    let five_bucks = Money::doller(5);
    let ten_francs = Money::franc(10);
    let mut bank = Bank::new();
    bank.add_rate(Currency::Franc, Currency::Doller, 2);
    let sum = (five_bucks + ten_francs).times(2);
    let result = bank.reduce(sum, Currency::Doller);
    assert_eq!(Money::doller(20), result);
}

#[test]
fn times_scales_by_zero_and_by_negative_factors() {
    assert_eq!(Money::franc(0), Money::franc(7).times(0));
    assert_eq!(Money::franc(-21), Money::franc(7).times(-3));
    assert_eq!(Money::doller(42), Money::doller(-6).times(-7));
}

#[test]
fn times_keeps_currencies_and_order() {
    let sum = Money::doller(1) + Money::franc(2) + Money::doller(3);
    let expected = Money::doller(4) + Money::franc(8) + Money::doller(12);
    assert_eq!(expected, sum.times(4));
}

#[test]
fn times_leaves_the_receiver_as_it_was() {
    let five = Money::doller(5);
    let _ = five.times(9);
    assert_eq!(Money::doller(5), five);
}

#[test]
fn addition_keeps_the_left_entries_first() {
    let left_first = Money::doller(5) + Money::franc(10);
    let right_first = Money::franc(10) + Money::doller(5);
    assert_ne!(left_first, right_first);
    assert_eq!(Money::doller(5) + Money::franc(10), left_first);
}

#[test]
fn addition_does_not_merge_entries() {
    assert_ne!(Money::doller(10), Money::doller(5) + Money::doller(5));
    assert_ne!(Money::doller(5), Money::doller(5) + Money::franc(0));
}

#[test]
fn addition_groups_either_way() {
    let left = (Money::doller(1) + Money::franc(2)) + Money::doller(3);
    let right = Money::doller(1) + (Money::franc(2) + Money::doller(3));
    assert_eq!(left, right);
}

#[test]
fn sums_of_different_length_differ() {
    assert_ne!(Money::franc(1) + Money::franc(1), Money::franc(1));
    assert_ne!(Money::franc(1), Money::franc(1) + Money::franc(1));
}
