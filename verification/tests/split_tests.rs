use heritagechain::split::{
    get_artist_percentage, get_site_fund_percentage, get_split_description, get_treasury_percentage,
    split_payment, validate_split, SplitResult,
};

// 1 token = 10,000,000 stroops (7 decimals on Stellar)
const ONE_TOKEN: i128 = 10_000_000;

#[test]
fn test_split_payment_basic() {
    let result = split_payment(ONE_TOKEN);

    assert_eq!(result.treasury_amount, 7_000_000);
    assert_eq!(result.site_fund_amount, 2_000_000);
    assert_eq!(result.artist_amount, 1_000_000);
    assert!(validate_split(&result, ONE_TOKEN));
}

#[test]
fn test_split_payment_small_amount() {
    let payment = 1000;
    let result = split_payment(payment);

    assert_eq!(result.treasury_amount, 700);
    assert_eq!(result.site_fund_amount, 200);
    assert_eq!(result.artist_amount, 100);
    assert_eq!(result.treasury_amount + result.site_fund_amount + result.artist_amount, payment);
}

#[test]
fn test_split_payment_rounding() {
    // Test with amount that doesn't divide evenly by 10
    let payment = 999;
    let result = split_payment(payment);

    assert_eq!(result.treasury_amount, 699);
    assert_eq!(result.site_fund_amount, 199);
    assert_eq!(result.artist_amount, 101); // 999 - 699 - 199 = 101
    assert_eq!(result.treasury_amount + result.site_fund_amount + result.artist_amount, payment);
}

#[test]
fn test_zero_payment() {
    let result = split_payment(0);
    assert_eq!(result.treasury_amount, 0);
    assert_eq!(result.site_fund_amount, 0);
    assert_eq!(result.artist_amount, 0);
    assert!(validate_split(&result, 0));
}

#[test]
fn test_large_payment() {
    let payment = 1_000_000_000_000_000i128; // Very large amount
    let result = split_payment(payment);

    assert_eq!(result.treasury_amount, 700_000_000_000_000);
    assert_eq!(result.site_fund_amount, 200_000_000_000_000);
    assert_eq!(result.artist_amount, 100_000_000_000_000);
    assert!(validate_split(&result, payment));
}

#[test]
fn test_validate_split_correct() {
    let result = SplitResult {
        treasury_amount: 700,
        site_fund_amount: 200,
        artist_amount: 100,
    };
    assert!(validate_split(&result, 1000));
}

#[test]
fn test_validate_split_incorrect() {
    let result = SplitResult {
        treasury_amount: 700,
        site_fund_amount: 200,
        artist_amount: 101, // 1 too much
    };
    assert!(!validate_split(&result, 1000));
}

#[test]
fn test_get_split_description() {
    let desc = get_split_description();
    assert!(desc.contains("70%"));
    assert!(desc.contains("20%"));
    assert!(desc.contains("10%"));
}

#[test]
fn test_get_percentages() {
    assert_eq!(get_treasury_percentage(), 70);
    assert_eq!(get_site_fund_percentage(), 20);
    assert_eq!(get_artist_percentage(), 10);
}

#[test]
fn test_split_payment_preserves_total() {
    let test_amounts = [1, 10, 100, 999, 1000, 10_000, 100_000, ONE_TOKEN];

    for amount in test_amounts.iter() {
        let result = split_payment(*amount);
        let total = result.treasury_amount + result.site_fund_amount + result.artist_amount;
        assert_eq!(total, *amount, "Split total should equal original amount for {}", amount);
    }
}

// --- Further cases ---

#[test]
fn split_of_negative_amount_rounds_toward_zero() {
    let result = split_payment(-999);
    assert_eq!(result.treasury_amount, -699);
    assert_eq!(result.site_fund_amount, -199);
    assert_eq!(result.artist_amount, -101);
    assert!(validate_split(&result, -999));
}

#[test]
fn artist_receives_rounding_remainder() {
    // 19 * 70 / 100 = 13, 19 * 20 / 100 = 3, so the artist gets 3 rather than 1.
    let result = split_payment(19);
    assert_eq!(result.treasury_amount, 13);
    assert_eq!(result.site_fund_amount, 3);
    assert_eq!(result.artist_amount, 3);
    assert!(result.artist_amount <= 19 * 10 / 100 + 2);
}

#[test]
fn split_of_largest_splittable_amount() {
    let amount = i128::MAX / 70;
    let result = split_payment(amount);
    assert_eq!(result.treasury_amount, amount * 70 / 100);
    assert_eq!(result.site_fund_amount, amount * 20 / 100);
    assert_eq!(result.treasury_amount + result.site_fund_amount + result.artist_amount, amount);
}

#[test]
fn split_result_validates_only_its_own_amount() {
    let result = split_payment(1000);
    assert!(validate_split(&result, 1000));
    assert!(!validate_split(&result, 1001));
}

#[test]
fn percentages_sum_to_hundred() {
    assert_eq!(get_treasury_percentage() + get_site_fund_percentage() + get_artist_percentage(), 100);
}

#[test]
fn description_lists_the_three_recipients() {
    let desc = get_split_description();
    assert!(desc.starts_with("Digital Collectible Split:\n"));
    assert!(desc.contains("Government Treasury:  70%"));
    assert!(desc.contains("Site Preservation:    20%"));
    assert!(desc.contains("Artist Royalties:     10%"));
}
