//! Payment split engine: revenue of a collectible purchase is distributed
//! 70% to the government treasury, 20% to site preservation and 10% to the
//! artist.  The artist's share is computed as the remainder, so that the
//! three shares always add up to the amount paid.

use vstd::prelude::*;

verus! {

/// Share of the government treasury, in percent.
pub const TREASURY_PCT: i128 = 70;

/// Share of the site preservation fund, in percent.
pub const SITE_FUND_PCT: i128 = 20;

/// Share of the artist, in percent.
pub const ARTIST_PCT: i128 = 10;

/// Result of splitting a digital collectible payment.
#[derive(Debug, Clone, Copy, PartialEq, Eq, Structural)]
pub struct SplitResult {
    pub treasury_amount: i128,
    pub site_fund_amount: i128,
    pub artist_amount: i128,
}

/// Integer division rounding toward zero, as Rust's `/` on signed integers.
pub open spec fn div_toward_zero(a: int, d: int) -> int {
    if a >= 0 {
        a / d
    } else {
        -((-a) / d)
    }
}

/// `pct` percent of `amount`, rounded toward zero.
pub open spec fn percent_of(amount: int, pct: int) -> int {
    div_toward_zero(amount * pct, 100)
}

/// The amounts on which `split_payment` computes without overflow.
pub open spec fn splittable(amount: int) -> bool {
    i128::MIN <= amount * TREASURY_PCT <= i128::MAX
}

/// The split of `amount`: treasury and site fund get their percentage
/// rounded toward zero, the artist gets what remains.
pub open spec fn split_of(amount: int) -> SplitResult {
    let treasury = percent_of(amount, TREASURY_PCT as int);
    let site = percent_of(amount, SITE_FUND_PCT as int);
    SplitResult {
        treasury_amount: treasury as i128,
        site_fund_amount: site as i128,
        artist_amount: (amount - treasury - site) as i128,
    }
}

/// The sum of the three shares.
pub open spec fn total_of(result: SplitResult) -> int {
    result.treasury_amount + result.site_fund_amount + result.artist_amount
}

fn mul_div_100(amount: i128, pct: i128) -> (r: i128)
    requires
        0 <= pct <= TREASURY_PCT,
        splittable(amount as int),
    ensures
        r == percent_of(amount as int, pct as int),
{
    assert(i128::MIN <= amount * pct <= i128::MAX) by (nonlinear_arith)
        requires
            0 <= pct <= 70,
            i128::MIN <= amount * 70 <= i128::MAX,
    ;
    let p = amount * pct;
    p / 100
}

/// Split a digital collectible payment (70/20/10).
///
/// `amount` is the total payment in stroops (10^7 per token); the artist's
/// share is the remainder, so that no stroop is lost to rounding.
pub fn split_payment(amount: i128) -> (result: SplitResult)
    requires
        splittable(amount as int),
    ensures
        result == split_of(amount as int),
{
    let treasury_amount = mul_div_100(amount, TREASURY_PCT);
    let site_fund_amount = mul_div_100(amount, SITE_FUND_PCT);
    let artist_amount = amount - treasury_amount - site_fund_amount;
    SplitResult { treasury_amount, site_fund_amount, artist_amount }
}

/// Whether the three shares of `result` add up to `original_amount`.
pub open spec fn is_valid_split(result: SplitResult, original_amount: int) -> bool {
    total_of(result) == original_amount
}

/// Validate that a split result is mathematically correct: the three shares
/// add up to the original amount.
pub fn validate_split(result: &SplitResult, original_amount: i128) -> (valid: bool)
    requires
        i128::MIN <= result.treasury_amount + result.site_fund_amount <= i128::MAX,
        i128::MIN <= total_of(*result) <= i128::MAX,
    ensures
        valid == is_valid_split(*result, original_amount as int),
{
    result.treasury_amount + result.site_fund_amount + result.artist_amount == original_amount
}

/// Get the treasury percentage.
pub fn get_treasury_percentage() -> (pct: i128)
    ensures
        pct == TREASURY_PCT,
{
    TREASURY_PCT
}

/// Get the site fund percentage.
pub fn get_site_fund_percentage() -> (pct: i128)
    ensures
        pct == SITE_FUND_PCT,
{
    SITE_FUND_PCT
}

/// Get the artist percentage.
pub fn get_artist_percentage() -> (pct: i128)
    ensures
        pct == ARTIST_PCT,
{
    ARTIST_PCT
}

/// The human-readable description of the split ratios.
pub open spec fn split_description_text() -> Seq<char> {
    "Digital Collectible Split:\n\
     ┌─────────────────────────────────────┐\n\
     │ Government Treasury:  70%           │\n\
     │ Site Preservation:    20%           │\n\
     │ Artist Royalties:     10%           │\n\
     └─────────────────────────────────────┘"@
}

/// Whether `part` occurs as a contiguous piece of `text`.
pub open spec fn mentions(text: Seq<char>, part: Seq<char>) -> bool {
    exists|i: int| 0 <= i && i + part.len() <= text.len() && #[trigger] text.subrange(i, i + part.len()) == part
}

/// Get human-readable description of the split ratios.
pub fn get_split_description() -> (description: &'static str)
    ensures
        description@ == split_description_text(),
        mentions(description@, "70%"@),
        mentions(description@, "20%"@),
        mentions(description@, "10%"@),
{
    let description = "Digital Collectible Split:\n\
     ┌─────────────────────────────────────┐\n\
     │ Government Treasury:  70%           │\n\
     │ Site Preservation:    20%           │\n\
     │ Artist Royalties:     10%           │\n\
     └─────────────────────────────────────┘";
    proof {
        reveal_strlit("Digital Collectible Split:\n\
     ┌─────────────────────────────────────┐\n\
     │ Government Treasury:  70%           │\n\
     │ Site Preservation:    20%           │\n\
     │ Artist Royalties:     10%           │\n\
     └─────────────────────────────────────┘");
        reveal_strlit("70%");
        reveal_strlit("20%");
        reveal_strlit("10%");
        assert(description@.subrange(91int, 91int + "70%"@.len()) =~= "70%"@);
        assert(mentions(description@, "70%"@));
        assert(description@.subrange(131int, 131int + "20%"@.len()) =~= "20%"@);
        assert(mentions(description@, "20%"@));
        assert(description@.subrange(171int, 171int + "10%"@.len()) =~= "10%"@);
        assert(mentions(description@, "10%"@));
    }
    description
}

/// The three split percentages add up to one hundred percent.
pub proof fn lemma_percentages_sum_to_hundred()
    ensures
        TREASURY_PCT + SITE_FUND_PCT + ARTIST_PCT == 100,
{
}

proof fn lemma_percent_bounds(amount: int, pct: int)
    requires
        0 <= pct <= 100,
    ensures
        amount >= 0 ==> 0 <= percent_of(amount, pct) <= amount,
        amount < 0 ==> amount <= percent_of(amount, pct) <= 0,
        amount >= 0 ==> amount * pct - 100 < 100 * percent_of(amount, pct) <= amount * pct,
        amount < 0 ==> amount * pct <= 100 * percent_of(amount, pct) < amount * pct + 100,
{
    if amount >= 0 {
        assert(0 <= amount * pct <= amount * 100) by (nonlinear_arith)
            requires
                0 <= pct <= 100,
                amount >= 0,
        ;
    } else {
        assert(0 <= (-amount) * pct <= (-amount) * 100) by (nonlinear_arith)
            requires
                0 <= pct <= 100,
                amount < 0,
        ;
        assert(amount * pct == -((-amount) * pct)) by (nonlinear_arith);
        let q = ((-amount) * pct) / 100;
        assert((-amount) * pct - 100 < 100 * q <= (-amount) * pct);
    }
}

/// The treasury receives 70% of the amount and the site fund 20%, each
/// rounded toward zero (down for a non-negative amount, up for a negative
/// one), and the artist the rest.
pub proof fn lemma_split_shares_are_percentages(amount: i128)
    requires
        splittable(amount as int),
    ensures
        ({
            let r = split_of(amount as int);
            let a = amount as int;
            &&& a >= 0 ==> 100 * r.treasury_amount <= 70 * a < 100 * r.treasury_amount + 100
            &&& a >= 0 ==> 100 * r.site_fund_amount <= 20 * a < 100 * r.site_fund_amount + 100
            &&& a < 0 ==> 100 * r.treasury_amount - 100 < 70 * a <= 100 * r.treasury_amount
            &&& a < 0 ==> 100 * r.site_fund_amount - 100 < 20 * a <= 100 * r.site_fund_amount
            &&& r.artist_amount == a - r.treasury_amount - r.site_fund_amount
        }),
{
    let a = amount as int;
    lemma_percent_bounds(a, 70);
    lemma_percent_bounds(a, 20);
    assert(a * 70 == 70 * a && a * 20 == 20 * a) by (nonlinear_arith);
}

/// A split validates against an amount exactly when its three shares add
/// up to that amount.
pub proof fn lemma_valid_split_is_exact_total(result: SplitResult, original_amount: int)
    ensures
        is_valid_split(result, original_amount) <==> result.treasury_amount + result.site_fund_amount
            + result.artist_amount == original_amount,
{
}

/// Splitting never creates or loses money: the three shares of a split
/// payment add up to the amount paid, so the split always validates.
pub proof fn lemma_split_preserves_total(amount: i128)
    requires
        splittable(amount as int),
    ensures
        total_of(split_of(amount as int)) == amount,
        is_valid_split(split_of(amount as int), amount as int),
{
    lemma_percent_bounds(amount as int, 70);
    lemma_percent_bounds(amount as int, 20);
}

/// For a non-negative amount every share is non-negative and at most the
/// amount; the artist receives its ten percent plus the rounding remainder
/// of the two other shares, which is at most two stroops.
pub proof fn lemma_split_shares_of_nonnegative_amount(amount: i128)
    requires
        splittable(amount as int),
        amount >= 0,
    ensures
        0 <= split_of(amount as int).treasury_amount <= amount,
        0 <= split_of(amount as int).site_fund_amount <= amount,
        0 <= split_of(amount as int).artist_amount <= amount,
        percent_of(amount as int, ARTIST_PCT as int) <= split_of(amount as int).artist_amount,
        split_of(amount as int).artist_amount <= percent_of(amount as int, ARTIST_PCT as int) + 2,
{
    let a = amount as int;
    lemma_percent_bounds(a, 70);
    lemma_percent_bounds(a, 20);
    lemma_percent_bounds(a, 10);
    let t = percent_of(a, 70);
    let s = percent_of(a, 20);
    let r = percent_of(a, 10);
    assert(a * 70 + a * 20 + a * 10 == a * 100) by (nonlinear_arith);
    assert(t + s <= a) by (nonlinear_arith)
        requires
            100 * t <= a * 70,
            100 * s <= a * 20,
            a * 70 + a * 20 + a * 10 == a * 100,
            a >= 0,
    ;
    assert(r <= a - t - s) by (nonlinear_arith)
        requires
            100 * t <= a * 70,
            100 * s <= a * 20,
            100 * r <= a * 10,
            a * 70 + a * 20 + a * 10 == a * 100,
    ;
    assert(a - t - s <= r + 2) by (nonlinear_arith)
        requires
            a * 70 - 100 < 100 * t,
            a * 20 - 100 < 100 * s,
            a * 10 - 100 < 100 * r,
            a * 70 + a * 20 + a * 10 == a * 100,
    ;
}

} // verus!
