//! The staking reward: compounding tables for days, months and years, and
//! the accrual of a reward over an elapsed time.

use crate::error::LedgerError;
use crate::ratio::{checked_amount, product_floor, scale, Fraction};
use vstd::prelude::*;

verus! {

/// Length of one day on the ledger's clock, which counts nanoseconds: 86 400
/// seconds.
pub const NANOS_PER_DAY: u64 = 86_400_000_000_000;

/// Denominator shared by every entry of the compounding tables.
pub const RATE_SCALE: u128 = 1_000_000;

/// Growth over `n` days, for `n` from 0 to 29, as a numerator over
/// [`RATE_SCALE`].
pub const DAY_INTEREST: [u128; 30] = [
    1_000_000,
    1_000_261,
    1_000_522,
    1_000_783,
    1_001_045,
    1_001_306,
    1_001_567,
    1_001_829,
    1_002_091,
    1_002_352,
    1_002_614,
    1_002_876,
    1_003_138,
    1_003_400,
    1_003_662,
    1_003_924,
    1_004_186,
    1_004_448,
    1_004_711,
    1_004_973,
    1_005_236,
    1_005_498,
    1_005_761,
    1_006_023,
    1_006_286,
    1_006_549,
    1_006_812,
    1_007_075,
    1_007_338,
    1_007_601,
];

/// Growth over `n` months of 30 days, for `n` from 0 to 11, as a numerator
/// over [`RATE_SCALE`].
pub const MONTH_INTEREST: [u128; 12] = [
    1_000_000,
    1_007_864,
    1_015_790,
    1_023_779,
    1_031_830,
    1_039_945,
    1_048_124,
    1_056_367,
    1_064_675,
    1_073_048,
    1_081_487,
    1_089_992,
];

/// Growth over `n` years of 365 days, for `n` from 0 to 99, as a numerator
/// over [`RATE_SCALE`].
pub const YEAR_INTEREST: [u128; 100] = [
    1_000_000,
    1_100_000,
    1_210_000,
    1_331_000,
    1_464_100,
    1_610_510,
    1_771_561,
    1_948_717,
    2_143_588,
    2_357_947,
    2_593_742,
    2_853_116,
    3_138_428,
    3_452_271,
    3_797_498,
    4_177_248,
    4_594_972,
    5_054_470,
    5_559_917,
    6_115_909,
    6_727_499,
    7_400_249,
    8_140_274,
    8_954_302,
    9_849_732,
    10_834_705,
    11_918_176,
    13_109_994,
    14_420_993,
    15_863_092,
    17_449_402,
    19_194_342,
    21_113_776,
    23_225_154,
    25_547_669,
    28_102_436,
    30_912_680,
    34_003_948,
    37_404_343,
    41_144_777,
    45_259_255,
    49_785_181,
    54_763_699,
    60_240_069,
    66_264_076,
    72_890_483,
    80_179_532,
    88_197_485,
    97_017_233,
    106_718_957,
    117_390_852,
    129_129_938,
    142_042_931,
    156_247_225,
    171_871_947,
    189_059_142,
    207_965_056,
    228_761_562,
    251_637_718,
    276_801_490,
    304_481_639,
    334_929_803,
    368_422_783,
    405_265_062,
    445_791_568,
    490_370_725,
    539_407_797,
    593_348_577,
    652_683_435,
    717_951_778,
    789_746_956,
    868_721_652,
    955_593_817,
    1_051_153_199,
    1_156_268_519,
    1_271_895_371,
    1_399_084_908,
    1_538_993_399,
    1_692_892_739,
    1_862_182_013,
    2_048_400_214,
    2_253_240_236,
    2_478_564_259,
    2_726_420_685,
    2_999_062_754,
    3_298_969_029,
    3_628_865_932,
    3_991_752_525,
    4_390_927_778,
    4_830_020_556,
    5_313_022_611,
    5_844_324_873,
    6_428_757_360,
    7_071_633_096,
    7_778_796_406,
    8_556_676_046,
    9_412_343_651,
    10_353_578_016,
    11_388_935_818,
    12_527_829_399,
];

/// Whole days in `elapsed` nanoseconds. A started day does not count.
pub open spec fn whole_days(elapsed: int) -> int {
    elapsed / (NANOS_PER_DAY as int)
}

/// Whole years that are compounded out of `days`: none unless more than 365
/// days have passed.
pub open spec fn years_in(days: int) -> int {
    if days > 365 {
        days / 365
    } else {
        0
    }
}

/// Days that remain once the whole years are taken out.
pub open spec fn days_after_years(days: int) -> int {
    if days > 365 {
        days % 365
    } else {
        days
    }
}

/// Whole months that are compounded out of what the years left: none unless
/// more than 30 days remain.
pub open spec fn months_in(days: int) -> int {
    if days_after_years(days) > 30 {
        days_after_years(days) / 30
    } else {
        0
    }
}

/// Days that remain once years and months are taken out.
pub open spec fn days_left(days: int) -> int {
    if days_after_years(days) > 30 {
        days_after_years(days) % 30
    } else {
        days_after_years(days)
    }
}

/// Whether each part of `days` has an entry in its table.
pub open spec fn period_supported(days: int) -> bool {
    &&& years_in(days) < 100
    &&& months_in(days) < 12
    &&& days_left(days) < 30
}

/// `principal` times `rate / RATE_SCALE`, rounded down.
pub open spec fn grown(principal: int, rate: int) -> int {
    principal * rate / (RATE_SCALE as int)
}

/// The principal after `days` whole days: the yearly, then the monthly, then
/// the daily multiplier, each applied to the rounded result of the one before.
pub open spec fn compound(principal: int, days: int) -> int {
    let by_years = grown(principal, YEAR_INTEREST@[years_in(days)] as int);
    let by_months = grown(by_years, MONTH_INTEREST@[months_in(days)] as int);
    grown(by_months, DAY_INTEREST@[days_left(days)] as int)
}

/// Outcome of an accrual.
#[derive(Debug, Clone, Copy, PartialEq, Eq, Structural)]
pub struct Accrual {
    /// The principal with the reward added.
    pub principal: u128,
    /// The time up to which reward has been paid.
    pub checkpoint: u64,
    /// Whether a reward period was compounded. When it is `false` the other
    /// two fields are the inputs.
    pub applied: bool,
}

/// What [`accrue`] returns.
pub open spec fn accrue_spec(principal: u128, elapsed: u64, last_checkpoint: u64) -> Result<
    Accrual,
    LedgerError,
> {
    let days = whole_days(elapsed as int);
    let checkpoint = last_checkpoint + days * NANOS_PER_DAY;
    if principal == 0 || days == 0 {
        Ok(Accrual { principal, checkpoint: last_checkpoint, applied: false })
    } else if !period_supported(days) {
        Err(LedgerError::RewardPeriodUnsupported)
    } else if compound(principal as int, days) > u128::MAX || checkpoint > u64::MAX {
        Err(LedgerError::Overflow)
    } else {
        Ok(
            Accrual {
                principal: compound(principal as int, days) as u128,
                checkpoint: checkpoint as u64,
                applied: true,
            },
        )
    }
}

/// Every table entry is at least one, so compounding never shrinks a
/// principal.
pub proof fn lemma_rates_at_least_one()
    ensures
        forall|i: int| 0 <= i < 30 ==> #[trigger] DAY_INTEREST@[i] >= RATE_SCALE,
        forall|i: int| 0 <= i < 12 ==> #[trigger] MONTH_INTEREST@[i] >= RATE_SCALE,
        forall|i: int| 0 <= i < 100 ==> #[trigger] YEAR_INTEREST@[i] >= RATE_SCALE,
        DAY_INTEREST@[0] == RATE_SCALE,
        MONTH_INTEREST@[0] == RATE_SCALE,
        YEAR_INTEREST@[0] == RATE_SCALE,
{
}

/// A rate of at least one does not shrink the principal, and a rate of
/// exactly one leaves it as it is.
pub proof fn lemma_grown_bounds(principal: int, rate: int)
    requires
        0 <= principal,
        rate >= RATE_SCALE,
    ensures
        grown(principal, rate) >= principal,
        rate == RATE_SCALE ==> grown(principal, rate) == principal,
{
    assert(principal * rate >= principal * 1_000_000) by (nonlinear_arith)
        requires
            0 <= principal,
            rate >= 1_000_000,
    ;
    assert((principal * 1_000_000) / 1_000_000 == principal) by (nonlinear_arith);
    assert(principal * rate / 1_000_000 >= (principal * 1_000_000) / 1_000_000)
        by (nonlinear_arith)
        requires
            principal * rate >= principal * 1_000_000,
    ;
}

/// Compounding over a supported period does not shrink the principal.
pub proof fn lemma_compound_grows(principal: int, days: int)
    requires
        0 <= principal,
        0 <= days,
        period_supported(days),
    ensures
        compound(principal, days) >= principal,
{
    lemma_rates_at_least_one();
    let by_years = grown(principal, YEAR_INTEREST@[years_in(days)] as int);
    let by_months = grown(by_years, MONTH_INTEREST@[months_in(days)] as int);
    lemma_grown_bounds(principal, YEAR_INTEREST@[years_in(days)] as int);
    lemma_grown_bounds(by_years, MONTH_INTEREST@[months_in(days)] as int);
    lemma_grown_bounds(by_months, DAY_INTEREST@[days_left(days)] as int);
}

/// An accrual never lowers the principal or the checkpoint; when it is
/// applied, the checkpoint moves by whole days and stays within the elapsed
/// time, so that less than a day is left over.
pub proof fn lemma_accrue_grows(principal: u128, elapsed: u64, last_checkpoint: u64)
    ensures
        match accrue_spec(principal, elapsed, last_checkpoint) {
            Ok(a) => {
                &&& a.principal >= principal
                &&& a.checkpoint >= last_checkpoint
                &&& a.checkpoint <= last_checkpoint + elapsed
                &&& a.applied ==> {
                    &&& a.principal == compound(principal as int, whole_days(elapsed as int))
                    &&& a.checkpoint == last_checkpoint + whole_days(elapsed as int)
                        * NANOS_PER_DAY
                    &&& last_checkpoint + elapsed - a.checkpoint < NANOS_PER_DAY
                }
                &&& !a.applied ==> a.principal == principal && a.checkpoint == last_checkpoint
            },
            Err(_) => true,
        },
{
    let days = whole_days(elapsed as int);
    assert(0 <= days && days * 86_400_000_000_000 <= elapsed && elapsed - days
        * 86_400_000_000_000 < 86_400_000_000_000) by (nonlinear_arith)
        requires
            days == (elapsed as int) / 86_400_000_000_000,
            elapsed >= 0,
    ;
    if principal != 0 && days != 0 && period_supported(days) {
        lemma_compound_grows(principal as int, days);
    }
}

/// Applies one table entry to `principal`.
fn grow(principal: u128, rate: u128) -> (r: Option<u128>)
    ensures
        r == checked_amount(grown(principal as int, rate as int)),
{
    let r = scale(Fraction::whole(principal), Fraction::new(rate, RATE_SCALE), Fraction::whole(1));
    proof {
        let a = Fraction { numer: principal, denom: 1 };
        let b = Fraction { numer: rate, denom: RATE_SCALE };
        let c = Fraction { numer: 1, denom: 1 };
        assert(product_floor(a, b, c) == grown(principal as int, rate as int)) by {
            assert(principal as int * rate as int * 1 == principal as int * rate as int);
            assert(1 * (RATE_SCALE as int) * 1 == RATE_SCALE as int);
        }
    }
    r
}

/// Compounds the staking reward for `elapsed` nanoseconds onto `principal`.
///
/// Only whole days count, and the checkpoint moves forward by exactly those
/// days, so the started day is kept for the next call. With a zero principal
/// or less than a day elapsed nothing changes and `applied` is `false`. The
/// call fails when a part of the period has no table entry, or when the new
/// principal or the new checkpoint does not fit its integer type.
pub fn accrue(principal: u128, elapsed: u64, last_checkpoint: u64) -> (r: Result<
    Accrual,
    LedgerError,
>)
    ensures
        r == accrue_spec(principal, elapsed, last_checkpoint),
{
    let days: u64 = elapsed / NANOS_PER_DAY;
    if principal == 0 || days == 0 {
        return Ok(Accrual { principal, checkpoint: last_checkpoint, applied: false });
    }
    let mut years: u64 = 0;
    let mut rest: u64 = days;
    if rest > 365 {
        years = rest / 365;
        rest = rest % 365;
    }
    let mut months: u64 = 0;
    if rest > 30 {
        months = rest / 30;
        rest = rest % 30;
    }
    assert(years == years_in(days as int));
    assert(months == months_in(days as int));
    assert(rest == days_left(days as int));
    if years >= 100 || months >= 12 || rest >= 30 {
        return Err(LedgerError::RewardPeriodUnsupported);
    }
    proof {
        lemma_rates_at_least_one();
    }
    let year_rate: u128 = YEAR_INTEREST[years as usize];
    let month_rate: u128 = MONTH_INTEREST[months as usize];
    let day_rate: u128 = DAY_INTEREST[rest as usize];
    let ghost by_years = grown(principal as int, year_rate as int);
    let ghost by_months = grown(by_years, month_rate as int);
    let ghost by_days = grown(by_months, day_rate as int);
    proof {
        lemma_grown_bounds(principal as int, year_rate as int);
        lemma_grown_bounds(by_years, month_rate as int);
        lemma_grown_bounds(by_months, day_rate as int);
        assert(by_days == compound(principal as int, days as int));
    }
    let by_years_exec = match grow(principal, year_rate) {
        Some(v) => v,
        None => {
            return Err(LedgerError::Overflow);
        },
    };
    let by_months_exec = match grow(by_years_exec, month_rate) {
        Some(v) => v,
        None => {
            return Err(LedgerError::Overflow);
        },
    };
    let by_days_exec = match grow(by_months_exec, day_rate) {
        Some(v) => v,
        None => {
            return Err(LedgerError::Overflow);
        },
    };
    assert(days * NANOS_PER_DAY <= elapsed) by (nonlinear_arith)
        requires
            days == elapsed / NANOS_PER_DAY,
    ;
    let advance: u64 = days * NANOS_PER_DAY;
    match last_checkpoint.checked_add(advance) {
        Some(checkpoint) => Ok(Accrual { principal: by_days_exec, checkpoint, applied: true }),
        None => Err(LedgerError::Overflow),
    }
}

} // verus!
