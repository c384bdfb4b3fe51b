//! Spatial sharding: the coordinate space is partitioned into cells, so a
//! node only subscribes to updates relevant to the space around it.
use vstd::prelude::*;

verus! {

#[derive(Debug, Clone, Copy, PartialEq, Eq, Hash, Structural)]
pub struct CellId {
    /// Cell token at a fixed level.
    pub token: u64,
    pub level: u8,
}

/// Ten to the power `e`.
pub open spec fn pow10(e: nat) -> int
    decreases e,
{
    if e == 0 {
        1
    } else {
        10 * pow10((e - 1) as nat)
    }
}

/// The width, in micro-degrees, of a grid cell at `level`: coarser levels
/// (0 up to 6) bucket by larger powers of ten, and levels from 6 on by 1.
pub open spec fn grid_width(level: u8) -> int {
    if level >= 6 {
        1
    } else {
        pow10((6 - level) as nat)
    }
}

/// Integer division rounding toward zero, for a positive divisor.
pub open spec fn div_toward_zero(a: int, b: int) -> int {
    if a >= 0 {
        a / b
    } else {
        -((-a) / b)
    }
}

/// The token of the cell at `level` holding micro-degree coordinates
/// (`lat_micro`, `lon_micro`): the latitude bucket in the high 32 bits,
/// xor the low 32 bits of the longitude bucket.
pub open spec fn cell_token(lat_micro: i64, lon_micro: i64, level: u8) -> u64 {
    let bucket_lat = div_toward_zero(lat_micro as int, grid_width(level)) as i64;
    let bucket_lon = div_toward_zero(lon_micro as int, grid_width(level)) as i64;
    ((bucket_lat as u64) << 32u64) ^ ((bucket_lon as u64) & 0xFFFF_FFFFu64)
}

proof fn lemma_pow10_bounds(e: nat)
    requires
        e <= 6,
    ensures
        1 <= pow10(e) <= 1_000_000,
{
    assert(pow10(0) == 1);
    assert(pow10(1) == 10);
    assert(pow10(2) == 100);
    assert(pow10(3) == 1_000);
    assert(pow10(4) == 10_000);
    assert(pow10(5) == 100_000);
    assert(pow10(6) == 1_000_000);
}

proof fn lemma_div_toward_zero_bounds(a: int, b: int)
    requires
        b >= 1,
        i64::MIN <= a <= i64::MAX,
    ensures
        i64::MIN <= div_toward_zero(a, b) <= i64::MAX,
{
    if a >= 0 {
        assert(a / b <= a) by (nonlinear_arith)
            requires
                a >= 0,
                b >= 1,
        ;
    } else {
        assert((-a) / b <= -a) by (nonlinear_arith)
            requires
                -a >= 0,
                b >= 1,
        ;
        assert((-a) / b >= 0) by (nonlinear_arith)
            requires
                -a >= 0,
                b >= 1,
        ;
    }
}

/// The cell token buckets each coordinate by the grid width of its level:
/// 10^6 micro-degrees at level 0, 10^5 at level 1, and so on down to 10 at
/// level 5, and single micro-degrees from level 6 on; each bucket is the
/// coordinate divided by that width rounding toward zero. The latitude
/// bucket fills the high 32 bits and the longitude bucket's low 32 bits
/// are xored in.
pub proof fn lemma_cell_token_buckets(lat_micro: i64, lon_micro: i64, level: u8)
    ensures
        ({
            let w: int = if level == 0 {
                1_000_000
            } else if level == 1 {
                100_000
            } else if level == 2 {
                10_000
            } else if level == 3 {
                1_000
            } else if level == 4 {
                100
            } else if level == 5 {
                10
            } else {
                1
            };
            let lat = lat_micro as int;
            let lon = lon_micro as int;
            let bucket_lat: int = if lat >= 0 {
                lat / w
            } else {
                -((-lat) / w)
            };
            let bucket_lon: int = if lon >= 0 {
                lon / w
            } else {
                -((-lon) / w)
            };
            cell_token(lat_micro, lon_micro, level) == (((bucket_lat as i64) as u64) << 32u64) ^ (
            ((bucket_lon as i64) as u64) & 0xFFFF_FFFFu64)
        }),
{
    assert(pow10(0) == 1);
    assert(pow10(1) == 10);
    assert(pow10(2) == 100);
    assert(pow10(3) == 1_000);
    assert(pow10(4) == 10_000);
    assert(pow10(5) == 100_000);
    assert(pow10(6) == 1_000_000);
    let w: int = if level == 0 {
        1_000_000
    } else if level == 1 {
        100_000
    } else if level == 2 {
        10_000
    } else if level == 3 {
        1_000
    } else if level == 4 {
        100
    } else if level == 5 {
        10
    } else {
        1
    };
    assert(grid_width(level) == w);
}

/// `a` divided by the positive `b`, rounding toward zero.
fn divide_toward_zero(a: i64, b: i64) -> (r: i64)
    requires
        b >= 1,
    ensures
        r == div_toward_zero(a as int, b as int),
{
    proof {
        lemma_div_toward_zero_bounds(a as int, b as int);
    }
    let ub: u64 = b as u64;
    if a >= 0 {
        ((a as u64) / ub) as i64
    } else {
        let ua: u64 = (0i128 - a as i128) as u64;
        let q: u64 = ua / ub;
        proof {
            assert(q <= ua) by (nonlinear_arith)
                requires
                    ub >= 1,
                    q == ua / ub,
            ;
        }
        if q > 0x7FFF_FFFF_FFFF_FFFFu64 {
            i64::MIN
        } else {
            0 - (q as i64)
        }
    }
}

impl CellId {
    /// Bucket a latitude and longitude (in micro-degrees) into the cell at
    /// `level`.
    pub fn from_lat_lon(lat_micro: i64, lon_micro: i64, level: u8) -> (r: Self)
        ensures
            r.level == level,
            r.token == cell_token(lat_micro, lon_micro, level),
    {
        let e: u32 = if (level as u32) < 6 {
            6 - level as u32
        } else {
            0
        };
        let mut grid: i64 = 1;
        let mut i: u32 = 0;
        while i < e
            invariant
                e <= 6,
                i <= e,
                grid == pow10(i as nat),
            decreases e - i,
        {
            proof {
                lemma_pow10_bounds((i + 1) as nat);
            }
            grid = grid * 10;
            i = i + 1;
        }
        proof {
            lemma_pow10_bounds(e as nat);
        }
        let bucket_lat = divide_toward_zero(lat_micro, grid);
        let bucket_lon = divide_toward_zero(lon_micro, grid);
        let token = ((bucket_lat as u64) << 32u64) ^ ((bucket_lon as u64) & 0xFFFF_FFFFu64);
        CellId { token, level }
    }

    /// The coarser parent cell, one level up; the top level has none.
    pub fn parent(&self) -> (r: Option<CellId>)
        ensures
            r == if self.level == 0 {
                None
            } else {
                Some(CellId { token: self.token >> 4u64, level: (self.level - 1) as u8 })
            },
    {
        if self.level == 0 {
            None
        } else {
            Some(CellId { token: self.token >> 4u64, level: self.level - 1 })
        }
    }
}

} // verus!
