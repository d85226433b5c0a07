//! The batch parameter line: `x y height a1 a2 a3 a4 a5 a6 a7 a8 a9`,
//! space-separated, with the nine albedos as decimal fractions of the unit
//! range.  Parsed exactly: any deviation yields no configuration.

use vstd::prelude::*;
use crate::fixed::SCALE;

verus! {

/// ASCII decimal digit.
pub open spec fn is_digit(b: u8) -> bool {
    48 <= b <= 57
}

/// Scans a run of digits from position i, accumulating their value; stops at
/// the first non-digit, the end, or once the accumulator passes the guard
/// bound (the rest of the run is then left unconsumed).
pub open spec fn scan_uint(s: Seq<u8>, i: int, acc: int) -> (int, int)
    decreases s.len() - i,
{
    if 0 <= i < s.len() && is_digit(s[i]) && acc <= 100_000_000_000_000 {
        scan_uint(s, i + 1, 10 * acc + (s[i] - 48))
    } else {
        (acc, i)
    }
}

/// Scans a fraction-digit run, keeping the first six digits; returns the
/// kept value, how many digits were kept, and the end position.
pub open spec fn scan_frac(s: Seq<u8>, i: int, acc: int, depth: int) -> (int, int, int)
    decreases s.len() - i,
{
    if 0 <= i < s.len() && is_digit(s[i]) {
        if depth < 6 {
            scan_frac(s, i + 1, 10 * acc + (s[i] - 48), depth + 1)
        } else {
            scan_frac(s, i + 1, acc, depth)
        }
    } else {
        (acc, depth, i)
    }
}

/// Ten to the given power, for fraction rescaling.
pub open spec fn pow10(e: int) -> int
    decreases e,
{
    if e <= 0 {
        1
    } else {
        10 * pow10(e - 1)
    }
}

/// A signed 32-bit integer at position i: an optional minus sign and a digit
/// run whose value fits the type.
pub open spec fn parse_i32_at(s: Seq<u8>, i: int) -> Option<(int, int)> {
    let neg = 0 <= i < s.len() && s[i] == 45;
    let j = if neg {
        i + 1
    } else {
        i
    };
    let (v, e) = scan_uint(s, j, 0);
    if e == j {
        None
    } else {
        let sv = if neg {
            -v
        } else {
            v
        };
        if -0x8000_0000 <= sv <= 0x7fff_ffff {
            Some((sv, e))
        } else {
            None
        }
    }
}

/// An unsigned 32-bit integer at position i.
pub open spec fn parse_u32_at(s: Seq<u8>, i: int) -> Option<(int, int)> {
    let (v, e) = scan_uint(s, i, 0);
    if e == i {
        None
    } else if v <= 0xffff_ffff {
        Some((v, e))
    } else {
        None
    }
}

/// A decimal fraction of the unit range at position i: an integer part and
/// an optional point with fraction digits (kept to six places), in SCALE
/// units; values above one are rejected.
pub open spec fn parse_fixed_at(s: Seq<u8>, i: int) -> Option<(int, int)> {
    let (v, e) = scan_uint(s, i, 0);
    if e == i {
        None
    } else {
        let (fa, fd, fe) = if e < s.len() && s[e] == 46 {
            scan_frac(s, e + 1, 0, 0)
        } else {
            (0, 6, e)
        };
        let value = v * SCALE + fa * pow10(6 - fd);
        if value <= SCALE {
            Some((value, fe))
        } else {
            None
        }
    }
}

/// k space-prefixed albedo fields from position i.
pub open spec fn parse_albedos(s: Seq<u8>, i: int, k: int) -> Option<(Seq<int>, int)>
    decreases k,
{
    if k <= 0 {
        Some((Seq::empty(), i))
    } else if !(0 <= i < s.len() && s[i] == 32) {
        None
    } else {
        match parse_fixed_at(s, i + 1) {
            None => None,
            Some((v, e)) => match parse_albedos(s, e, k - 1) {
                None => None,
                Some((rest, fin)) => Some((seq![v] + rest, fin)),
            },
        }
    }
}

/// The whole parameter line: ground position, height, and the nine albedos,
/// with single spaces between fields and nothing after the last.
pub open spec fn parse_args_spec(s: Seq<u8>) -> Option<((int, int), int, Seq<int>)> {
    match parse_i32_at(s, 0) {
        None => None,
        Some((x, p1)) => {
            if !(p1 < s.len() && s[p1] == 32) {
                None
            } else {
                match parse_i32_at(s, p1 + 1) {
                    None => None,
                    Some((y, p2)) => {
                        if !(p2 < s.len() && s[p2] == 32) {
                            None
                        } else {
                            match parse_u32_at(s, p2 + 1) {
                                None => None,
                                Some((h, p3)) => match parse_albedos(s, p3, 9) {
                                    None => None,
                                    Some((al, fin)) => {
                                        if fin == s.len() {
                                            Some(((x, y), h, al))
                                        } else {
                                            None
                                        }
                                    },
                                },
                            }
                        }
                    },
                }
            }
        },
    }
}

/// Executable digit-run scan.
fn scan_uint_exec(s: &Vec<u8>, start: usize) -> (r: (i64, usize))
    requires
        start <= s.len(),
    ensures
        (r.0 as int, r.1 as int) == scan_uint(s@, start as int, 0),
        start <= r.1 <= s.len(),
        0 <= r.0 <= 1_000_000_000_000_009,
{
    let mut acc: i64 = 0;
    let mut i: usize = start;
    while i < s.len() && 48 <= s[i] && s[i] <= 57 && acc <= 100_000_000_000_000
        invariant
            start <= i <= s.len(),
            0 <= acc <= 1_000_000_000_000_009,
            scan_uint(s@, start as int, 0) == scan_uint(s@, i as int, acc as int),
        decreases s.len() - i,
    {
        acc = 10 * acc + (s[i] - 48) as i64;
        i = i + 1;
    }
    (acc, i)
}

/// Executable fraction scan.
fn scan_frac_exec(s: &Vec<u8>, start: usize) -> (r: (i64, usize, usize))
    requires
        start <= s.len(),
    ensures
        (r.0 as int, r.1 as int, r.2 as int) == scan_frac(s@, start as int, 0, 0),
        start <= r.2 <= s.len(),
        0 <= r.0 < 1_000_000,
        r.1 <= 6,
{
    let mut acc: i64 = 0;
    let mut depth: usize = 0;
    let mut i: usize = start;
    while i < s.len() && 48 <= s[i] && s[i] <= 57
        invariant
            start <= i <= s.len(),
            0 <= acc < 1_000_000,
            depth <= 6,
            acc < pow10(depth as int),
            scan_frac(s@, start as int, 0, 0) == scan_frac(s@, i as int, acc as int, depth as int),
        decreases s.len() - i,
    {
        proof {
            reveal_with_fuel(pow10, 8);
        }
        if depth < 6 {
            acc = 10 * acc + (s[i] - 48) as i64;
            depth = depth + 1;
        }
        i = i + 1;
    }
    (acc, depth, i)
}

/// Executable signed field.
fn parse_i32_exec(s: &Vec<u8>, i: usize) -> (r: Option<(i32, usize)>)
    requires
        i <= s.len(),
    ensures
        match r {
            Some(p) => parse_i32_at(s@, i as int) == Some((p.0 as int, p.1 as int)) && p.1
                <= s.len(),
            None => parse_i32_at(s@, i as int) is None,
        },
{
    let neg: bool = i < s.len() && s[i] == 45;
    let j: usize = if neg {
        i + 1
    } else {
        i
    };
    let (v, e) = scan_uint_exec(s, j);
    if e == j {
        return None;
    }
    let sv: i64 = if neg {
        -v
    } else {
        v
    };
    if -0x8000_0000 <= sv && sv <= 0x7fff_ffff {
        Some((sv as i32, e))
    } else {
        None
    }
}

/// Executable unsigned field.
fn parse_u32_exec(s: &Vec<u8>, i: usize) -> (r: Option<(u32, usize)>)
    requires
        i <= s.len(),
    ensures
        match r {
            Some(p) => parse_u32_at(s@, i as int) == Some((p.0 as int, p.1 as int)) && p.1
                <= s.len(),
            None => parse_u32_at(s@, i as int) is None,
        },
{
    let (v, e) = scan_uint_exec(s, i);
    if e == i {
        return None;
    }
    if v <= 0xffff_ffff {
        Some((v as u32, e))
    } else {
        None
    }
}

/// Executable decimal-fraction field.
fn parse_fixed_exec(s: &Vec<u8>, i: usize) -> (r: Option<(i64, usize)>)
    requires
        i <= s.len(),
    ensures
        match r {
            Some(p) => parse_fixed_at(s@, i as int) == Some((p.0 as int, p.1 as int)) && p.1
                <= s.len() && 0 <= p.0 <= SCALE,
            None => parse_fixed_at(s@, i as int) is None,
        },
{
    let (v, e) = scan_uint_exec(s, i);
    if e == i {
        return None;
    }
    let (fa, fd, fe): (i64, usize, usize) = if e < s.len() && s[e] == 46 {
        scan_frac_exec(s, e + 1)
    } else {
        (0, 6, e)
    };
    let mut scale_rest: i64 = 1;
    let mut d: usize = fd;
    while d < 6
        invariant
            fd <= d <= 6,
            1 <= scale_rest <= 1_000_000,
            scale_rest == pow10((d - fd) as int),
        decreases 6 - d,
    {
        proof {
            reveal_with_fuel(pow10, 8);
        }
        scale_rest = 10 * scale_rest;
        d = d + 1;
    }
    proof {
        assert(pow10(6 - fd as int) == scale_rest as int);
    }
    if v > 1 {
        // The whole value surely exceeds one; avoid the wide product.
        assert(v * SCALE + fa * scale_rest > SCALE) by (nonlinear_arith)
            requires
                v >= 2,
                fa >= 0,
                SCALE == 1_000_000,
                scale_rest >= 1,
        ;
        return None;
    }
    assert(0 <= fa * scale_rest <= 1_000_000_000_000) by (nonlinear_arith)
        requires
            0 <= fa < 1_000_000,
            1 <= scale_rest <= 1_000_000,
    ;
    let value: i64 = v * SCALE + fa * scale_rest;
    if value <= SCALE {
        Some((value, fe))
    } else {
        None
    }
}

/// Parses a batch parameter line into the light's ground position, height
/// and per-patch albedo vector (in SCALE units); yields nothing unless the
/// line is exactly twelve space-separated fields.
pub fn parse_args(arg: &Vec<u8>) -> (r: Option<((i32, i32), u32, Vec<i64>)>)
    ensures
        match r {
            Some(cfg) => {
                &&& parse_args_spec(arg@) matches Some(spec_cfg)
                &&& spec_cfg.0 == (cfg.0.0 as int, cfg.0.1 as int)
                &&& spec_cfg.1 == cfg.1 as int
                &&& spec_cfg.2 == cfg.2@.map_values(|v: i64| v as int)
                &&& cfg.2.len() == 9
                &&& forall|u: int| 0 <= u < 9 ==> 0 <= #[trigger] cfg.2[u] <= SCALE
            },
            None => parse_args_spec(arg@) is None,
        },
{
    let x = match parse_i32_exec(arg, 0) {
        None => {
            return None;
        },
        Some(p) => p,
    };
    let p1: usize = x.1;
    if !(p1 < arg.len() && arg[p1] == 32) {
        return None;
    }
    let y = match parse_i32_exec(arg, p1 + 1) {
        None => {
            return None;
        },
        Some(p) => p,
    };
    let p2: usize = y.1;
    if !(p2 < arg.len() && arg[p2] == 32) {
        return None;
    }
    let h = match parse_u32_exec(arg, p2 + 1) {
        None => {
            return None;
        },
        Some(p) => p,
    };
    let p3: usize = h.1;
    let mut albedo: Vec<i64> = Vec::new();
    let mut pos: usize = p3;
    let mut k: usize = 0;
    while k < 9
        invariant
            k <= 9,
            pos <= arg.len(),
            albedo.len() == k,
            forall|u: int| 0 <= u < k ==> 0 <= #[trigger] albedo[u] <= SCALE,
            match parse_albedos(arg@, pos as int, 9 - k as int) {
                Some(t) => parse_albedos(arg@, p3 as int, 9) == Some(
                    (albedo@.map_values(|v: i64| v as int) + t.0, t.1),
                ),
                None => parse_albedos(arg@, p3 as int, 9) is None,
            },
            parse_args_spec(arg@) == (match parse_albedos(arg@, p3 as int, 9) {
                None => None::<((int, int), int, Seq<int>)>,
                Some((al, fin)) => {
                    if fin == arg.len() {
                        Some(((x.0 as int, y.0 as int), h.0 as int, al))
                    } else {
                        None
                    }
                },
            }),
        decreases 9 - k,
    {
        if !(pos < arg.len() && arg[pos] == 32) {
            return None;
        }
        let ghost pre = albedo@;
        let v = match parse_fixed_exec(arg, pos + 1) {
            None => {
                return None;
            },
            Some(p) => p,
        };
        albedo.push(v.0);
        pos = v.1;
        k = k + 1;
        proof {
            assert(albedo@.map_values(|vv: i64| vv as int) =~= pre.map_values(|vv: i64| vv as int)
                + seq![v.0 as int]);
            assert forall|a: Seq<int>|
                true implies pre.map_values(|vv: i64| vv as int) + (seq![v.0 as int] + a)
                =~= albedo@.map_values(|vv: i64| vv as int) + a by {}
        }
    }
    proof {
        assert(parse_albedos(arg@, pos as int, 0) == Some((Seq::<int>::empty(), pos as int)));
        assert(albedo@.map_values(|vv: i64| vv as int) + Seq::<int>::empty() =~= albedo@.map_values(
            |vv: i64| vv as int,
        ));
    }
    if pos != arg.len() {
        return None;
    }
    Some(((x.0, y.0), h.0, albedo))
}

} // verus!
