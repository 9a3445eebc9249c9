//! The sidebar cat: how lively each mood looks, where the cat wanders
//! along the rail, and the glyphs of its tail and mouth.

use vstd::prelude::*;

verus! {

/// How the cat feels.
#[derive(Clone, Copy, Debug, PartialEq, Eq, Structural)]
pub enum CatMood {
    Happy,
    Content,
    Bored,
    Hungry,
    Thirsty,
    Sad,
}

/// Body width including the tail column, used to keep the wander on-screen.
pub const CAT_WIDTH: usize = 8;

/// How busy each mood looks, 0 (still) to 3 (bouncy).
pub open spec fn activity_of(mood: CatMood) -> u8 {
    match mood {
        CatMood::Happy => 3,
        CatMood::Content | CatMood::Hungry | CatMood::Thirsty => 2,
        CatMood::Bored => 1,
        CatMood::Sad => 0,
    }
}

/// How busy the cat looks, 0 (still) to 3 (bouncy). Drives the wander pace
/// and how often the tail flicks.
pub fn cat_activity(mood: CatMood) -> (r: u8)
    ensures
        r == activity_of(mood),
        r <= 3,
{
    match mood {
        CatMood::Happy => 3,
        CatMood::Content | CatMood::Hungry | CatMood::Thirsty => 2,
        CatMood::Bored => 1,
        CatMood::Sad => 0,
    }
}

/// The mixing steps that spread a wander leg's number over 64 bits.
pub open spec fn wander_hash(seg: u64) -> u64 {
    let h1 = seg.wrapping_add(1).wrapping_mul(0x9E37_79B9_7F4A_7C15);
    let h2 = h1 ^ (h1 >> 29u64);
    let h3 = h2.wrapping_mul(0xBF58_476D_1CE4_E5B9);
    h3 ^ (h3 >> 32u64)
}

/// Deterministic pseudo-random destination column for one wander leg, in
/// `0..=travel`. Adjacent legs chain (this leg's end is the next leg's
/// start) so motion never jumps.
pub fn wander_target(seg: usize, travel: usize) -> (r: usize)
    requires
        travel < u64::MAX,
    ensures
        r as int == wander_hash(seg as u64) as int % (travel as int + 1),
        r <= travel,
{
    let mut h: u64 = (seg as u64).wrapping_add(1).wrapping_mul(0x9E37_79B9_7F4A_7C15);
    h = h ^ (h >> 29u64);
    h = h.wrapping_mul(0xBF58_476D_1CE4_E5B9);
    h = h ^ (h >> 32u64);
    let m: u64 = travel as u64 + 1;
    let r = h % m;
    (r as usize)
}

/// Ticks per wander leg: livelier moods change their mind sooner.
pub open spec fn leg_ticks(activity: u8) -> int {
    match activity {
        3 => 60,
        2 => 100,
        _ => 180,
    }
}

/// Integer division rounding toward zero, as Rust's `/` does.
pub open spec fn trunc_div(a: int, b: int) -> int {
    if a >= 0 {
        a / b
    } else {
        -((-a) / b)
    }
}

pub open spec fn target_spec(seg: int, travel: usize) -> int {
    wander_hash(seg as u64) as int % (travel as int + 1)
}

/// The column, in `0..=travel`, where the cat stands at `tick`: parked
/// mid-rail when still, otherwise partway along the current leg between
/// that leg's target and the next one's.
pub open spec fn wander_x_spec(tick: usize, activity: u8, travel: usize) -> int {
    if travel == 0 {
        0
    } else if activity == 0 {
        travel as int / 2
    } else {
        let leg = leg_ticks(activity);
        let seg = tick as int / leg;
        let into = tick as int % leg;
        let from = target_spec(seg, travel);
        let to = target_spec(seg + 1, travel);
        let pos = from + trunc_div((to - from) * into, leg);
        if pos < 0 {
            0
        } else if pos > travel {
            travel as int
        } else {
            pos
        }
    }
}

/// Pseudo-random horizontal wander across the rail. The cat picks a fresh
/// column each leg and strolls to it, so legs land anywhere edge-to-edge;
/// livelier moods change their mind sooner. A still (sad) cat parks
/// mid-rail. `travel` is bounded so that positions fit `i64` arithmetic.
pub fn wander_x(tick: usize, activity: u8, travel: usize) -> (r: usize)
    requires
        travel as int * 180 <= i64::MAX,
    ensures
        r as int == wander_x_spec(tick, activity, travel),
        r <= travel,
{
    if travel == 0 {
        return 0;
    }
    if activity == 0 {
        return travel / 2;
    }
    let leg: usize = match activity {
        3 => 60,
        2 => 100,
        _ => 180,
    };
    let seg = tick / leg;
    let into = (tick % leg) as i64;
    let from = wander_target(seg, travel) as i64;
    let to = wander_target(seg + 1, travel) as i64;
    assert((to - from) * into <= travel as int * 180) by (nonlinear_arith)
        requires
            0 <= to <= travel,
            0 <= from <= travel,
            0 <= into < 180,
    ;
    assert((to - from) * into >= -(travel as int * 180)) by (nonlinear_arith)
        requires
            0 <= to <= travel,
            0 <= from <= travel,
            0 <= into < 180,
    ;
    let num: i64 = (to - from) * into;
    let step: i64 = num / (leg as i64);
    proof {
        assert(step == trunc_div(num as int, leg as int));
        assert(-(travel as int) * leg <= num <= travel as int * leg) by (nonlinear_arith)
            requires
                num == (to - from) * into,
                0 <= to <= travel,
                0 <= from <= travel,
                0 <= into < leg,
        ;
        let a: int = if num >= 0 {
            num as int
        } else {
            -(num as int)
        };
        assert(a / (leg as int) <= travel as int) by (nonlinear_arith)
            requires
                0 <= a <= travel as int * leg,
                leg > 0,
        ;
        assert(a / (leg as int) >= 0) by (nonlinear_arith)
            requires
                0 <= a,
                leg > 0,
        ;
    }
    let pos: i64 = from + step;
    if pos < 0 {
        0
    } else if pos > travel as i64 {
        travel
    } else {
        pos as usize
    }
}

/// Each leg starts where the previous one was headed: at the first tick of
/// leg `seg` the cat stands on that leg's target, the end of leg `seg - 1`.
pub proof fn lemma_wander_legs_chain(seg: nat, activity: u8, travel: usize)
    requires
        activity > 0,
        travel > 0,
        seg * leg_ticks(activity) <= usize::MAX,
    ensures
        wander_x_spec((seg * leg_ticks(activity)) as usize, activity, travel) == target_spec(
            seg as int,
            travel,
        ),
{
    let leg = leg_ticks(activity);
    let t = seg * leg;
    assert(t / leg == seg && t % leg == 0) by (nonlinear_arith)
        requires
            t == seg * leg,
            leg > 0,
    {
        vstd::arithmetic::div_mod::lemma_fundamental_div_mod_converse(t as int, leg, seg as int, 0);
    }
    assert(0 <= target_spec(seg as int, travel) <= travel);
}

/// Tail glyphs for `[top row, body row]`. A still cat lets the tail droop;
/// otherwise it rests straight and flicks up for the last four ticks of a
/// cadence set by activity.
pub open spec fn tail_spec(activity: u8, tick: usize) -> (Seq<char>, Seq<char>) {
    if activity == 0 {
        (" "@, "\\"@)
    } else {
        let period: int = match activity {
            3 => 14,
            2 => 34,
            _ => 60,
        };
        if tick as int % period >= period - 4 {
            (")"@, "/"@)
        } else {
            (" "@, "~"@)
        }
    }
}

/// Tail glyphs for `[top row, body row]`.
pub fn tail(activity: u8, tick: usize) -> (r: [&'static str; 2])
    ensures
        (r[0]@, r[1]@) == tail_spec(activity, tick),
{
    if activity == 0 {
        return [" ", "\\"];
    }
    let period: usize = match activity {
        3 => 14,
        2 => 34,
        _ => 60,
    };
    if tick % period >= period - 4 {
        [")", "/"]
    } else {
        [" ", "~"]
    }
}

/// The cat's mouth for each mood.
pub open spec fn mouth_spec(mood: CatMood) -> char {
    match mood {
        CatMood::Happy => 'w',
        CatMood::Content => '^',
        CatMood::Bored => '.',
        CatMood::Hungry => 'o',
        CatMood::Thirsty => 'u',
        CatMood::Sad => '_',
    }
}

pub fn mouth(mood: CatMood) -> (r: char)
    ensures
        r == mouth_spec(mood),
{
    match mood {
        CatMood::Happy => 'w',
        CatMood::Content => '^',
        CatMood::Bored => '.',
        CatMood::Hungry => 'o',
        CatMood::Thirsty => 'u',
        CatMood::Sad => '_',
    }
}

} // verus!
