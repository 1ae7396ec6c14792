use vstd::prelude::*;
use crate::fixed::floor_div;
use crate::config::{SCALE, TURN, HALF_TURN, QUARTER_TURN, THREE_QUARTER_TURN, TRIG_LIMIT};

verus! {

pub open spec fn abs(x: int) -> int {
    if x < 0 {
        -x
    } else {
        x
    }
}

/// An angle brought into `[0, TURN)`.
pub open spec fn norm_angle(a: int) -> int {
    a % (TURN as int)
}

/// Brings an angle into `[0, TURN)`.
pub fn normalize_angle(a: i64) -> (r: u32)
    ensures
        r == norm_angle(a as int),
        r < TURN,
{
    let q = floor_div(a, TURN as i64);
    proof {
        vstd::arithmetic::div_mod::lemma_fundamental_div_mod(a as int, TURN as int);
        vstd::arithmetic::div_mod::lemma_mod_bound(a as int, TURN as int);
    }
    (a as i128 - q as i128 * TURN as i128) as u32
}

/// Fixed-point tangent, cotangent and cosine of every angle unit of a turn.
#[derive(Debug)]
pub struct TrigTable {
    pub tan: Vec<i64>,
    pub cot: Vec<i64>,
    pub cos: Vec<i64>,
}

/// The entries at angle `a` are in range, and at least one of tangent and
/// cotangent is at most one in magnitude.
pub open spec fn entries_ok(tan: Seq<i64>, cot: Seq<i64>, cos: Seq<i64>, a: int) -> bool {
    &&& abs(tan[a] as int) <= TRIG_LIMIT
    &&& abs(cot[a] as int) <= TRIG_LIMIT
    &&& abs(cos[a] as int) <= SCALE
    &&& (abs(tan[a] as int) <= SCALE || abs(cot[a] as int) <= SCALE)
    &&& signs_ok(tan, cot, cos, a)
}

/// Each entry has the sign of its function in the quadrant of `a`.
pub open spec fn signs_ok(tan: Seq<i64>, cot: Seq<i64>, cos: Seq<i64>, a: int) -> bool {
    &&& (0 < a < QUARTER_TURN ==> tan[a] >= 0 && cot[a] >= 0 && cos[a] >= 0)
    &&& (QUARTER_TURN < a < HALF_TURN ==> tan[a] <= 0 && cot[a] <= 0 && cos[a] <= 0)
    &&& (HALF_TURN < a < THREE_QUARTER_TURN ==> tan[a] >= 0 && cot[a] >= 0 && cos[a] <= 0)
    &&& (THREE_QUARTER_TURN < a < TURN ==> tan[a] <= 0 && cot[a] <= 0 && cos[a] >= 0)
}

pub open spec fn tables_ok(tan: Seq<i64>, cot: Seq<i64>, cos: Seq<i64>) -> bool {
    &&& tan.len() == TURN
    &&& cot.len() == TURN
    &&& cos.len() == TURN
    &&& forall|a: int| 0 <= a < TURN ==> #[trigger] entries_ok(tan, cot, cos, a)
    &&& tan[0] == 0
    &&& tan[HALF_TURN as int] == 0
    &&& cot[QUARTER_TURN as int] == 0
    &&& cot[THREE_QUARTER_TURN as int] == 0
    &&& cos[0] == SCALE
}

fn abs_i64(x: i64) -> (r: i64)
    requires
        x > i64::MIN,
    ensures
        r == abs(x as int),
{
    if x < 0 {
        -x
    } else {
        x
    }
}

impl TrigTable {
    pub open spec fn wf(&self) -> bool {
        tables_ok(self.tan@, self.cot@, self.cos@)
    }

    /// A table from its three columns; `None` unless every column has an entry
    /// per angle unit, the entries are in range, and the axis angles carry
    /// their exact values.
    pub fn from_tables(tan: Vec<i64>, cot: Vec<i64>, cos: Vec<i64>) -> (t: Option<TrigTable>)
        ensures
            t is Some <==> tables_ok(tan@, cot@, cos@),
            t matches Some(tt) ==> tt.tan@ == tan@ && tt.cot@ == cot@ && tt.cos@ == cos@,
    {
        if tan.len() != TURN as usize || cot.len() != TURN as usize || cos.len() != TURN as usize {
            return None;
        }
        let mut a: usize = 0;
        while a < TURN as usize
            invariant
                a <= TURN,
                tan@.len() == TURN && cot@.len() == TURN && cos@.len() == TURN,
                forall|b: int| 0 <= b < a ==> #[trigger] entries_ok(tan@, cot@, cos@, b),
            decreases TURN - a,
        {
            if tan[a] == i64::MIN || cot[a] == i64::MIN || cos[a] == i64::MIN {
                assert(!entries_ok(tan@, cot@, cos@, a as int));
                return None;
            }
            let t = abs_i64(tan[a]);
            let c = abs_i64(cot[a]);
            let k = abs_i64(cos[a]);
            let (tv, cv, kv) = (tan[a], cot[a], cos[a]);
            let q = QUARTER_TURN as usize;
            let h = HALF_TURN as usize;
            let tq = THREE_QUARTER_TURN as usize;
            let positive_quadrant = (0 < a && a < q) || (h < a && a < tq);
            let negative_quadrant = (q < a && a < h) || tq < a;
            let cos_positive = (0 < a && a < q) || tq < a;
            let cos_negative = (q < a && a < h) || (h < a && a < tq);
            let bad_sign = (positive_quadrant && (tv < 0 || cv < 0))
                || (negative_quadrant && (tv > 0 || cv > 0))
                || (cos_positive && kv < 0)
                || (cos_negative && kv > 0);
            if t > TRIG_LIMIT || c > TRIG_LIMIT || k > SCALE || (t > SCALE && c > SCALE) || bad_sign {
                assert(!entries_ok(tan@, cot@, cos@, a as int));
                return None;
            }
            a += 1;
        }
        if tan[0] != 0 || tan[HALF_TURN as usize] != 0 || cot[QUARTER_TURN as usize] != 0
            || cot[THREE_QUARTER_TURN as usize] != 0 || cos[0] != SCALE {
            return None;
        }
        Some(TrigTable { tan, cot, cos })
    }
}

} // verus!
