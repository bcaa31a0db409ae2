use vstd::prelude::*;

use crate::common::{billiard_albedo, random_billiard_color, Albedo};
use crate::material::NumberType;

verus! {

/// A ball of the default (random) scene before its random placement: the
/// grid cell `(a, b)` around which it is dropped, its ball number, its
/// colour and the figure of its numbered spot.
#[derive(Clone, Copy, Debug, PartialEq, Eq)]
pub struct BallSlot {
    pub a: i32,
    pub b: i32,
    pub count: usize,
    pub albedo: Albedo,
    pub number_type: NumberType,
}

/// The number of balls of the default scene: the numbers 0 to 16.
pub const RACK_SIZE: usize = 17;

/// The `k`-th ball of the default scene: the cells of the grid
/// `a in -1..3`, `b in -1..4` are filled in row order with the balls
/// 0 to 16; even balls carry a line, odd balls a circle.
pub open spec fn rack_slot(k: nat) -> BallSlot {
    BallSlot {
        a: (k / 5 - 1) as i32,
        b: (k % 5 - 1) as i32,
        count: k as usize,
        albedo: billiard_albedo(k),
        number_type: if k % 2 == 0 { NumberType::Line } else { NumberType::Circle },
    }
}

/// The number of balls placed once `cells` grid cells have been visited.
pub open spec fn balls_after(cells: int) -> int {
    if cells < RACK_SIZE { cells } else { RACK_SIZE as int }
}

/// The balls of the default scene, in the order in which they are placed:
/// one per grid cell until the numbers 0 to 16 are used up.
pub fn random_scene_rack() -> (v: Vec<BallSlot>)
    ensures
        v@.len() == RACK_SIZE,
        forall|k: int| 0 <= k < RACK_SIZE ==> #[trigger] v@[k] == rack_slot(k as nat),
{
    let mut v: Vec<BallSlot> = Vec::new();
    let mut count_balls: usize = 0;
    let nbr_of_balls: usize = 16;
    let mut a: i32 = -1;
    while a < 3
        invariant
            -1 <= a <= 3,
            nbr_of_balls == 16,
            count_balls == balls_after((a + 1) * 5),
            v@.len() == count_balls,
            forall|k: int| 0 <= k < count_balls ==> #[trigger] v@[k] == rack_slot(k as nat),
        decreases 3 - a,
    {
        let mut b: i32 = -1;
        while b < 4
            invariant
                -1 <= a < 3,
                -1 <= b <= 4,
                nbr_of_balls == 16,
                count_balls == balls_after((a + 1) * 5 + (b + 1)),
                v@.len() == count_balls,
                forall|k: int| 0 <= k < count_balls ==> #[trigger] v@[k] == rack_slot(k as nat),
            decreases 4 - b,
        {
            if count_balls <= nbr_of_balls {
                let number_type = if count_balls % 2 == 0 { NumberType::Line } else { NumberType::Circle };
                let slot = BallSlot {
                    a,
                    b,
                    count: count_balls,
                    albedo: random_billiard_color(count_balls),
                    number_type,
                };
                assert(count_balls / 5 == a + 1 && count_balls % 5 == b + 1);
                assert(slot == rack_slot(count_balls as nat));
                v.push(slot);
                count_balls = count_balls + 1;
            }
            b = b + 1;
        }
        a = a + 1;
    }
    v
}

} // verus!
