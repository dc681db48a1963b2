use vstd::prelude::*;

verus! {

/// The four wheels of a car: front or rear, left or right.
#[derive(Copy, Clone, Debug, Eq, PartialEq, Structural)]
pub enum WheelPos {
    FL,
    FR,
    RL,
    RR,
}

/// The slot of a wheel in per-wheel arrays.
pub open spec fn wheel_index(w: WheelPos) -> nat {
    match w {
        WheelPos::FL => 0,
        WheelPos::FR => 1,
        WheelPos::RL => 2,
        WheelPos::RR => 3,
    }
}

pub open spec fn front(w: WheelPos) -> bool {
    w == WheelPos::FL || w == WheelPos::FR
}

pub open spec fn left(w: WheelPos) -> bool {
    w == WheelPos::FL || w == WheelPos::RL
}

impl WheelPos {
    /// The wheel in slot `value` of per-wheel arrays.
    pub fn from_index(value: usize) -> (r: WheelPos)
        requires
            value < 4,
        ensures
            wheel_index(r) == value,
    {
        match value {
            0 => WheelPos::FL,
            1 => WheelPos::FR,
            2 => WheelPos::RL,
            _ => WheelPos::RR,
        }
    }

    /// The wheel on the same axle, on the other side.
    pub fn other_lr(self) -> (r: Self)
        ensures
            front(r) == front(self),
            left(r) != left(self),
    {
        match self {
            WheelPos::FL => WheelPos::FR,
            WheelPos::FR => WheelPos::FL,
            WheelPos::RL => WheelPos::RR,
            WheelPos::RR => WheelPos::RL,
        }
    }

    /// The wheel on the same side, on the other axle.
    pub fn other_fb(self) -> (r: Self)
        ensures
            front(r) != front(self),
            left(r) == left(self),
    {
        match self {
            WheelPos::FL => WheelPos::RL,
            WheelPos::FR => WheelPos::RR,
            WheelPos::RL => WheelPos::FL,
            WheelPos::RR => WheelPos::FR,
        }
    }

    pub fn index(self) -> (r: usize)
        ensures
            r == wheel_index(self),
    {
        match self {
            WheelPos::FL => 0,
            WheelPos::FR => 1,
            WheelPos::RL => 2,
            WheelPos::RR => 3,
        }
    }

    /// Lateral sign of the wheel: -1 on the left, 1 on the right.
    pub fn sign_lr(self) -> (r: i32)
        ensures
            r == if left(self) { -1i32 } else { 1i32 },
    {
        match self {
            WheelPos::FL | WheelPos::RL => -1,
            WheelPos::FR | WheelPos::RR => 1,
        }
    }

    /// Longitudinal sign of the wheel: 1 at the front, -1 at the rear.
    pub fn sign_fb(self) -> (r: i32)
        ensures
            r == if front(self) { 1i32 } else { -1i32 },
    {
        match self {
            WheelPos::FL | WheelPos::FR => 1,
            WheelPos::RL | WheelPos::RR => -1,
        }
    }

    pub fn is_front(self) -> (r: bool)
        ensures
            r == front(self),
    {
        match self {
            WheelPos::FL | WheelPos::FR => true,
            WheelPos::RL | WheelPos::RR => false,
        }
    }

    pub fn is_rear(self) -> (r: bool)
        ensures
            r == !front(self),
    {
        match self {
            WheelPos::FL | WheelPos::FR => false,
            WheelPos::RL | WheelPos::RR => true,
        }
    }
}

} // verus!
