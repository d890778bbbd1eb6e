//! A CUC time record with an explicit time code and room for three fine bytes.
use vstd::prelude::*;

verus! {

/// Seconds from 1958-01-01 to 1970-01-01, negated.
pub const EPOCH_1958_SEC_DELTA: i32 = -378691200;

/// A time code and its coarse and fine bytes, whatever the code's fine width.
#[derive(Clone, Copy, Debug, PartialEq, Eq, Structural)]
pub struct Time {
    pub p_field: u8,
    pub t_coarse0: u8,
    pub t_coarse1: u8,
    pub t_coarse2: u8,
    pub t_coarse3: u8,
    pub t_fine0: u8,
    pub t_fine1: u8,
    pub t_fine2: u8,
}

impl Time {
    /// All bytes zero.
    pub fn new() -> (r: Time)
        ensures
            r == (Time {
                p_field: 0,
                t_coarse0: 0,
                t_coarse1: 0,
                t_coarse2: 0,
                t_coarse3: 0,
                t_fine0: 0,
                t_fine1: 0,
                t_fine2: 0,
            }),
    {
        Time {
            p_field: 0,
            t_coarse0: 0,
            t_coarse1: 0,
            t_coarse2: 0,
            t_coarse3: 0,
            t_fine0: 0,
            t_fine1: 0,
            t_fine2: 0,
        }
    }

    /// The record with the given bytes.
    pub fn new_init(
        p_field: u8,
        t_coarse0: u8,
        t_coarse1: u8,
        t_coarse2: u8,
        t_coarse3: u8,
        t_fine0: u8,
        t_fine1: u8,
        t_fine2: u8,
    ) -> (r: Time)
        ensures
            r == (Time { p_field, t_coarse0, t_coarse1, t_coarse2, t_coarse3, t_fine0, t_fine1, t_fine2 }),
    {
        Time { p_field, t_coarse0, t_coarse1, t_coarse2, t_coarse3, t_fine0, t_fine1, t_fine2 }
    }
}

} // verus!
