//! Grading a class by score.

use vstd::prelude::*;

verus! {

/// A grade, from the best to the worst.
#[derive(Debug, Clone, Copy, PartialEq, Eq, Structural)]
pub enum GradeLevel {
    A,
    B,
    C,
    D,
    E,
}

/// A classmate: a number, a score, and a grade once one is given.
#[derive(Debug)]
pub struct UserInfo {
    pub num: u32,
    pub scope: u32,
    pub level: Option<GradeLevel>,
}

/// The grade that a score earns: `A` from 90 to 100, then one grade less for
/// every ten points down to 60, and `E` for every other score.
pub open spec fn grade_of(scope: u32) -> GradeLevel {
    if 90 <= scope <= 100 {
        GradeLevel::A
    } else if 80 <= scope <= 89 {
        GradeLevel::B
    } else if 70 <= scope <= 79 {
        GradeLevel::C
    } else if 60 <= scope <= 69 {
        GradeLevel::D
    } else {
        GradeLevel::E
    }
}

impl UserInfo {
    /// The classmate with the number `_num` and the score `_scope`, not
    /// graded yet.
    pub fn new(_num: u32, _scope: u32) -> (r: UserInfo)
        ensures
            r.num == _num,
            r.scope == _scope,
            r.level.is_none(),
    {
        UserInfo { num: _num, scope: _scope, level: None }
    }

    /// The grade that the classmate's score earns.
    pub fn grade(&self) -> (r: GradeLevel)
        ensures
            r == grade_of(self.scope),
    {
        if self.scope > 100 {
            GradeLevel::E
        } else if self.scope >= 90 {
            GradeLevel::A
        } else if self.scope >= 80 {
            GradeLevel::B
        } else if self.scope >= 70 {
            GradeLevel::C
        } else if self.scope >= 60 {
            GradeLevel::D
        } else {
            GradeLevel::E
        }
    }
}

} // verus!
