//! Members, streaks and attendance records.

use vstd::prelude::*;

verus! {

/// A member's streak as the streak listing gives it, with the member's id.
#[derive(Clone, Copy, Debug, PartialEq, Eq, Structural)]
pub struct StreakWithMemberId {
    pub member_id: i32,
    pub current_streak: i32,
    pub max_streak: i32,
}

/// A streak of status updates: how long it is now and how long it has
/// ever been.
#[derive(Clone, Copy, Debug, PartialEq, Eq, Structural)]
pub struct Streak {
    pub current_streak: i32,
    pub max_streak: i32,
}

/// A member of the organisation. The service sends no more than one streak
/// for a member, but it may send none.
#[derive(Debug)]
pub struct Member {
    pub member_id: i32,
    pub name: String,
    pub discord_id: String,
    pub group_id: i32,
    pub streak: Vec<Streak>,
}

/// A member as a value.
pub struct MemberView {
    pub member_id: int,
    pub name: Seq<char>,
    pub discord_id: Seq<char>,
    pub group_id: int,
    pub streak: Seq<Streak>,
}

impl View for Member {
    type V = MemberView;

    open spec fn view(&self) -> MemberView {
        MemberView {
            member_id: self.member_id as int,
            name: self.name@,
            discord_id: self.discord_id@,
            group_id: self.group_id as int,
            streak: self.streak@,
        }
    }
}

/// The members of a list as values, in order.
pub open spec fn member_views(members: Seq<Member>) -> Seq<MemberView> {
    members.map_values(|m: Member| m@)
}

fn copy_streaks(streaks: &Vec<Streak>) -> (r: Vec<Streak>)
    ensures
        r@ == streaks@,
{
    let mut r: Vec<Streak> = Vec::new();
    let mut i: usize = 0;
    while i < streaks.len()
        invariant
            i <= streaks.len(),
            r@ == streaks@.take(i as int),
        decreases streaks.len() - i,
    {
        r.push(streaks[i]);
        proof {
            assert(r@ =~= streaks@.take(i + 1));
        }
        i = i + 1;
    }
    proof {
        assert(streaks@.take(streaks.len() as int) =~= streaks@);
    }
    r
}

impl Clone for Member {
    fn clone(&self) -> (r: Member)
        ensures
            r@ == self@,
    {
        Member {
            member_id: self.member_id,
            name: self.name.clone(),
            discord_id: self.discord_id.clone(),
            group_id: self.group_id,
            streak: copy_streaks(&self.streak),
        }
    }
}

impl Member {
    /// Records the streak that the service reported for this member: as the
    /// member's one streak if there was none, else in place of every streak
    /// held.
    pub fn set_streak(&mut self, current_streak: i32, max_streak: i32)
        ensures
            final(self)@ == (MemberView {
                streak: if old(self).streak@.len() == 0 {
                    seq![Streak { current_streak, max_streak }]
                } else {
                    Seq::new(
                        old(self).streak@.len(),
                        |i: int| Streak { current_streak, max_streak },
                    )
                },
                ..old(self)@
            }),
    {
        let n: usize = self.streak.len();
        let mut streak: Vec<Streak> = Vec::new();
        if n == 0 {
            streak.push(Streak { current_streak, max_streak });
            proof {
                assert(streak@ =~= seq![Streak { current_streak, max_streak }]);
            }
        } else {
            let mut i: usize = 0;
            while i < n
                invariant
                    i <= n,
                    streak@ == Seq::new(i as nat, |k: int| Streak { current_streak, max_streak }),
                decreases n - i,
            {
                streak.push(Streak { current_streak, max_streak });
                proof {
                    assert(streak@ =~= Seq::new(
                        (i + 1) as nat,
                        |k: int| Streak { current_streak, max_streak },
                    ));
                }
                i = i + 1;
            }
        }
        self.streak = streak;
    }
}

/// One member's attendance on one day. `time_in` is the time of arrival,
/// as `HH:MM:SS` with an optional fraction.
#[derive(Debug)]
pub struct AttendanceRecord {
    pub name: String,
    pub year: i32,
    pub is_present: bool,
    pub time_in: Option<String>,
}

/// An attendance record as a value.
pub struct AttendanceView {
    pub name: Seq<char>,
    pub year: int,
    pub is_present: bool,
    pub time_in: Option<Seq<char>>,
}

impl View for AttendanceRecord {
    type V = AttendanceView;

    open spec fn view(&self) -> AttendanceView {
        AttendanceView {
            name: self.name@,
            year: self.year as int,
            is_present: self.is_present,
            time_in: match self.time_in {
                Some(t) => Some(t@),
                None => None,
            },
        }
    }
}

impl Clone for AttendanceRecord {
    fn clone(&self) -> (r: AttendanceRecord)
        ensures
            r@ == self@,
    {
        AttendanceRecord {
            name: self.name.clone(),
            year: self.year,
            is_present: self.is_present,
            time_in: match &self.time_in {
                Some(t) => Some(t.clone()),
                None => None,
            },
        }
    }
}

} // verus!
