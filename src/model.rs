//! Entities of the time-tracking service and the client's settings.
use vstd::prelude::*;
use vstd::string::StringExecFns;

verus! {

/// Seconds in one day.
pub const SECONDS_PER_DAY: u32 = 86400;

/// A time of day, as seconds since midnight.
#[derive(Clone, Copy, Debug, PartialEq, Eq, Structural)]
pub struct TimeOfDay {
    pub seconds: u32,
}

impl TimeOfDay {
    pub open spec fn wf(&self) -> bool {
        self.seconds < SECONDS_PER_DAY
    }

    /// The time `hour:minute:second`, where each part is in range.
    pub fn from_hms(hour: u32, minute: u32, second: u32) -> (r: Option<TimeOfDay>)
        ensures
            r is Some <==> (hour < 24 && minute < 60 && second < 60),
            r matches Some(t) ==> t.wf() && t.seconds == hour * 3600 + minute * 60 + second,
    {
        if hour < 24 && minute < 60 && second < 60 {
            Some(TimeOfDay { seconds: hour * 3600 + minute * 60 + second })
        } else {
            None
        }
    }
}

/// The start time used when none is configured: 09:00.
pub fn default_start_time() -> (r: TimeOfDay)
    ensures
        r.wf(),
        r.seconds == 9 * 3600,
{
    TimeOfDay { seconds: 9 * 3600 }
}

/// Where the service is, how to authenticate, and the usual start of work.
#[derive(Debug)]
pub struct Config {
    pub endpoint: String,
    pub token: String,
    pub default_start_time: TimeOfDay,
}

#[derive(Debug)]
pub struct Project {
    pub id: i32,
    pub name: String,
}

impl Project {
    /// The label shown for the project: its name.
    pub fn display(&self) -> (r: String)
        ensures
            r@ == self.name@,
    {
        self.name.clone()
    }
}

#[derive(Debug)]
pub struct Activity {
    pub id: i32,
    pub parent_title: Option<String>,
    pub name: String,
}

pub open spec fn option_text(o: Option<String>) -> Option<Seq<char>> {
    match o {
        Some(s) => Some(s@),
        None => None,
    }
}

/// `"{parent} | {name}"` where there is a parent title, else the name.
pub open spec fn activity_label(parent: Option<Seq<char>>, name: Seq<char>) -> Seq<char> {
    match parent {
        Some(p) => p + seq![' ', '|', ' '] + name,
        None => name,
    }
}

impl Activity {
    /// The label shown for the activity.
    pub fn display(&self) -> (r: String)
        ensures
            r@ == activity_label(option_text(self.parent_title), self.name@),
    {
        match &self.parent_title {
            Some(parent) => {
                let mut s = parent.clone();
                s.append(" | ");
                s.append(self.name.as_str());
                proof {
                    reveal_strlit(" | ");
                }
                s
            },
            None => self.name.clone(),
        }
    }
}

} // verus!
