//! The job catalogue of the surrounding economy features: a fixed set of
//! jobs, each with a wire name and a description, parsed from and printed
//! to plain strings.

use vstd::prelude::*;

use vstd::string::StrSliceExecFns;

verus! {

/// A job a user can hold, or `Unemployed` when they hold none.
#[derive(Clone, Copy, PartialEq, Eq, Structural, Debug)]
pub enum JobType {
    Miner,
    Farmer,
    Programmer,
    Teacher,
    Doctor,
    Unemployed,
}

/// The job named by a string: one of the five wire names, and `Unemployed`
/// for anything else.
pub open spec fn job_from_chars(s: Seq<char>) -> JobType {
    if s == "miner"@ {
        JobType::Miner
    } else if s == "farmer"@ {
        JobType::Farmer
    } else if s == "programmer"@ {
        JobType::Programmer
    } else if s == "teacher"@ {
        JobType::Teacher
    } else if s == "doctor"@ {
        JobType::Doctor
    } else {
        JobType::Unemployed
    }
}

/// The wire name of a job.
pub open spec fn job_name_chars(j: JobType) -> Seq<char> {
    match j {
        JobType::Miner => "miner"@,
        JobType::Farmer => "farmer"@,
        JobType::Programmer => "programmer"@,
        JobType::Teacher => "teacher"@,
        JobType::Doctor => "doctor"@,
        JobType::Unemployed => "none"@,
    }
}

/// The description of a job.
pub open spec fn job_description_chars(j: JobType) -> Seq<char> {
    match j {
        JobType::Miner => "Extract precious resources from the depths for the motherland"@,
        JobType::Farmer => "Grow crops to feed your fellow comrades"@,
        JobType::Programmer => "Develop software for the glory of the collective"@,
        JobType::Teacher => "Educate the youth in the ways of our society"@,
        JobType::Doctor => "Heal the sick and care for the injured workers"@,
        JobType::Unemployed => "Unemployed and bringing shame to your comrades"@,
    }
}

/// Character-by-character string equality.
fn str_eq(a: &str, b: &str) -> (r: bool)
    ensures
        r == (a@ == b@),
{
    let la = a.unicode_len();
    let lb = b.unicode_len();
    if la != lb {
        return false;
    }
    let mut i: usize = 0;
    while i < la
        invariant
            la == a@.len(),
            la == b@.len(),
            i <= la,
            forall|j: int| 0 <= j < i ==> a@[j] == b@[j],
        decreases la - i,
    {
        if a.get_char(i) != b.get_char(i) {
            return false;
        }
        i = i + 1;
    }
    proof {
        assert(a@ =~= b@);
    }
    true
}

impl JobType {
    /// Parse a job from its wire name; unknown names mean no job.
    pub fn from_string(s: &str) -> (j: JobType)
        ensures
            j == job_from_chars(s@),
    {
        if str_eq(s, "miner") {
            JobType::Miner
        } else if str_eq(s, "farmer") {
            JobType::Farmer
        } else if str_eq(s, "programmer") {
            JobType::Programmer
        } else if str_eq(s, "teacher") {
            JobType::Teacher
        } else if str_eq(s, "doctor") {
            JobType::Doctor
        } else {
            JobType::Unemployed
        }
    }

    /// The wire name of this job.
    pub fn to_string(&self) -> (r: String)
        ensures
            r@ == job_name_chars(*self),
    {
        match self {
            JobType::Miner => "miner".to_owned(),
            JobType::Farmer => "farmer".to_owned(),
            JobType::Programmer => "programmer".to_owned(),
            JobType::Teacher => "teacher".to_owned(),
            JobType::Doctor => "doctor".to_owned(),
            JobType::Unemployed => "none".to_owned(),
        }
    }

    /// The human-readable description of this job.
    pub fn get_description(&self) -> (r: String)
        ensures
            r@ == job_description_chars(*self),
    {
        match self {
            JobType::Miner => "Extract precious resources from the depths for the motherland".to_owned(),
            JobType::Farmer => "Grow crops to feed your fellow comrades".to_owned(),
            JobType::Programmer => "Develop software for the glory of the collective".to_owned(),
            JobType::Teacher => "Educate the youth in the ways of our society".to_owned(),
            JobType::Doctor => "Heal the sick and care for the injured workers".to_owned(),
            JobType::Unemployed => "Unemployed and bringing shame to your comrades".to_owned(),
        }
    }

    /// Every job a user can apply for, in display order.
    pub fn list_all() -> (v: Vec<JobType>)
        ensures
            v@ == seq![
                JobType::Miner,
                JobType::Farmer,
                JobType::Programmer,
                JobType::Teacher,
                JobType::Doctor,
            ],
    {
        let mut v: Vec<JobType> = Vec::new();
        v.push(JobType::Miner);
        v.push(JobType::Farmer);
        v.push(JobType::Programmer);
        v.push(JobType::Teacher);
        v.push(JobType::Doctor);
        proof {
            assert(v@ =~= seq![
                JobType::Miner,
                JobType::Farmer,
                JobType::Programmer,
                JobType::Teacher,
                JobType::Doctor,
            ]);
        }
        v
    }
}

/// Law: printing a job's wire name and parsing it back yields the job,
/// except that no job prints as "none", which parses back to no job.
pub proof fn lemma_job_name_round_trip(j: JobType)
    ensures
        job_from_chars(job_name_chars(j)) == j,
{
    reveal_strlit("miner");
    reveal_strlit("farmer");
    reveal_strlit("programmer");
    reveal_strlit("teacher");
    reveal_strlit("doctor");
    reveal_strlit("none");
    assert("miner"@.len() == 5 && "farmer"@.len() == 6 && "programmer"@.len() == 10
        && "teacher"@.len() == 7 && "doctor"@.len() == 6 && "none"@.len() == 4);
    assert("doctor"@[0] == 'd' && "farmer"@[0] == 'f');
}

} // verus!
