use vstd::prelude::*;

verus! {

/// Why a candidate fuzz driver was rejected, tagged by the stage that rejected it.
#[derive(Clone, Debug, PartialEq, Eq)]
pub enum ProgramError {
    Syntax(String),
    Link(String),
    Execute(String),
    Fuzzer(String),
    Hang(String),
    Coverage(String),
}

/// A verdict whose work directory is kept as evidence: acceptance, a hang, or a
/// fuzzer failure.
pub open spec fn spec_keeps_workdir(verdict: Option<ProgramError>) -> bool {
    match verdict {
        None => true,
        Some(ProgramError::Hang(_)) => true,
        Some(ProgramError::Fuzzer(_)) => true,
        Some(_) => false,
    }
}

impl ProgramError {
    /// The diagnostic carried by the error.
    pub open spec fn spec_message(&self) -> Seq<char> {
        match self {
            ProgramError::Syntax(m) => m@,
            ProgramError::Link(m) => m@,
            ProgramError::Execute(m) => m@,
            ProgramError::Fuzzer(m) => m@,
            ProgramError::Hang(m) => m@,
            ProgramError::Coverage(m) => m@,
        }
    }

    /// The diagnostic carried by the error.
    pub fn message(&self) -> (r: &String)
        ensures
            r@ == self.spec_message(),
    {
        match self {
            ProgramError::Syntax(m) => m,
            ProgramError::Link(m) => m,
            ProgramError::Execute(m) => m,
            ProgramError::Fuzzer(m) => m,
            ProgramError::Hang(m) => m,
            ProgramError::Coverage(m) => m,
        }
    }
}

/// Whether the work directory of a candidate with this verdict survives cleanup.
pub fn keeps_workdir(verdict: &Option<ProgramError>) -> (r: bool)
    ensures
        r == spec_keeps_workdir(*verdict),
{
    match verdict {
        None => true,
        Some(ProgramError::Hang(_)) => true,
        Some(ProgramError::Fuzzer(_)) => true,
        Some(_) => false,
    }
}

} // verus!
