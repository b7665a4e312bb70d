//! Where a request is sent on after a submission.

use vstd::prelude::*;
use vstd::string::StringExecFns;

verus! {

/// A failure that is answered by sending the browser to another page.
#[derive(Clone, Debug, PartialEq, Eq)]
pub enum SeeOtherError {
    /// Send the browser to this location.
    SeeOther(String),
}

impl SeeOtherError {
    /// Where the browser is sent.
    pub open spec fn target(self) -> Seq<char> {
        match self {
            SeeOtherError::SeeOther(location) => location@,
        }
    }

    /// Where the browser is sent.
    pub fn location(&self) -> (location: &String)
        ensures
            location@ == self.target(),
    {
        match self {
            SeeOtherError::SeeOther(location) => location,
        }
    }
}

/// The failure that sends the browser to `location`.
pub fn see_other_error(location: &str) -> (error: SeeOtherError)
    ensures
        error.target() == location@,
{
    SeeOtherError::SeeOther(String::from_str(location))
}

/// The address of the scores page.
pub open spec fn scores_location(matchup_id: Option<Seq<char>>) -> Seq<char> {
    match matchup_id {
        Some(id) => "/scores?matchup_id="@ + id,
        None => "/scores"@,
    }
}

/// The address of the scores page, with the matchup written `matchup_id`
/// chosen if there is one.
pub fn scores_page_location(matchup_id: Option<&str>) -> (location: String)
    ensures
        location@ == scores_location(
            match matchup_id {
                Some(id) => Some(id@),
                None => None,
            },
        ),
{
    match matchup_id {
        Some(id) => String::from_str("/scores?matchup_id=").concat(id),
        None => String::from_str("/scores"),
    }
}

} // verus!
