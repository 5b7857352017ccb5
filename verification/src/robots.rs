//! Robots files, by way of `texting_robots`.
use texting_robots::Robot;
use vstd::prelude::*;

verus! {

/// `texting_robots::Robot`: a robots file, compiled for one user agent. Nothing
/// inside it is read here; it is asked through `Robot::allowed`.
#[verifier::external_type_specification]
#[verifier::external_body]
pub struct ExRobot(Robot);

/// `anyhow::Error`, with which `Robot::new` fails.
#[verifier::external_type_specification]
#[verifier::external_body]
pub struct ExAnyhowError(anyhow::Error);

/// The URLs that `robot` allows: those on which `Robot::allowed` answers yes.
pub uninterp spec fn permitted(robot: Robot) -> Set<Seq<char>>;

/// What `Robot::new` compiles from the robots file `text` for the user agent
/// `agent`: the URLs allowed, or `None` where it reports an error.
pub uninterp spec fn compiled(agent: Seq<char>, text: Seq<u8>) -> Option<Set<Seq<char>>>;

/// `texting_robots::Robot::new` is taken to be a function of the agent and
/// the file: it fails on the same ones every time, and what it returns allows
/// the same URLs every time. That is all that is claimed here; which files it
/// refuses and which URLs it allows is left to it.
pub assume_specification[ Robot::new ](agent: &str, txt: &[u8]) -> (r: Result<Robot, anyhow::Error>)
    ensures
        match r {
            Ok(robot) => compiled(agent@, txt@) == Some(permitted(robot)),
            Err(_) => compiled(agent@, txt@) is None,
        },
;

/// `texting_robots::Robot::allowed` is taken to answer for a URL by the rules
/// that the robot holds and by nothing else, so that the URLs it allows are a
/// set.
pub assume_specification[ Robot::allowed ](robot: &Robot, url: &str) -> (b: bool)
    ensures
        b == permitted(*robot).contains(url@),
;

/// What `anyhow::Error` prints of itself and of its causes. Nothing is
/// claimed of the text.
#[verifier::external_body]
pub(crate) fn describe(error: &anyhow::Error) -> String {
    format!("{:#}", error)
}

} // verus!
