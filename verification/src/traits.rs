//! A duck, what it says when it waddles, and whether its quack echoes.
use vstd::prelude::*;
use vstd::string::StringExecFns;

verus! {

/// What a waddle shows: `waddle`, after `elegantly ` where it is elegant.
pub open spec fn spec_waddle(elegant: bool) -> Seq<char> {
    if elegant {
        "elegantly "@ + "waddle"@
    } else {
        "waddle"@
    }
}

/// A duck.
pub struct Duck {
    pub _echoes: bool,
}

impl Duck {
    /// A duck whose quack echoes or does not.
    pub fn new(echoes: bool) -> (duck: Duck)
        ensures
            duck._echoes == echoes,
    {
        let tmp__echoes = echoes;
        Duck { _echoes: tmp__echoes }
    }

    /// The line that a waddle shows.
    pub fn waddle(&self, elegant: bool) -> (line: String)
        ensures
            line@ == spec_waddle(elegant),
    {
        let mut line = String::new();
        if elegant {
            line.append("elegantly ");
        }
        line.append("waddle");
        assert(line@ =~= spec_waddle(elegant));
        line
    }

    /// Whether the quack echoes.
    pub fn echoes(&self) -> (r: bool)
        ensures
            r == self._echoes,
    {
        self._echoes
    }
}

/// Lets the duck waddle, without elegance, and returns the line shown.
pub fn make_it_waddle(waddler: &Duck) -> (line: String)
    ensures
        line@ == spec_waddle(false),
{
    waddler.waddle(false)
}

/// Makes a duck whose quack echoes and lets it waddle; returns the line shown.
pub fn tests() -> (line: String)
    ensures
        line@ == spec_waddle(false),
{
    let donald = Duck::new(true);
    make_it_waddle(&donald)
}

} // verus!
