//! The observable scheduler state carried by the event stream: idle,
//! sleeping until the next fade window with a whole-seconds countdown, or
//! fading with a progress position in `[0, UNIT]`.

use vstd::prelude::*;
use vstd::string::StringExecFns;

verus! {

/// What the scheduler is doing right now, as reported to consumers.
/// Fade progress is a fixed-point position: `progress / UNIT` of the way
/// from the previous theme to the next.
#[derive(Clone, Copy, Debug, PartialEq, Eq, Structural)]
pub enum SimulationState {
    Idle,
    Sleeping { seconds_remaining: usize },
    Fading { progress: u32 },
}

pub open spec fn digit_char(d: int) -> char {
    if d == 0 {
        '0'
    } else if d == 1 {
        '1'
    } else if d == 2 {
        '2'
    } else if d == 3 {
        '3'
    } else if d == 4 {
        '4'
    } else if d == 5 {
        '5'
    } else if d == 6 {
        '6'
    } else if d == 7 {
        '7'
    } else if d == 8 {
        '8'
    } else {
        '9'
    }
}

/// The decimal rendering of a natural number, most significant digit first.
pub open spec fn spec_decimal(n: int) -> Seq<char>
    decreases n,
{
    if n < 10 {
        seq![digit_char(n)]
    } else {
        spec_decimal(n / 10).push(digit_char(n % 10))
    }
}

/// Append one decimal digit's character.
fn append_digit(s: &mut String, d: u64)
    requires
        d < 10,
    ensures
        final(s)@ == old(s)@ + seq![digit_char(d as int)],
{
    if d == 0 {
        proof {
            reveal_strlit("0");
        }
        s.append("0");
    } else if d == 1 {
        proof {
            reveal_strlit("1");
        }
        s.append("1");
    } else if d == 2 {
        proof {
            reveal_strlit("2");
        }
        s.append("2");
    } else if d == 3 {
        proof {
            reveal_strlit("3");
        }
        s.append("3");
    } else if d == 4 {
        proof {
            reveal_strlit("4");
        }
        s.append("4");
    } else if d == 5 {
        proof {
            reveal_strlit("5");
        }
        s.append("5");
    } else if d == 6 {
        proof {
            reveal_strlit("6");
        }
        s.append("6");
    } else if d == 7 {
        proof {
            reveal_strlit("7");
        }
        s.append("7");
    } else if d == 8 {
        proof {
            reveal_strlit("8");
        }
        s.append("8");
    } else {
        proof {
            reveal_strlit("9");
        }
        s.append("9");
    }
    proof {
        assert(s@ =~= old(s)@ + seq![digit_char(d as int)]);
    }
}

/// Append the decimal rendering of `n`.
fn append_decimal(s: &mut String, n: u64)
    ensures
        final(s)@ == old(s)@ + spec_decimal(n as int),
    decreases n,
{
    if n >= 10 {
        append_decimal(s, n / 10);
    }
    append_digit(s, n % 10);
    proof {
        assert(s@ =~= old(s)@ + spec_decimal(n as int));
    }
}

impl SimulationState {
    /// The text a consumer shows for this state.
    pub open spec fn spec_display(self) -> Seq<char> {
        match self {
            SimulationState::Idle => Seq::empty(),
            SimulationState::Sleeping { seconds_remaining } => "Status: Sleeping... "@
                + spec_decimal(seconds_remaining as int) + "s"@,
            SimulationState::Fading { .. } => "Status: Fading..."@,
        }
    }

    /// Render the state for display: nothing when idle, the whole-seconds
    /// countdown when sleeping, a fixed notice when fading.
    pub fn display(&self) -> (r: String)
        ensures
            r@ == self.spec_display(),
    {
        match self {
            SimulationState::Idle => {
                let r = String::new();
                proof {
                    assert(r@ =~= self.spec_display());
                }
                r
            },
            SimulationState::Sleeping { seconds_remaining } => {
                let mut r = String::new();
                r.append("Status: Sleeping... ");
                append_decimal(&mut r, *seconds_remaining as u64);
                r.append("s");
                proof {
                    assert(r@ =~= self.spec_display());
                }
                r
            },
            SimulationState::Fading { .. } => {
                let mut r = String::new();
                r.append("Status: Fading...");
                proof {
                    assert(r@ =~= self.spec_display());
                }
                r
            },
        }
    }
}

} // verus!
