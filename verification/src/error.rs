//! The error taxonomy: operational errors carrying context, an optional
//! underlying cause and actionable hints; input errors tied to a script
//! position; and usage errors for malformed harness configuration.

use vstd::prelude::*;

use crate::text::{dec_rep, format_u64};

verus! {

#[derive(Debug)]
pub enum Error {
    /// Failure against an external system: a context phrase, an optional
    /// underlying cause, and zero or more actionable hints.
    General { ctx: String, cause: Option<String>, hints: Vec<String> },
    /// A position-tagged authoring error in the script.
    Input { msg: String, pos: usize },
    /// Malformed harness configuration, not tied to a script position.
    Usage { details: String, requested: bool },
}

/// The hint block of a rendered message: each hint on its own line.
pub open spec fn hints_text(hints: Seq<Seq<char>>) -> Seq<char>
    decreases hints.len(),
{
    if hints.len() == 0 {
        Seq::empty()
    } else {
        hints_text(hints.drop_last()) + "\nhint: "@ + hints.last()
    }
}

/// How an error renders: context, then the cause, then the hints; a
/// script error additionally reports its source position.
pub open spec fn rendered(e: Error) -> Seq<char> {
    match e {
        Error::General { ctx, cause, hints } => ctx@ + (match cause {
            Some(c) => ": "@ + c@,
            None => Seq::<char>::empty(),
        }) + hints_text(hints@.map_values(|h: String| h@)),
        Error::Input { msg, pos } => msg@ + " (at position "@ + dec_rep(pos as int) + ")"@,
        Error::Usage { details, requested } => details@,
    }
}

impl Error {
    /// Composes the user-visible message: context, cause, hints.
    pub fn message(&self) -> (r: String)
        ensures
            r@ == rendered(*self),
    {
        match self {
            Error::General { ctx, cause, hints } => {
                let mut m = ctx.clone();
                match cause {
                    Some(c) => {
                        m.append(": ");
                        m.append(c.as_str());
                    },
                    None => {},
                }
                let ghost head = m@;
                let ghost ghints = hints@.map_values(|h: String| h@);
                let mut i: usize = 0;
                proof {
                    assert(ghints.take(0int) =~= Seq::<Seq<char>>::empty());
                }
                while i < hints.len()
                    invariant
                        0 <= i <= hints.len(),
                        ghints == hints@.map_values(|h: String| h@),
                        m@ == head + hints_text(ghints.take(i as int)),
                    decreases hints.len() - i,
                {
                    m.append("\nhint: ");
                    m.append(hints[i].as_str());
                    proof {
                        assert(ghints.take(i + 1).drop_last() =~= ghints.take(i as int));
                        assert(ghints.take(i + 1).last() == ghints[i as int]);
                        assert(head + (hints_text(ghints.take(i as int)) + "\nhint: "@
                            + ghints[i as int]) =~= ((head + hints_text(ghints.take(i as int)))
                            + "\nhint: "@) + ghints[i as int]);
                    }
                    i = i + 1;
                }
                proof {
                    assert(ghints.take(hints@.len() as int) =~= ghints);
                }
                m
            },
            Error::Input { msg, pos } => {
                let mut m = msg.clone();
                m.append(" (at position ");
                m.append(format_u64(*pos as u64).as_str());
                m.append(")");
                m
            },
            Error::Usage { details, requested } => details.clone(),
        }
    }
}

} // verus!
