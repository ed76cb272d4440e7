//! The middleware stack: which layers wrap the routes, and in which order.

use vstd::prelude::*;
use crate::config::Config;

verus! {

/// The largest request body that is let through, in bytes.
pub const BODY_LIMIT_BYTES: usize = 8_000_000;

/// How long a browser may cache the answer to a preflight request, in seconds.
pub const PREFLIGHT_MAX_AGE_SECS: u64 = 600;

/// One layer of middleware around the routes.
#[derive(Clone, Copy, Debug, PartialEq, Eq, Structural)]
pub enum Layer {
    /// Turns away requests whose body is larger than `max_bytes`.
    BodyLimit { max_bytes: usize },
    /// Allows every origin, and answers preflight requests by itself.
    Cors { max_age_secs: u64 },
    /// Records the start and the completion of each request it sees.
    Trace,
}

/// The stack for a configuration, outermost layer first: the body limit sees
/// the raw request before anything else, tracing sits right around the routes.
pub open spec fn stack_of(config: Config) -> Seq<Layer> {
    if config.cors {
        seq![
            Layer::BodyLimit { max_bytes: BODY_LIMIT_BYTES },
            Layer::Cors { max_age_secs: PREFLIGHT_MAX_AGE_SECS },
            Layer::Trace,
        ]
    } else {
        seq![Layer::BodyLimit { max_bytes: BODY_LIMIT_BYTES }, Layer::Trace]
    }
}

/// Builds the stack for `config`, outermost layer first.
pub fn middleware_stack(config: &Config) -> (stack: Vec<Layer>)
    ensures
        stack@ == stack_of(*config),
{
    let mut stack: Vec<Layer> = Vec::new();
    stack.push(Layer::BodyLimit { max_bytes: BODY_LIMIT_BYTES });
    if config.cors {
        stack.push(Layer::Cors { max_age_secs: PREFLIGHT_MAX_AGE_SECS });
    }
    stack.push(Layer::Trace);
    stack
}

} // verus!
