//! HTTP methods and rendering strategies.

use vstd::prelude::*;

verus! {

/// The HTTP methods a route may be registered under.
#[derive(Clone, Copy, Debug, PartialEq, Eq, Hash, Structural)]
pub enum Method {
    Get,
    Post,
    Put,
    Delete,
    Patch,
}

/// How a route's view is turned into a response body.
#[derive(Clone, Copy, Debug, PartialEq, Eq, Hash, Structural)]
pub enum SsrMode {
    /// Stream at once; suspended sections arrive later, out of band.
    OutOfOrder,
    /// As `OutOfOrder`, but blocking sections are replaced inline by the renderer.
    PartiallyBlocked,
    /// Stream in final document order.
    InOrder,
    /// Collect the whole document, then send it in one piece.
    Async,
}

/// What a strategy asks of the renderer that produces the fragments.
#[derive(Clone, Copy, Debug, PartialEq, Eq, Structural)]
pub struct RenderPlan {
    /// The renderer hands out its fragments in final document order.
    pub in_order: bool,
    /// The renderer replaces blocking sections inline, before their
    /// fragments are handed out.
    pub replace_blocks: bool,
    /// The metadata that rendering registers for the document's head goes
    /// out in front of the first fragment. Where it does not, it is part of
    /// the head markup that is built at the end.
    pub head_in_stream: bool,
}

impl Default for SsrMode {
    /// Out of order.
    fn default() -> (m: SsrMode)
        ensures
            m == SsrMode::OutOfOrder,
    {
        SsrMode::OutOfOrder
    }
}

impl SsrMode {
    /// What the strategy asks of the renderer.
    pub open spec fn spec_plan(self) -> RenderPlan {
        match self {
            SsrMode::OutOfOrder => RenderPlan {
                in_order: false,
                replace_blocks: false,
                head_in_stream: true,
            },
            SsrMode::PartiallyBlocked => RenderPlan {
                in_order: false,
                replace_blocks: true,
                head_in_stream: true,
            },
            SsrMode::InOrder => RenderPlan {
                in_order: true,
                replace_blocks: false,
                head_in_stream: true,
            },
            SsrMode::Async => RenderPlan {
                in_order: true,
                replace_blocks: false,
                head_in_stream: false,
            },
        }
    }

    /// What the strategy asks of the renderer.
    #[verifier::when_used_as_spec(spec_plan)]
    pub fn plan(self) -> (p: RenderPlan)
        ensures
            p == self.spec_plan(),
    {
        match self {
            SsrMode::OutOfOrder => RenderPlan {
                in_order: false,
                replace_blocks: false,
                head_in_stream: true,
            },
            SsrMode::PartiallyBlocked => RenderPlan {
                in_order: false,
                replace_blocks: true,
                head_in_stream: true,
            },
            SsrMode::InOrder => RenderPlan {
                in_order: true,
                replace_blocks: false,
                head_in_stream: true,
            },
            SsrMode::Async => RenderPlan {
                in_order: true,
                replace_blocks: false,
                head_in_stream: false,
            },
        }
    }

    /// Whether bytes leave before the fragment sequence has ended.
    pub open spec fn spec_streams(self) -> bool {
        self != SsrMode::Async
    }

    /// Whether bytes leave before the fragment sequence has ended.
    #[verifier::when_used_as_spec(spec_streams)]
    pub fn streams(self) -> (b: bool)
        ensures
            b == self.spec_streams(),
    {
        match self {
            SsrMode::Async => false,
            _ => true,
        }
    }
}

} // verus!
