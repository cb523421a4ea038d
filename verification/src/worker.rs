//! The transform worker: a holder of configured pool-size state that exposes
//! the transformation rule in a blocking form and in a form that reserves an
//! explicit failure channel for the non-blocking calling convention. The pool
//! size is stored configuration only — the intended maximum concurrency for a
//! future dispatch layer — and bounds nothing yet.

use vstd::prelude::*;

use crate::rule;

verus! {

/// What a transformation returns: the code rewritten by the rule. The `id`
/// names the source unit for forward compatibility and does not influence
/// the result.
pub open spec fn transform_result(code: Seq<char>, id: Seq<char>) -> Seq<char> {
    rule::rewritten(code)
}

/// The failure channel reserved for the non-blocking path. The current rule
/// is total, so no call ever returns it.
#[derive(Debug, Clone, Copy, PartialEq, Eq)]
pub enum TransformError {
    /// A future fallible rule would report its failure here.
    RuleFailed,
}

/// A worker configured with a logical pool size, immutable for its lifetime.
pub struct NativeWorker {
    pool_size: u32,
}

impl NativeWorker {
    /// The pool size the worker was constructed with.
    pub closed spec fn spec_pool_size(&self) -> u32 {
        self.pool_size
    }

    /// Create a worker; an absent pool size defaults to 4. No validation is
    /// performed: zero and very large values are stored as given.
    pub fn new(pool_size: Option<u32>) -> (worker: Self)
        ensures
            worker.spec_pool_size() == (match pool_size {
                Some(n) => n,
                None => 4u32,
            }),
    {
        Self {
            pool_size: match pool_size {
                Some(n) => n,
                None => 4,
            },
        }
    }

    /// Pure accessor for the configured pool size.
    pub fn get_pool_size(&self) -> (r: u32)
        ensures
            r == self.spec_pool_size(),
    {
        self.pool_size
    }

    /// Blocking transformation: applies the rule to `code` on the caller's
    /// flow; the `_id` argument is accepted and ignored.
    pub fn transform_sync(&self, code: String, _id: String) -> (r: String)
        ensures
            r@ == transform_result(code@, _id@),
    {
        rule::apply(code.as_str())
    }

    /// The transformation behind the non-blocking entry point: identical
    /// output to `transform_sync`, delivered through a `Result` so that a
    /// future fallible rule can fail without an interface change. The rule
    /// today is total, so the call always succeeds.
    pub fn transform(&self, code: String, id: String) -> (r: Result<String, TransformError>)
        ensures
            r matches Ok(out) && out@ == transform_result(code@, id@),
    {
        Ok(self.transform_sync(code, id))
    }
}

/// The transformation is independent of the id: any two ids give the same
/// result for the same code.
pub proof fn lemma_transform_ignores_id(code: Seq<char>, id1: Seq<char>, id2: Seq<char>)
    ensures
        transform_result(code, id1) == transform_result(code, id2),
{
}

/// Probe that the component is reachable from its host: a fixed greeting,
/// the same on every call.
pub fn hello_rust() -> (r: String)
    ensures
        r@ == "Hello from Rust Native Worker!"@,
{
    String::from_str("Hello from Rust Native Worker!")
}

} // verus!
