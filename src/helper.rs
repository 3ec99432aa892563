//! Stream wrappers and task-group handles that the endpoints build on.
use vstd::prelude::*;

verus! {

/// A read half whose bytes pass through unchanged.
pub struct HashedReadStream<R> {
    inner: R,
}

impl<R> HashedReadStream<R> {
    pub closed spec fn inner_view(&self) -> R {
        self.inner
    }

    /// Wraps a read half.
    pub fn new(inner: R) -> (r: HashedReadStream<R>)
        ensures
            r.inner_view() == inner,
    {
        HashedReadStream { inner }
    }

    /// Gives the wrapped read half back.
    pub fn into_inner(self) -> (r: R)
        ensures
            r == self.inner_view(),
    {
        self.inner
    }
}

/// A write half whose bytes pass through unchanged.
pub struct HashedWriteStream<W> {
    inner: W,
}

impl<W> HashedWriteStream<W> {
    pub closed spec fn inner_view(&self) -> W {
        self.inner
    }

    /// Wraps a write half.
    pub fn new(inner: W) -> (r: HashedWriteStream<W>)
        ensures
            r.inner_view() == inner,
    {
        HashedWriteStream { inner }
    }

    /// Gives the wrapped write half back.
    pub fn into_inner(self) -> (r: W)
        ensures
            r == self.inner_view(),
    {
        self.inner
    }
}

/// A handle for HMAC state shared by the stream wrappers; it holds none.
pub struct HmacHandler {}

impl HmacHandler {
    pub fn new() -> (r: HmacHandler) {
        HmacHandler {  }
    }
}

/// A group of tasks that ends at the first error.
pub struct ErrGroup {}

/// A group of tasks that ends with the first result.
pub struct FirstRetGroup {}

/// A pending computation or its output.
pub enum FutureOrOutput<F, T> {
    Future(F),
    Output(T),
}

/// Whether the TLS stack in use offers TLS 1.3: rustls does.
pub fn support_tls13() -> (r: bool)
    ensures
        r,
{
    true
}

} // verus!
