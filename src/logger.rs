use vstd::prelude::*;

verus! {

/// Wraps a service so that each request it answers is logged.
#[derive(Clone, Copy, Debug)]
pub struct LoggerLayer;

/// A service wrapped by `LoggerLayer`.
#[derive(Clone, Debug)]
pub struct Logger<S> {
    pub inner: S,
}

impl<S> Logger<S> {
    pub fn new(inner: S) -> (r: Self)
        ensures
            r.inner == inner,
    {
        Logger { inner }
    }
}

impl LoggerLayer {
    /// Wraps `service`.
    pub fn layer<S>(&self, service: S) -> (r: Logger<S>)
        ensures
            r.inner == service,
    {
        Logger::new(service)
    }
}

} // verus!
