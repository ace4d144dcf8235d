//! Values exchanged over the worker's HTTP surface.
use vstd::prelude::*;

verus! {

/// An invocation request.
pub struct InvokeFunction {
    /// Name of the function to run.
    pub function: String,
    /// Root file-system image holding the function.
    pub image: String,
    /// Virtual CPUs the function asks for.
    pub vcpus: i32,
    /// Memory the function asks for, in MiB.
    pub memory: i32,
    /// Input handed to the guest, if any.
    pub payload: Option<String>,
    /// Whether the request belongs to the emergency itself.
    pub emergency: bool,
    /// Number of times the request has been forwarded.
    pub hops: i32,
}

impl Clone for InvokeFunction {
    fn clone(&self) -> (r: Self)
        ensures
            r == *self,
    {
        let payload = match &self.payload {
            Some(p) => Some(p.clone()),
            None => None,
        };
        InvokeFunction {
            function: self.function.clone(),
            image: self.image.clone(),
            vcpus: self.vcpus,
            memory: self.memory,
            payload,
            emergency: self.emergency,
            hops: self.hops,
        }
    }
}

/// Free resources a node reports: CPU units and memory in KiB.
#[derive(Debug, Clone, Copy, PartialEq, Eq, Structural)]
pub struct Resources {
    pub cpus: usize,
    pub memory: usize,
}

/// Why forwarding a request to a peer failed.
#[derive(Debug, Clone, Copy, PartialEq, Eq, Structural)]
pub enum InvokeError {
    /// The peer could not be reached or its answer could not be read.
    PeerUnreachable,
    /// The peer answered with a failure status.
    PeerRejected,
}

} // verus!
