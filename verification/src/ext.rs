//! The handle that the block receipts trace RPC method is served from.

use vstd::prelude::*;

verus! {

/// Wrapper around an Eth API for the block receipts trace RPC method.
#[derive(Debug)]
pub struct EthBlockReceiptsTraceExt<Eth> {
    eth_api: Eth,
}

impl<Eth> EthBlockReceiptsTraceExt<Eth> {
    /// The Eth API that the handle wraps.
    pub closed spec fn wrapped_api(&self) -> Eth {
        self.eth_api
    }

    /// Creates a new instance.
    pub fn new(eth_api: Eth) -> (ext: Self)
        ensures
            ext.wrapped_api() == eth_api,
    {
        Self { eth_api }
    }

    /// The Eth API that the handle wraps.
    pub fn eth_api(&self) -> (api: &Eth)
        ensures
            *api == self.wrapped_api(),
    {
        &self.eth_api
    }
}

} // verus!
