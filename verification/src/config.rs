//! The endpoints the pipeline is configured with. Reading a configuration
//! file and deserializing it happen outside the library.

use vstd::prelude::*;

verus! {

/// The three remote endpoints the pipeline talks to.
pub struct Config {
    pub l1_geth_endpoint: String,
    pub l2_geth_endpoint: String,
    pub enclave_endpoint: String,
}

} // verus!
