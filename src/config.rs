use vstd::prelude::*;

verus! {

/// The server's settings: where sources live, where derived images go, the
/// address to bind and the memory cache's capacity.
#[derive(Clone, Debug)]
pub struct AppConfig {
    pub input_path: String,
    pub output_path: String,
    pub bind_address: String,
    pub cache_size: usize,
}

} // verus!
