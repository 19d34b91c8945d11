use vstd::prelude::*;

pub mod decode;
pub mod fairing;
pub mod page;
pub mod request;
pub mod response;
pub mod wire;

verus! {

/// Header that marks a request, or a response, as part of the protocol.
pub const X_INERTIA: &'static str = "X-Inertia";

/// Header in which a client reports the asset version it last saw.
pub const X_INERTIA_VERSION: &'static str = "X-Inertia-Version";

/// Header that tells the client where to go after a full reload.
pub const X_INERTIA_LOCATION: &'static str = "X-Inertia-Location";

} // verus!
