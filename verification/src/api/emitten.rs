//! Combined info + profile: both Stockbit requests, issued together by the
//! caller and merged as `{"info": .., "profile": ..}`.

use vstd::prelude::*;

use crate::api::{info, profile, request_view, ApiRequest};

verus! {

/// The two requests behind the combined payload: info, then profile.
pub fn requests(symbol: &str) -> (res: (ApiRequest, ApiRequest))
    ensures
        request_view(res.0) == info::request_spec(symbol@),
        request_view(res.1) == profile::request_spec(symbol@),
{
    (info::request(symbol), profile::request(symbol))
}

} // verus!
