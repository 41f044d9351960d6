use crate::domain::crypto::{strings_result, strings_view, AirgapProvider};
use crate::infrastructure::ur_adapter::{
    ur_fragments, ur_parts_numbered, UrAdapter, MAX_FRAGMENT_LENGTH,
};
use vstd::prelude::*;

verus! {

/// The UR fragments that carry `data` over QR codes: for non-empty data always
/// at least one, each headed by its number and the count.
pub fn encode_to_ur(data: &[u8], _type_str: &str) -> (r: Result<Vec<String>, String>)
    ensures
        strings_result(r) == ur_fragments(data@, MAX_FRAGMENT_LENGTH as nat),
        data@.len() > 0 ==> r is Ok,
        r matches Ok(v) ==> v@.len() >= 1 && ur_parts_numbered(strings_view(v@)),
{
    UrAdapter.encode_to_ur(data)
}

} // verus!
