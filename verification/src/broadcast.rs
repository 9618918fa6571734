//! The Advertisement Broadcaster's fixed message sequence. The surrounding
//! process sends each message to the multicast group and pauses
//! `PACING_MILLIS` before the next; the sequence itself is pure.

use vstd::prelude::*;
use vstd::string::*;

use crate::message::{
    build_advertisement, serialize, spec_advertisement, valid_header_value, AdvertisementRole,
    Message, MessageError,
};
use crate::message::spec_serialize;

verus! {

/// Milliseconds to pause after each advertisement before sending the next,
/// so as not to flood slow receivers.
pub const PACING_MILLIS: u64 = 100;

/// The serialized advertisements of one broadcast, in their fixed order:
/// root device, then embedded device, then service type.
pub open spec fn spec_advertisement_sequence(url: Seq<char>) -> Seq<Seq<char>> {
    seq![
        spec_serialize(spec_advertisement(AdvertisementRole::RootDevice, url)),
        spec_serialize(spec_advertisement(AdvertisementRole::EmbeddedDevice, url)),
        spec_serialize(spec_advertisement(AdvertisementRole::ServiceType, url)),
    ]
}

/// The three advertisements of one broadcast, fully serialized and in send
/// order. Fails exactly when the root URL is not an emittable header value;
/// a failure means no message of the sequence is to be sent.
pub fn advertisement_sequence(root_url: &String) -> (r: Result<Vec<String>, MessageError>)
    ensures
        r is Ok <==> valid_header_value(root_url@),
        r matches Ok(v) ==> v@.map_values(|s: String| s@) == spec_advertisement_sequence(
            root_url@,
        ),
        r matches Err(e) ==> e == MessageError::InvalidHeaderValue,
{
    let m1: Message = match build_advertisement(AdvertisementRole::RootDevice, root_url) {
        Ok(m) => m,
        Err(e) => {
            return Err(e);
        },
    };
    let m2: Message = match build_advertisement(AdvertisementRole::EmbeddedDevice, root_url) {
        Ok(m) => m,
        Err(e) => {
            return Err(e);
        },
    };
    let m3: Message = match build_advertisement(AdvertisementRole::ServiceType, root_url) {
        Ok(m) => m,
        Err(e) => {
            return Err(e);
        },
    };
    let mut v: Vec<String> = Vec::new();
    v.push(serialize(&m1));
    v.push(serialize(&m2));
    v.push(serialize(&m3));
    proof {
        assert(v@.map_values(|s: String| s@) =~= spec_advertisement_sequence(root_url@));
    }
    Ok(v)
}

/// Broadcasting carries no hidden state: the advertisement sequence is a
/// function of the root URL alone, so broadcasting twice produces
/// byte-identical message sequences.
pub proof fn lemma_broadcast_idempotent(a: Seq<Seq<char>>, b: Seq<Seq<char>>, url: Seq<char>)
    requires
        a == spec_advertisement_sequence(url),
        b == spec_advertisement_sequence(url),
    ensures
        a == b,
{
}

} // verus!
