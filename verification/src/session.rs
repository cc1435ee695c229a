//! Session identity: a plain immutable value naming a logical
//! communication session, used elsewhere as a lookup and equality key.

use vstd::prelude::*;

verus! {

/// One side of a session: a required primary identifier and two optional
/// qualifiers.
pub struct Communicator {
    comp_id: String,
    sub_id: Option<String>,
    location_id: Option<String>,
}

impl Communicator {
    /// The primary identifier.
    pub closed spec fn spec_comp_id(&self) -> Seq<char> {
        self.comp_id@
    }

    /// The optional sub-identifier.
    pub closed spec fn spec_sub_id(&self) -> Option<String> {
        self.sub_id
    }

    /// The optional location identifier.
    pub closed spec fn spec_location_id(&self) -> Option<String> {
        self.location_id
    }

    /// Binds a primary identifier and its optional qualifiers.
    pub fn new(comp_id: String, sub_id: Option<String>, location_id: Option<String>) -> (r: Self)
        ensures
            r.spec_comp_id() == comp_id@,
            r.spec_sub_id() == sub_id,
            r.spec_location_id() == location_id,
    {
        Communicator { comp_id, sub_id, location_id }
    }
}

/// The identity of a session: the protocol version string plus the
/// sender and target communicators.
pub struct SessionId {
    begin_string: String,
    sender: Communicator,
    target: Communicator,
}

impl SessionId {
    /// The protocol version string.
    pub closed spec fn spec_begin_string(&self) -> Seq<char> {
        self.begin_string@
    }

    /// The sending side.
    pub closed spec fn spec_sender(&self) -> Communicator {
        self.sender
    }

    /// The receiving side.
    pub closed spec fn spec_target(&self) -> Communicator {
        self.target
    }

    /// Binds a protocol version string and the two sides of the session.
    pub fn new(begin_string: String, sender: Communicator, target: Communicator) -> (r: Self)
        ensures
            r.spec_begin_string() == begin_string@,
            r.spec_sender() == sender,
            r.spec_target() == target,
    {
        SessionId { begin_string, sender, target }
    }
}

} // verus!
