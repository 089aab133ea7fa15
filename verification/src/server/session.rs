//! Per-connection session data.

use vstd::prelude::*;
use crate::types::{ClientCapabilities, ClientInfo, Root};

verus! {

#[verifier::external_type_specification]
#[verifier::external_body]
pub struct ExUuid(uuid::Uuid);

/// Whether `c` is a lowercase hexadecimal digit.
pub open spec fn is_lower_hex(c: char) -> bool {
    ('0' <= c && c <= '9') || ('a' <= c && c <= 'f')
}

/// The hyphenated lowercase form of a UUID: 36 characters, `-` at positions
/// 8, 13, 18 and 23, lowercase hexadecimal digits elsewhere.
pub open spec fn is_hyphenated_uuid(s: Seq<char>) -> bool {
    &&& s.len() == 36
    &&& forall|i: int| 0 <= i < 36 ==> (if i == 8 || i == 13 || i == 18 || i == 23 {
        s[i] == '-'
    } else {
        is_lower_hex(#[trigger] s[i])
    })
}

/// `uuid::Uuid::new_v4`: a random (version 4) UUID. Nothing is claimed of
/// its value.
#[verifier::external_body]
fn uuid_new_v4() -> uuid::Uuid {
    uuid::Uuid::new_v4()
}

/// `Uuid`'s `Display` (`to_string`): the source formats it through
/// `LowerHex` as the hyphenated lowercase form. Claimed: the result has that
/// shape. Which digits it holds is left unsaid, as the `Uuid` is opaque here.
#[verifier::external_body]
fn uuid_to_string(u: &uuid::Uuid) -> (s: String)
    ensures
        is_hyphenated_uuid(s@),
{
    u.to_string()
}

/// Unique session identifier.
pub struct SessionId(pub String);

impl View for SessionId {
    type V = Seq<char>;

    open spec fn view(&self) -> Seq<char> {
        self.0@
    }
}

impl SessionId {
    /// A fresh identifier: a random version 4 UUID in hyphenated form.
    pub fn new() -> (id: SessionId)
        ensures
            is_hyphenated_uuid(id@),
    {
        let u = uuid_new_v4();
        SessionId(uuid_to_string(&u))
    }

    /// A copy of this identifier.
    pub fn duplicate(&self) -> (r: SessionId)
        ensures
            r@ == self@,
    {
        SessionId(self.0.clone())
    }

    /// The text that `Display` writes for this identifier: the id itself.
    pub fn to_display_string(&self) -> (r: String)
        ensures
            r@ == self@,
    {
        self.0.clone()
    }
}

impl Default for SessionId {
    fn default() -> (id: SessionId)
        ensures
            is_hyphenated_uuid(id@),
    {
        SessionId::new()
    }
}

/// Per-connection session data.
pub struct Session {
    pub id: SessionId,
    pub client_info: Option<ClientInfo>,
    pub client_capabilities: Option<ClientCapabilities>,
    pub protocol_version: Option<String>,
    pub initialized: bool,
    /// Roots declared by the client.
    pub roots: Vec<Root>,
}

/// The client declared the sampling capability.
pub open spec fn spec_supports_sampling(caps: Option<ClientCapabilities>) -> bool {
    caps matches Some(c) && c.sampling is Some
}

/// The client declared the roots capability with `listChanged: true`.
pub open spec fn spec_supports_roots(caps: Option<ClientCapabilities>) -> bool {
    caps matches Some(c) && (c.roots matches Some(r) && r.list_changed == Some(true))
}

impl Session {
    /// A fresh, uninitialized session with a new random id and nothing
    /// known of the client.
    pub fn new() -> (s: Session)
        ensures
            is_hyphenated_uuid(s.id@),
            s.client_info is None,
            s.client_capabilities is None,
            s.protocol_version is None,
            !s.initialized,
            s.roots@.len() == 0,
    {
        Session {
            id: SessionId::new(),
            client_info: None,
            client_capabilities: None,
            protocol_version: None,
            initialized: false,
            roots: Vec::new(),
        }
    }

    /// Check if the client supports sampling.
    pub fn supports_sampling(&self) -> (r: bool)
        ensures
            r == spec_supports_sampling(self.client_capabilities),
    {
        match &self.client_capabilities {
            Some(c) => c.sampling.is_some(),
            None => false,
        }
    }

    /// Check if the client supports roots (declared with `listChanged: true`;
    /// a missing `listChanged` counts as `false`).
    pub fn supports_roots(&self) -> (r: bool)
        ensures
            r == spec_supports_roots(self.client_capabilities),
    {
        match &self.client_capabilities {
            Some(c) => match &c.roots {
                Some(r) => match r.list_changed {
                    Some(b) => b,
                    None => false,
                },
                None => false,
            },
            None => false,
        }
    }
}

impl Default for Session {
    fn default() -> (s: Session)
        ensures
            is_hyphenated_uuid(s.id@),
            s.client_info is None,
            s.client_capabilities is None,
            s.protocol_version is None,
            !s.initialized,
            s.roots@.len() == 0,
    {
        Session::new()
    }
}

/// A session whose client declared no capabilities supports neither
/// sampling nor roots; roots support needs the roots capability.
pub proof fn law_capabilities_needed()
    ensures
        !spec_supports_sampling(None),
        !spec_supports_roots(None),
        forall|c: ClientCapabilities| c.roots is None ==> !spec_supports_roots(Some(c)),
        forall|c: ClientCapabilities| c.sampling is None ==> !spec_supports_sampling(Some(c)),
{
}

} // verus!
