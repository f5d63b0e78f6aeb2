//! Protocol generations, compared by the protocol crate itself.

use vstd::prelude::*;

verus! {

/// The protocol generation under which a descriptor table was received.
#[derive(Debug, Clone, Copy, PartialEq, Eq, Structural)]
pub struct ProtocolVersion {
    pub major_ver: u16,
    pub minor_ver: u16,
}

impl ProtocolVersion {
    /// `self <= (major_ver, minor_ver)`, major number first.
    pub open spec fn at_most(self, major_ver: u16, minor_ver: u16) -> bool {
        self.major_ver < major_ver || (self.major_ver == major_ver && self.minor_ver <= minor_ver)
    }

    /// `self >= (major_ver, minor_ver)`, major number first.
    pub open spec fn at_least(self, major_ver: u16, minor_ver: u16) -> bool {
        self.major_ver > major_ver || (self.major_ver == major_ver && self.minor_ver >= minor_ver)
    }

    /// The generations that describe input as a positional or named tuple.
    pub open spec fn legacy(self) -> bool {
        self.at_most(0, 11)
    }

    /// The generations that describe input as an object shape.
    pub open spec fn shaped(self) -> bool {
        self.at_least(0, 12)
    }

    pub fn new(major_ver: u16, minor_ver: u16) -> (version: ProtocolVersion)
        ensures
            version.major_ver == major_ver,
            version.minor_ver == minor_ver,
    {
        ProtocolVersion { major_ver, minor_ver }
    }

    pub fn is_at_most(&self, major_ver: u16, minor_ver: u16) -> (yes: bool)
        ensures
            yes == self.at_most(major_ver, minor_ver),
    {
        version_is_at_most(self.major_ver, self.minor_ver, major_ver, minor_ver)
    }

    pub fn is_at_least(&self, major_ver: u16, minor_ver: u16) -> (yes: bool)
        ensures
            yes == self.at_least(major_ver, minor_ver),
    {
        version_is_at_least(self.major_ver, self.minor_ver, major_ver, minor_ver)
    }
}

/// Every generation is legacy or shaped, and none is both.
pub proof fn lemma_generations_partition(version: ProtocolVersion)
    ensures
        version.legacy() != version.shaped(),
{
}

/// Calls `edgedb_protocol::features::ProtocolVersion::is_at_most` on the
/// version `(major, minor)`. Trusted: the answer is the lexicographic
/// comparison `(major, minor) <= (than_major, than_minor)`.
#[verifier::external_body]
fn version_is_at_most(major: u16, minor: u16, than_major: u16, than_minor: u16) -> (yes: bool)
    ensures
        yes == (major < than_major || (major == than_major && minor <= than_minor)),
{
    edgedb_protocol::features::ProtocolVersion::new(major, minor).is_at_most(than_major, than_minor)
}

/// Calls `edgedb_protocol::features::ProtocolVersion::is_at_least` on the
/// version `(major, minor)`. Trusted: the answer is the lexicographic
/// comparison `(major, minor) >= (than_major, than_minor)`.
#[verifier::external_body]
fn version_is_at_least(major: u16, minor: u16, than_major: u16, than_minor: u16) -> (yes: bool)
    ensures
        yes == (major > than_major || (major == than_major && minor >= than_minor)),
{
    edgedb_protocol::features::ProtocolVersion::new(major, minor).is_at_least(than_major, than_minor)
}

} // verus!
