//! The data model shared by every part of the transport core.
use vstd::prelude::*;

verus! {

/// A variable-length unsigned integer of the wire protocol.
pub type ZInt = u64;

/// The largest length of a peer identifier, in bytes.
pub const PID_MAX_LEN: usize = 16;

/// The role of a participant.
#[derive(Clone, Copy, Debug, PartialEq, Eq, Structural)]
pub enum WhatAmI {
    Router,
    Peer,
    Client,
}

impl WhatAmI {
    /// The bit flag that stands for this role in scouting filters.
    pub open spec fn spec_to_zint(self) -> ZInt {
        match self {
            WhatAmI::Router => 1,
            WhatAmI::Peer => 2,
            WhatAmI::Client => 4,
        }
    }

    pub open spec fn spec_from_zint(v: ZInt) -> Option<WhatAmI> {
        if v == 1 {
            Some(WhatAmI::Router)
        } else if v == 2 {
            Some(WhatAmI::Peer)
        } else if v == 4 {
            Some(WhatAmI::Client)
        } else {
            None
        }
    }

    pub fn to_zint(self) -> (r: ZInt)
        ensures
            r == self.spec_to_zint(),
    {
        match self {
            WhatAmI::Router => 1,
            WhatAmI::Peer => 2,
            WhatAmI::Client => 4,
        }
    }

    pub fn from_zint(v: ZInt) -> (r: Option<WhatAmI>)
        ensures
            r == WhatAmI::spec_from_zint(v),
    {
        if v == 1 {
            Some(WhatAmI::Router)
        } else if v == 2 {
            Some(WhatAmI::Peer)
        } else if v == 4 {
            Some(WhatAmI::Client)
        } else {
            None
        }
    }
}

/// The eight priority levels; a lower index is a higher priority.
#[derive(Clone, Copy, Debug, PartialEq, Eq, Structural)]
pub enum Priority {
    Control,
    RealTime,
    InteractiveHigh,
    InteractiveLow,
    DataHigh,
    Data,
    DataLow,
    Background,
}

/// The number of priority levels.
pub const NUM_PRIORITIES: usize = 8;

impl Priority {
    pub open spec fn spec_index(self) -> nat {
        match self {
            Priority::Control => 0,
            Priority::RealTime => 1,
            Priority::InteractiveHigh => 2,
            Priority::InteractiveLow => 3,
            Priority::DataHigh => 4,
            Priority::Data => 5,
            Priority::DataLow => 6,
            Priority::Background => 7,
        }
    }

    pub open spec fn spec_from_index(i: ZInt) -> Option<Priority> {
        if i == 0 {
            Some(Priority::Control)
        } else if i == 1 {
            Some(Priority::RealTime)
        } else if i == 2 {
            Some(Priority::InteractiveHigh)
        } else if i == 3 {
            Some(Priority::InteractiveLow)
        } else if i == 4 {
            Some(Priority::DataHigh)
        } else if i == 5 {
            Some(Priority::Data)
        } else if i == 6 {
            Some(Priority::DataLow)
        } else if i == 7 {
            Some(Priority::Background)
        } else {
            None
        }
    }

    pub fn index(self) -> (r: usize)
        ensures
            r == self.spec_index(),
            r < NUM_PRIORITIES,
    {
        match self {
            Priority::Control => 0,
            Priority::RealTime => 1,
            Priority::InteractiveHigh => 2,
            Priority::InteractiveLow => 3,
            Priority::DataHigh => 4,
            Priority::Data => 5,
            Priority::DataLow => 6,
            Priority::Background => 7,
        }
    }

    pub fn from_index(i: ZInt) -> (r: Option<Priority>)
        ensures
            r == Priority::spec_from_index(i),
            r matches Some(p) ==> p.spec_index() == i,
    {
        if i == 0 {
            Some(Priority::Control)
        } else if i == 1 {
            Some(Priority::RealTime)
        } else if i == 2 {
            Some(Priority::InteractiveHigh)
        } else if i == 3 {
            Some(Priority::InteractiveLow)
        } else if i == 4 {
            Some(Priority::DataHigh)
        } else if i == 5 {
            Some(Priority::Data)
        } else if i == 6 {
            Some(Priority::DataLow)
        } else if i == 7 {
            Some(Priority::Background)
        } else {
            None
        }
    }
}

/// Whether a conduit retransmits what is lost.
#[derive(Clone, Copy, Debug, PartialEq, Eq, Structural)]
pub enum Reliability {
    Reliable,
    BestEffort,
}

/// A priority and a reliability: the pair names a conduit.
#[derive(Clone, Copy, Debug, PartialEq, Eq, Structural)]
pub struct Channel {
    pub priority: Priority,
    pub reliability: Reliability,
}

/// What a producer does when its conduit's queue is full.
#[derive(Clone, Copy, Debug, PartialEq, Eq, Structural)]
pub enum CongestionControl {
    Block,
    Drop,
}

/// The kinds of error of the transport core.
#[derive(Clone, Copy, Debug, PartialEq, Eq, Structural)]
pub enum ZErrorKind {
    IoError,
    InvalidLocator,
    InvalidMessage,
    InvalidLink,
    InvalidReference,
    /// A conduit queue is full and its producer asked to block.
    WouldBlock,
    /// The number of sessions reached its bound.
    MaxSessions,
    /// The number of links of a session reached its bound.
    MaxLinks,
    /// The peer speaks a version of the protocol that this one does not.
    Unsupported,
    Other,
}

#[derive(Clone, Copy, Debug, PartialEq, Eq, Structural)]
pub struct ZError {
    pub kind: ZErrorKind,
}

pub type ZResult<T> = Result<T, ZError>;

pub open spec fn zerr<T>(kind: ZErrorKind) -> ZResult<T> {
    Err(ZError { kind })
}

/// An opaque peer identifier of one to sixteen bytes.
#[derive(Clone, Debug, PartialEq, Eq)]
pub struct PeerId {
    pub id: Vec<u8>,
}

impl View for PeerId {
    type V = Seq<u8>;

    open spec fn view(&self) -> Seq<u8> {
        self.id@
    }
}

pub open spec fn pid_valid(s: Seq<u8>) -> bool {
    1 <= s.len() <= PID_MAX_LEN
}

/// Byte-wise equality of two byte strings.
pub fn bytes_eq(a: &Vec<u8>, b: &Vec<u8>) -> (r: bool)
    ensures
        r == (a@ == b@),
{
    if a.len() != b.len() {
        return false;
    }
    let mut i: usize = 0;
    while i < a.len()
        invariant
            a@.len() == b@.len(),
            i <= a@.len(),
            a@.subrange(0, i as int) == b@.subrange(0, i as int),
        decreases a@.len() - i,
    {
        if a[i] != b[i] {
            assert(a@[i as int] != b@[i as int]);
            return false;
        }
        assert(a@.subrange(0, i + 1) =~= a@.subrange(0, i as int).push(a@[i as int]));
        assert(b@.subrange(0, i + 1) =~= b@.subrange(0, i as int).push(b@[i as int]));
        i = i + 1;
    }
    assert(a@ =~= a@.subrange(0, i as int));
    assert(b@ =~= b@.subrange(0, i as int));
    true
}

/// A copy of a byte string.
pub fn bytes_copy(a: &Vec<u8>) -> (r: Vec<u8>)
    ensures
        r@ == a@,
{
    let mut out: Vec<u8> = Vec::new();
    let mut i: usize = 0;
    while i < a.len()
        invariant
            i <= a@.len(),
            out@ == a@.subrange(0, i as int),
        decreases a@.len() - i,
    {
        out.push(a[i]);
        assert(a@.subrange(0, i + 1) =~= a@.subrange(0, i as int).push(a@[i as int]));
        i = i + 1;
    }
    assert(a@ =~= a@.subrange(0, i as int));
    out
}

impl PeerId {
    /// A peer identifier made of the given bytes, if there are one to sixteen of them.
    pub fn from_bytes(id: Vec<u8>) -> (r: Option<PeerId>)
        ensures
            r matches Some(p) ==> p@ == id@,
            r is Some <==> pid_valid(id@),
    {
        if id.len() >= 1 && id.len() <= PID_MAX_LEN {
            Some(PeerId { id })
        } else {
            None
        }
    }

    pub fn is_valid(&self) -> (r: bool)
        ensures
            r == pid_valid(self@),
    {
        self.id.len() >= 1 && self.id.len() <= PID_MAX_LEN
    }

    pub fn same(&self, other: &PeerId) -> (r: bool)
        ensures
            r == (self@ == other@),
    {
        bytes_eq(&self.id, &other.id)
    }

    pub fn duplicate(&self) -> (r: PeerId)
        ensures
            r@ == self@,
    {
        PeerId { id: bytes_copy(&self.id) }
    }
}

} // verus!
