//! Server-provided link entries: a link with either a textual label or a
//! well-known kind.

use vstd::prelude::*;
use crate::component::FormattedText;
use crate::cursor::McCursor;
use crate::error::BufReadError;
use crate::varint::{read_varint_u32, spec_read_varint_u32, varint_bytes, write_varint_u32};

verus! {

/// One link entry: its kind and the link itself.
#[derive(Debug, PartialEq, Eq)]
pub struct ServerLinkEntry {
    pub kind: ServerLinkKind,
    pub link: String,
}

/// A link's kind: a free-form text component, or a well-known kind.
#[derive(Debug, PartialEq, Eq)]
pub enum ServerLinkKind {
    Component(FormattedText),
    Known(KnownLinkKind),
}

/// The closed set of well-known link kinds.
#[derive(Clone, Copy, Debug, PartialEq, Eq, Structural)]
pub enum KnownLinkKind {
    BugReport,
    CommunityGuidelines,
    Support,
    Status,
    Feedback,
    Community,
    Website,
    Forums,
    News,
    Announcements,
}

/// The wire index of each well-known kind, in declaration order.
pub open spec fn known_link_id(k: KnownLinkKind) -> u32 {
    match k {
        KnownLinkKind::BugReport => 0u32,
        KnownLinkKind::CommunityGuidelines => 1u32,
        KnownLinkKind::Support => 2u32,
        KnownLinkKind::Status => 3u32,
        KnownLinkKind::Feedback => 4u32,
        KnownLinkKind::Community => 5u32,
        KnownLinkKind::Website => 6u32,
        KnownLinkKind::Forums => 7u32,
        KnownLinkKind::News => 8u32,
        KnownLinkKind::Announcements => 9u32,
    }
}

impl KnownLinkKind {
    /// Read a well-known kind from its variable-length index; an index
    /// outside the set is an unexpected variant naming the index.
    pub fn azalea_read(buf: &mut McCursor) -> (r: Result<KnownLinkKind, BufReadError>)
        requires
            old(buf).wf(),
        ensures
            final(buf).wf(),
            final(buf).all_bytes() == old(buf).all_bytes(),
            match r {
                Ok(k) => (match spec_read_varint_u32(old(buf).remaining()) {
                    Some((n, id)) => known_link_id(k) == id && final(buf).position() == old(
                        buf,
                    ).position() + n,
                    None => false,
                }),
                Err(e) => (match spec_read_varint_u32(old(buf).remaining()) {
                    Some((n, id)) => {
                        &&& id > 9
                        &&& e == (BufReadError::UnexpectedEnumVariant {
                            id: crate::varint::u32_as_i32(id),
                        })
                        &&& final(buf).position() == old(buf).position() + n
                    },
                    None => {
                        &&& e == (BufReadError::UnexpectedEof {
                            attempted_read: 1usize,
                            actual_read: 0usize,
                        })
                        &&& final(buf).position() == old(buf).position() + old(
                            buf,
                        ).remaining().len()
                    },
                }),
            },
    {
        let id = match read_varint_u32(buf) {
            Ok(v) => v,
            Err(e) => {
                return Err(e);
            },
        };
        match id {
            0 => Ok(KnownLinkKind::BugReport),
            1 => Ok(KnownLinkKind::CommunityGuidelines),
            2 => Ok(KnownLinkKind::Support),
            3 => Ok(KnownLinkKind::Status),
            4 => Ok(KnownLinkKind::Feedback),
            5 => Ok(KnownLinkKind::Community),
            6 => Ok(KnownLinkKind::Website),
            7 => Ok(KnownLinkKind::Forums),
            8 => Ok(KnownLinkKind::News),
            9 => Ok(KnownLinkKind::Announcements),
            _ => Err(
                BufReadError::UnexpectedEnumVariant {
                    id: if id < 0x8000_0000 {
                        id as i32
                    } else {
                        -(((0xffff_ffffu32 - id) as i32)) - 1
                    },
                },
            ),
        }
    }

    /// Append a well-known kind's variable-length index.
    pub fn azalea_write(&self, buf: &mut Vec<u8>)
        ensures
            final(buf)@ == old(buf)@ + varint_bytes(known_link_id(*self) as nat),
    {
        let id: u32 = match self {
            KnownLinkKind::BugReport => 0,
            KnownLinkKind::CommunityGuidelines => 1,
            KnownLinkKind::Support => 2,
            KnownLinkKind::Status => 3,
            KnownLinkKind::Feedback => 4,
            KnownLinkKind::Community => 5,
            KnownLinkKind::Website => 6,
            KnownLinkKind::Forums => 7,
            KnownLinkKind::News => 8,
            KnownLinkKind::Announcements => 9,
        };
        write_varint_u32(buf, id);
    }
}

} // verus!
