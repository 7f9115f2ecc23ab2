use wireproto::container::{ContainerHandle, ContainerHandleRef};
use wireproto::cursor::McCursor;
use wireproto::error::BufReadError;
use wireproto::read::read_var_i64;
use wireproto::server_links::KnownLinkKind;
use wireproto::shape::CubePointRange;

#[test]
fn known_link_kind_roundtrip() {
    for k in [
        KnownLinkKind::BugReport,
        KnownLinkKind::CommunityGuidelines,
        KnownLinkKind::Support,
        KnownLinkKind::Status,
        KnownLinkKind::Feedback,
        KnownLinkKind::Community,
        KnownLinkKind::Website,
        KnownLinkKind::Forums,
        KnownLinkKind::News,
        KnownLinkKind::Announcements,
    ] {
        let mut buf = Vec::new();
        k.azalea_write(&mut buf);
        let mut cur = McCursor::new(buf);
        assert_eq!(KnownLinkKind::azalea_read(&mut cur).unwrap(), k);
    }
}

#[test]
fn known_link_kind_unexpected_variant() {
    let mut cur = McCursor::new(vec![10]);
    assert_eq!(
        KnownLinkKind::azalea_read(&mut cur),
        Err(BufReadError::UnexpectedEnumVariant { id: 10 })
    );
}

#[test]
fn varlong_truncation_has_its_own_kind() {
    let mut cur = McCursor::new(vec![0x80, 0x80, 0x80]);
    assert_eq!(read_var_i64(&mut cur), Err(BufReadError::InvalidVarLong));
}

#[test]
fn cube_point_range_size() {
    let r = CubePointRange { parts: 4 };
    assert_eq!(r.size(), 5);
    let one = CubePointRange { parts: 1 };
    assert_eq!(one.size(), 2);
}

#[test]
fn container_handles_carry_ids() {
    let handle_ref = ContainerHandleRef::new(3);
    assert_eq!(handle_ref.id(), 3);
    assert_eq!(handle_ref.close().id, 3);
    let handle = ContainerHandle::new(0);
    assert_eq!(handle.id(), 0);
    assert_eq!(handle.close().id, 0);
}
