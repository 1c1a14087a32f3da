use memory_cleanr::win32::volume::{
    ctl_code, is_volume_name_wide, list_volume_flush_targets, mount_query_next,
    mount_query_after_retry, parse_volume_symbolic_links, volume_display_label, MountQueryNext, VolumeError,
    VolumeFlushTarget, IOCTL_MOUNTMGR_QUERY_POINTS, MOUNT_POINT_SIZE,
};

fn volume_guid_wide() -> Vec<u16> {
    "\\??\\Volume{11111111-2222-3333-4444-555555555555}"
        .encode_utf16()
        .collect()
}

fn w(s: &str) -> Vec<u16> {
    s.encode_utf16().collect()
}

/// A `MOUNTMGR_MOUNT_POINTS` reply listing these symbolic links.
fn reply(links: &[Vec<u16>]) -> Vec<u8> {
    let n = links.len();
    let mut names_at = 8 + 24 * n;
    let mut buf = vec![0u8; names_at];
    buf[4..8].copy_from_slice(&(n as u32).to_le_bytes());
    for (i, l) in links.iter().enumerate() {
        let e = 8 + 24 * i;
        buf[e..e + 4].copy_from_slice(&(names_at as u32).to_le_bytes());
        buf[e + 4..e + 6].copy_from_slice(&((l.len() * 2) as u16).to_le_bytes());
        for u in l {
            buf.extend_from_slice(&u.to_le_bytes());
        }
        names_at += l.len() * 2;
    }
    let total = buf.len() as u32;
    buf[0..4].copy_from_slice(&total.to_le_bytes());
    buf
}

/// Size of a C struct with these fields, laid out in order (each field at
/// the next multiple of its alignment, the total rounded up to the largest).
fn c_struct_size(fields: &[(usize, usize)]) -> usize {
    let mut offset: usize = 0;
    let mut max_align: usize = 1;
    for &(size, align) in fields {
        offset = offset.div_ceil(align) * align + size;
        max_align = max_align.max(align);
    }
    offset.div_ceil(max_align) * max_align
}

#[test]
fn mount_mgr_mount_point_has_expected_size() {
    // MOUNTMGR_MOUNT_POINT: three (ULONG offset, USHORT length) pairs.
    let u32_field = (std::mem::size_of::<u32>(), std::mem::align_of::<u32>());
    let u16_field = (std::mem::size_of::<u16>(), std::mem::align_of::<u16>());
    let layout = [u32_field, u16_field, u32_field, u16_field, u32_field, u16_field];
    assert_eq!(c_struct_size(&layout), 24);
    assert_eq!(MOUNT_POINT_SIZE as usize, c_struct_size(&layout));
}

#[test]
fn is_volume_name_matches_mountmgr_macro() {
    assert!(is_volume_name_wide(&volume_guid_wide()));
    assert!(!is_volume_name_wide(
        &"C:\\".encode_utf16().collect::<Vec<_>>()
    ));
}

#[test]
fn volume_display_label_strips_prefix() {
    let label = volume_display_label(&volume_guid_wide());
    assert_eq!(label, "Volume{11111111-2222-3333-4444-555555555555}");
}

#[test]
fn volume_target_keeps_mountmgr_symbolic_link() {
    let link = volume_guid_wide();
    let target = VolumeFlushTarget::for_link(link.clone());
    assert_eq!(target.label, volume_display_label(&link));
    assert_eq!(target.label(), &target.label);
    assert_eq!(target.symbolic_link(), &link[..]);
}

#[test]
fn query_points_control_code() {
    assert_eq!(ctl_code(b'm' as u32, 2, 0, 0), IOCTL_MOUNTMGR_QUERY_POINTS);
}

#[test]
fn reply_parsing_and_target_list() {
    let a = w("\\??\\Volume{bbbbbbbb-2222-3333-4444-555555555555}");
    let b = w("\\??\\Volume{aaaaaaaa-2222-3333-4444-555555555555}");
    let mut b_slash = b.clone();
    b_slash.push(b'\\' as u16);
    let drive = w("\\DosDevices\\C:");
    let links = vec![a.clone(), drive.clone(), b.clone(), a.clone(), b_slash.clone()];
    let buf = reply(&links);
    let parsed = parse_volume_symbolic_links(&buf).expect("parsed");
    assert_eq!(parsed, links);
    let targets = list_volume_flush_targets(parsed);
    let labels: Vec<_> = targets.iter().map(|t| t.label.clone()).collect();
    assert_eq!(
        labels,
        vec![
            "Volume{aaaaaaaa-2222-3333-4444-555555555555}",
            "Volume{aaaaaaaa-2222-3333-4444-555555555555}",
            "Volume{bbbbbbbb-2222-3333-4444-555555555555}",
        ]
    );
    assert_eq!(targets[0].symbolic_link(), &b[..]);
    assert_eq!(targets[1].symbolic_link(), &b_slash[..]);
}

#[test]
fn reply_edge_cases() {
    assert_eq!(parse_volume_symbolic_links(&[1, 2, 3]), Ok(vec![]));
    let mut buf = reply(&[w("\\??\\X")]);
    buf[4] = 9; // announces nine entries
    assert_eq!(parse_volume_symbolic_links(&buf), Err(VolumeError::Truncated));
    let mut odd = reply(&[w("ab")]);
    odd[12] = 3; // odd name length: skipped
    assert_eq!(parse_volume_symbolic_links(&odd), Ok(vec![]));
    assert_eq!(mount_query_next(true, 64, 0), MountQueryNext::Done(64));
    assert_eq!(mount_query_next(false, 100, 122), MountQueryNext::RetryWithSize(100));
    assert_eq!(mount_query_next(false, 0, 122), MountQueryNext::NoSizeReported);
    assert_eq!(mount_query_next(false, 0, 5), MountQueryNext::Failed(5));
}

#[test]
fn the_retry_answer_is_final() {
    assert_eq!(mount_query_after_retry(true, 40000, 0), MountQueryNext::Done(40000));
    assert_eq!(mount_query_after_retry(false, 0, 122), MountQueryNext::Failed(122));
    assert_eq!(mount_query_after_retry(false, 500, 31), MountQueryNext::Failed(31));
}
