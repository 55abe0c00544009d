use greenboot::{
    is_boot_rw, is_mounted_rw, remount_boot_ro, remount_boot_rw, MountChange, MountError,
    MountStep, RemountFlags,
};

const RW_TABLE: &str = "proc /proc proc rw,nosuid,nodev,noexec,relatime 0 0\n\
/dev/sda2 / ext4 rw,relatime 0 0\n\
/dev/sda1 /boot ext4 rw,relatime 0 0\n";

const RO_TABLE: &str = "/dev/sda2 / ext4 rw,relatime 0 0\n\
/dev/sda1 /boot ext4 ro,relatime 0 0\n";

#[test]
fn read_write_boot_is_seen() {
    assert_eq!(is_mounted_rw(Some(RW_TABLE), "/boot"), Ok(true));
    assert_eq!(is_boot_rw(Some(RW_TABLE)), Ok(true));
}

#[test]
fn read_only_boot_is_seen() {
    assert_eq!(is_mounted_rw(Some(RO_TABLE), "/boot"), Ok(false));
    assert_eq!(is_boot_rw(Some(RO_TABLE)), Ok(false));
}

#[test]
fn other_mount_points_are_looked_up_too() {
    assert_eq!(is_mounted_rw(Some(RO_TABLE), "/"), Ok(true));
    assert_eq!(is_mounted_rw(Some(RW_TABLE), "/proc"), Ok(true));
}

#[test]
fn a_table_without_the_mount_point_gives_no_state() {
    let table = "/dev/sda2 / ext4 rw,relatime 0 0\n/dev/sda3 /boot/efi vfat rw 0 0\n";
    assert_eq!(is_mounted_rw(Some(table), "/boot"), Err(MountError::MountInfoError));
    assert_eq!(is_mounted_rw(Some(""), "/boot"), Err(MountError::MountInfoError));
    assert_eq!(is_mounted_rw(Some("\n\n"), "/boot"), Err(MountError::MountInfoError));
}

#[test]
fn a_table_that_could_not_be_read_gives_no_state() {
    assert_eq!(is_mounted_rw(None, "/boot"), Err(MountError::MountInfoError));
    assert_eq!(is_boot_rw(None), Err(MountError::MountInfoError));
}

#[test]
fn the_mount_point_is_the_second_field() {
    let table = "/boot /mnt ext4 rw 0 0\n";
    assert_eq!(is_mounted_rw(Some(table), "/boot"), Err(MountError::MountInfoError));
    assert_eq!(is_mounted_rw(Some(table), "/mnt"), Ok(true));
}

#[test]
fn the_first_record_of_the_mount_point_decides() {
    let table = "a /boot ext4 ro 0 0\nb /boot ext4 rw 0 0\n";
    assert_eq!(is_mounted_rw(Some(table), "/boot"), Ok(false));
    let table = "a /boot ext4 rw 0 0\nb /boot ext4 ro 0 0\n";
    assert_eq!(is_mounted_rw(Some(table), "/boot"), Ok(true));
}

#[test]
fn options_are_searched_not_split() {
    // "errors" holds the letters r and o in a row
    assert_eq!(is_mounted_rw(Some("d /boot ext4 rw,errors=continue 0 0"), "/boot"), Ok(false));
    assert_eq!(is_mounted_rw(Some("d /boot ext4 rw,errors=remount-ro 0 0"), "/boot"), Ok(false));
    assert_eq!(is_mounted_rw(Some("d /boot ext4 noatime,xrwx 0 0"), "/boot"), Ok(true));
    assert_eq!(is_mounted_rw(Some("d /boot ext4 defaults 0 0"), "/boot"), Ok(false));
    assert_eq!(is_mounted_rw(Some("d /boot ext4 r,w 0 0"), "/boot"), Ok(false));
}

#[test]
fn a_record_without_options_is_not_read_write() {
    assert_eq!(is_mounted_rw(Some("dev /boot"), "/boot"), Ok(false));
    assert_eq!(is_mounted_rw(Some("dev /boot ext4\n"), "/boot"), Ok(false));
}

#[test]
fn fields_are_delimited_by_any_whitespace() {
    assert_eq!(is_mounted_rw(Some("  dev\t\t/boot   ext4\trw  0 0  "), "/boot"), Ok(true));
    assert_eq!(is_mounted_rw(Some("dev /boot ext4 rw 0 0\r\n"), "/boot"), Ok(true));
    assert_eq!(is_mounted_rw(Some("x / ext4 rw\r\ndev /boot ext4 ro\r\n"), "/boot"), Ok(false));
    assert_eq!(is_mounted_rw(Some("dev\u{a0}/boot\u{2003}ext4\u{3000}rw"), "/boot"), Ok(true));
    assert_eq!(is_mounted_rw(Some("dev\u{200b}/boot ext4 rw"), "/boot"), Err(MountError::MountInfoError));
}

#[test]
fn the_last_line_needs_no_line_feed() {
    assert_eq!(is_mounted_rw(Some("x / ext4 rw\ndev /boot ext4 rw"), "/boot"), Ok(true));
}

#[test]
fn an_empty_mount_point_matches_nothing() {
    assert_eq!(is_mounted_rw(Some(RW_TABLE), ""), Err(MountError::MountInfoError));
}

#[test]
fn remount_ro_asks_for_a_read_only_remount() {
    assert_eq!(
        remount_boot_ro(Some(RW_TABLE), None),
        MountStep::Remount(RemountFlags { remount: true, read_only: true, bind: false })
    );
}

#[test]
fn remount_rw_asks_for_a_bind_remount() {
    assert_eq!(
        remount_boot_rw(Some(RO_TABLE), None),
        MountStep::Remount(RemountFlags { remount: true, read_only: false, bind: true })
    );
}

#[test]
fn remount_ro_on_read_only_boot_does_nothing() {
    assert_eq!(remount_boot_ro(Some(RO_TABLE), None), MountStep::Done(Ok(MountChange::Unchanged)));
    assert_eq!(
        remount_boot_ro(Some(RO_TABLE), Some(Ok(()))),
        MountStep::Done(Ok(MountChange::Unchanged))
    );
    assert_eq!(
        remount_boot_ro(Some(RO_TABLE), Some(Err("EPERM".to_string()))),
        MountStep::Done(Ok(MountChange::Unchanged))
    );
}

#[test]
fn remount_rw_on_read_write_boot_does_nothing() {
    assert_eq!(remount_boot_rw(Some(RW_TABLE), None), MountStep::Done(Ok(MountChange::Unchanged)));
    assert_eq!(
        remount_boot_rw(Some(RW_TABLE), Some(Err("EPERM".to_string()))),
        MountStep::Done(Ok(MountChange::Unchanged))
    );
}

#[test]
fn a_remount_that_worked_is_reported() {
    assert_eq!(
        remount_boot_ro(Some(RW_TABLE), Some(Ok(()))),
        MountStep::Done(Ok(MountChange::Remounted))
    );
    assert_eq!(
        remount_boot_rw(Some(RO_TABLE), Some(Ok(()))),
        MountStep::Done(Ok(MountChange::Remounted))
    );
}

#[test]
fn a_remount_that_failed_is_reported_with_its_reason() {
    assert_eq!(
        remount_boot_ro(Some(RW_TABLE), Some(Err("EBUSY: Device or resource busy".to_string()))),
        MountStep::Done(Err(MountError::RemountFailed("EBUSY: Device or resource busy".to_string())))
    );
    assert_eq!(
        remount_boot_rw(Some(RO_TABLE), Some(Err("EPERM".to_string()))),
        MountStep::Done(Err(MountError::RemountFailed("EPERM".to_string())))
    );
}

#[test]
fn an_unknown_state_ends_the_remount() {
    assert_eq!(remount_boot_ro(None, None), MountStep::Done(Err(MountError::MountInfoError)));
    assert_eq!(
        remount_boot_rw(Some("x / ext4 rw\n"), Some(Ok(()))),
        MountStep::Done(Err(MountError::MountInfoError))
    );
}

#[test]
fn a_second_pass_after_a_remount_changes_nothing() {
    // first pass: read-write, asked to be read-only, remounted
    assert!(matches!(remount_boot_ro(Some(RW_TABLE), None), MountStep::Remount(_)));
    assert_eq!(
        remount_boot_ro(Some(RW_TABLE), Some(Ok(()))),
        MountStep::Done(Ok(MountChange::Remounted))
    );
    // second pass: the table shows the new state
    assert_eq!(remount_boot_ro(Some(RO_TABLE), None), MountStep::Done(Ok(MountChange::Unchanged)));
}

#[test]
fn mount_errors_have_their_messages() {
    assert_eq!(
        MountError::RemountFailed("EINVAL".to_string()).message(),
        "Failed to remount /boot: EINVAL"
    );
    assert_eq!(MountError::MountInfoError.message(), "Failed to read mount info");
}
