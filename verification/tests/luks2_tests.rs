use cryptpilot::config::MakeFsType;
use cryptpilot::luks2::{
    device_is_empty, init_integrity, is_luks_exit_code, luks_close_args, luks_format_args,
    luks_open_args, mapper_path, mkfs_command, needs_no_wipe_mkfs, no_wipe_mkfs_script,
    open_integrity, CommandError, IntegrityType, NoWipeMkfsError,
};

#[test]
fn format_args_with_integrity() {
    assert_eq!(
        luks_format_args("/dev/vdb", IntegrityType::NoJournal, false),
        vec!["luksFormat", "--type", "luks2", "--cipher", "aes-xts-plain64", "--integrity", "hmac-sha256", "--integrity-no-wipe", "--integrity-no-journal", "/dev/vdb", "-"]
    );
    assert_eq!(
        luks_format_args("/dev/vdb", IntegrityType::Plain, true),
        vec!["--debug", "luksFormat", "--type", "luks2", "--cipher", "aes-xts-plain64", "/dev/vdb", "-"]
    );
}

#[test]
fn open_and_close_args() {
    assert_eq!(
        luks_open_args("data0", "/dev/vdb", IntegrityType::NoJournal, false),
        vec!["open", "--type", "luks2", "--integrity-no-journal", "--key-file=-", "/dev/vdb", "data0"]
    );
    assert_eq!(
        luks_open_args("data0", "/dev/vdb", IntegrityType::Journal, false),
        vec!["open", "--type", "luks2", "--key-file=-", "/dev/vdb", "data0"]
    );
    assert_eq!(luks_close_args("data0", true), vec!["--debug", "close", "data0"]);
}

#[test]
fn luks_exit_codes() {
    assert_eq!(is_luks_exit_code(0), Ok(true));
    assert_eq!(is_luks_exit_code(1), Ok(false));
    assert_eq!(is_luks_exit_code(4), Err(CommandError::BadExitCode(4)));
}

#[test]
fn mapper_paths() {
    assert_eq!(mapper_path("data0"), "/dev/mapper/data0");
}

#[test]
fn mkfs_commands() {
    assert_eq!(mkfs_command(MakeFsType::Swap), ("mkswap", "-f"));
    assert_eq!(mkfs_command(MakeFsType::Ext4), ("mkfs.ext4", "-F"));
    assert_eq!(mkfs_command(MakeFsType::Xfs), ("mkfs.xfs", "-f"));
    assert_eq!(mkfs_command(MakeFsType::Vfat), ("mkfs.vfat", "-I"));
}

#[test]
fn empty_device_detection() {
    assert_eq!(device_is_empty(0, "data\n"), Ok(true));
    assert_eq!(device_is_empty(1, "/dev/x: Input/output error"), Ok(true));
    assert_eq!(device_is_empty(0, "cannot open `/dev/x'"), Err(CommandError::CannotOpen));
    assert_eq!(device_is_empty(2, "Linux rev 1.0 ext4 filesystem data"), Err(CommandError::BadExitCode(2)));
    assert_eq!(device_is_empty(0, "Linux rev 1.0 ext4 filesystem data"), Ok(false));
}

#[test]
fn integrity_choices() {
    assert_eq!(open_integrity(Some(true)), IntegrityType::NoJournal);
    assert_eq!(open_integrity(None), IntegrityType::Plain);
    assert_eq!(init_integrity(Some(true)), IntegrityType::Journal);
    assert_eq!(init_integrity(Some(false)), IntegrityType::Plain);
    assert!(needs_no_wipe_mkfs(IntegrityType::Journal));
    assert!(!needs_no_wipe_mkfs(IntegrityType::Plain));
}

#[test]
fn no_wipe_mkfs_scripts() {
    assert_eq!(
        no_wipe_mkfs_script(MakeFsType::Xfs, "/dev/mapper/d"),
        Ok("dd if=/dev/zero of=/dev/mapper/d count=1 seek=0 bs=4096\nmkfs.xfs -f /dev/mapper/d\n".to_string())
    );
    assert_eq!(
        no_wipe_mkfs_script(MakeFsType::Swap, "/v"),
        Ok("dd if=/dev/zero of=/v count=1 seek=0 bs=4096\nmkswap /v\n".to_string())
    );
    let ext4 = no_wipe_mkfs_script(MakeFsType::Ext4, "/v").unwrap();
    assert!(ext4.starts_with("BLOCKS=$(mkfs.ext4 -n /v | tail -n 4 | grep -Eo '[0-9]{4,}' | sort -n)\n"));
    assert!(ext4.ends_with("done\nmkfs.ext4 /v\n"));
    assert_eq!(no_wipe_mkfs_script(MakeFsType::Vfat, "/v"), Err(NoWipeMkfsError::VfatUnsupported));
}
