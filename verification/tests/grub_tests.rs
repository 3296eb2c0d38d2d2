use cryptpilot::grub::{
    get_disk_root_device, kernel_boot_entry, kernel_cmdlines, load_from_grub_cfg, loader_entry_path,
    parse_grub_env_vars, parse_loader_entry, parse_partition_table_type, GrubError, GrubVars,
    PartitionTableType,
};

const ENV: &str = "# GRUB Environment Block\nsaved_entry=abc-5.10\nkernelopts=root=UUID=1 ro\nboot_success=0\n";

#[test]
fn grub_env_vars_from_grubenv() {
    let vars = parse_grub_env_vars(ENV, "");
    assert_eq!(vars.get("saved_entry"), Some("abc-5.10".to_string()));
    assert_eq!(vars.get("kernelopts"), Some("root=UUID=1 ro".to_string()));
    assert_eq!(vars.get("boot_success"), Some("0".to_string()));
    assert_eq!(vars.get("tuned_params"), Some(String::new()));
    assert_eq!(vars.get("tuned_initrd"), Some(String::new()));
    assert_eq!(vars.get("missing"), None);
    assert_eq!(vars.len(), 5);
    assert_eq!(vars.entry(0), ("saved_entry".to_string(), "abc-5.10".to_string()));
    assert_eq!(vars.entry(4), ("tuned_initrd".to_string(), String::new()));
}

#[test]
fn grub_env_later_line_overrides() {
    let vars = parse_grub_env_vars("a=1\nb=2\na=3\ntuned_params=x\n", "");
    assert_eq!(vars.get("a"), Some("3".to_string()));
    assert_eq!(vars.get("tuned_params"), Some("x".to_string()));
    assert_eq!(vars.entry(0), ("a".to_string(), "3".to_string()));
    assert_eq!(vars.len(), 4);
}

#[test]
fn grub_kernelopts_from_cfg() {
    let cfg = "set default=0\nset kernelopts=\"root=/dev/sda2 ro \"\n";
    let vars = parse_grub_env_vars("saved_entry=x\n", cfg);
    assert_eq!(vars.get("kernelopts"), Some("root=/dev/sda2 ro ".to_string()));
}

#[test]
fn grub_kernelopts_fallback_wins() {
    let cfg = "set kernelopts=\"root=first\"\nif [ -z \\\"${kernelopts}\\\" ]; then\n  set kernelopts=\"root=fallback\"\nfi\n";
    let vars = parse_grub_env_vars("saved_entry=x\n", cfg);
    assert_eq!(vars.get("kernelopts"), Some("root=fallback".to_string()));
}

#[test]
fn grub_kernelopts_from_env_wins_over_cfg() {
    let cfg = "set kernelopts=\"root=cfg\"\n";
    let vars = parse_grub_env_vars("kernelopts=root=env\n", cfg);
    assert_eq!(vars.get("kernelopts"), Some("root=env".to_string()));
}

#[test]
fn grub_vars_set_and_get() {
    let mut vars = GrubVars::new();
    let k: Vec<char> = "k".chars().collect();
    vars.set(&k, &['1']);
    vars.set(&['j'], &['2']);
    vars.set(&k, &['3']);
    assert_eq!(vars.get("k"), Some("3".to_string()));
    assert_eq!(vars.get("j"), Some("2".to_string()));
    assert_eq!(vars.len(), 2);
    assert!(vars.contains_key(&k));
    assert!(!vars.contains_key(&['z']));
}

const CFG: &str = "set timeout=5\nmenuentry 'Alinux (5.10)' --class alinux {\n    load_video\n    linuxefi /vmlinuz-5.10 root=UUID=abc  ro quiet\n    initrdefi /initramfs-5.10.img\n}\nmenuentry 'Other' {\n    linuxefi /boot/vmlinuz-other x\n}\n";

#[test]
fn kernel_from_grub_cfg_menuentry() {
    let (k, i, c) = load_from_grub_cfg("Alinux (5.10)", CFG);
    assert_eq!(k, "/boot/vmlinuz-5.10");
    assert_eq!(i, "/boot/initramfs-5.10.img");
    assert_eq!(c, "root=UUID=abc ro quiet");
}

#[test]
fn kernel_from_grub_cfg_keeps_boot_prefix() {
    let (k, i, c) = load_from_grub_cfg("Other", CFG);
    assert_eq!(k, "/boot/vmlinuz-other");
    assert_eq!(i, "");
    assert_eq!(c, "x");
}

#[test]
fn kernel_from_grub_cfg_missing_entry() {
    let (k, i, c) = load_from_grub_cfg("nothing", CFG);
    assert_eq!((k.as_str(), i.as_str(), c.as_str()), ("", "", ""));
}

const ENTRY: &str = "title Alinux\nversion 5.10\nlinux /vmlinuz-5.10\ninitrd /initramfs-5.10.img $tuned_initrd\noptions $kernelopts $tuned_params\n";

#[test]
fn kernel_from_loader_entry() {
    let vars = parse_grub_env_vars("saved_entry=abc\nkernelopts=root=UUID=x ro\n", "");
    let (k, i, c) = parse_loader_entry(ENTRY, &vars);
    assert_eq!(k, "/vmlinuz-5.10");
    assert_eq!(i, "/initramfs-5.10.img");
    assert_eq!(c, "root=UUID=x ro");
}

#[test]
fn loader_entry_file_path() {
    assert_eq!(loader_entry_path("abc-5.10"), "/boot/loader/entries/abc-5.10.conf");
}

#[test]
fn kernel_boot_entry_prefers_loader_entry() {
    let vars = parse_grub_env_vars("saved_entry=Alinux (5.10)\nkernelopts=root=UUID=x ro\n", "");
    let r = kernel_boot_entry(&vars, CFG, Some(ENTRY)).ok().unwrap();
    assert_eq!(r.0, "/vmlinuz-5.10");
    assert_eq!(r.2, "root=UUID=x ro");
    let g = kernel_boot_entry(&vars, CFG, None).ok().unwrap();
    assert_eq!(g.0, "/boot/vmlinuz-5.10");
    assert_eq!(g.1, "/boot/initramfs-5.10.img");
}

#[test]
fn kernel_boot_entry_relative_paths_go_under_boot() {
    let vars = parse_grub_env_vars("saved_entry=e\n", "");
    let r = kernel_boot_entry(&vars, "", Some("linux vmlinuz\ninitrd initrd.img\n")).ok().unwrap();
    assert_eq!(r.0, "/boot/vmlinuz");
    assert_eq!(r.1, "/boot/initrd.img");
}

#[test]
fn kernel_boot_entry_needs_saved_entry() {
    let vars = parse_grub_env_vars("", "");
    assert!(matches!(kernel_boot_entry(&vars, CFG, None), Err(GrubError::SavedEntryNotFound)));
}

#[test]
fn kernel_cmdlines_gpt_and_mbr() {
    let v = kernel_cmdlines("/boot/vmlinuz-5.10", "root=x ro", "/dev/sda3", PartitionTableType::Gpt).ok().unwrap();
    assert_eq!(v, vec!["/vmlinuz-5.10 root=x ro", "(hd0,gpt3)/boot/vmlinuz-5.10 root=x ro"]);
    let m = kernel_cmdlines("/boot/vmlinuz", "q", "/dev/nvme0n1p12", PartitionTableType::Mbr).ok().unwrap();
    assert_eq!(m, vec!["/vmlinuz q", "(hd0,msdos12)/boot/vmlinuz q"]);
}

#[test]
fn kernel_cmdlines_need_partition_number() {
    let r = kernel_cmdlines("/boot/vmlinuz", "q", "/dev/sda", PartitionTableType::Gpt);
    match r {
        Err(GrubError::NoPartitionNumber(d)) => assert_eq!(d, "/dev/sda"),
        _ => panic!("expected an error"),
    }
}

#[test]
fn disk_root_device_of_partitions() {
    assert_eq!(get_disk_root_device("/dev/nvme0n1p3"), "/dev/nvme0n1");
    assert_eq!(get_disk_root_device("/dev/sda3"), "/dev/sda");
    assert_eq!(get_disk_root_device("/dev/sda12"), "/dev/sda");
    assert_eq!(get_disk_root_device("/dev/nvme0n1p12"), "/dev/nvme0n1");
    assert_eq!(get_disk_root_device("/dev/vda"), "/dev/vda");
}

#[test]
fn partition_table_type_from_fdisk() {
    let gpt = "Disk /dev/vda: 40 GiB\nDisklabel type: gpt\nDisk identifier: X\n";
    let dos = "Disk /dev/vda: 40 GiB\nDisklabel type: dos\n";
    assert_eq!(parse_partition_table_type(gpt), PartitionTableType::Gpt);
    assert_eq!(parse_partition_table_type(dos), PartitionTableType::Mbr);
    assert_eq!(parse_partition_table_type("nothing here\n"), PartitionTableType::Gpt);
}
