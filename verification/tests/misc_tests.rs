use cryptpilot::block::{DeviceMapperDevice, NbdDevice, NbdDeviceNumber, NbdScan, NbdScanAction, NbdScanError, NbdScanEvent};
use cryptpilot::cmd::DumpConfigCommand;
use cryptpilot::config::{ExtraOptions, KeyProviderOptions, VolumeConfig};
use cryptpilot::grub::{assemble_grub_artifacts, grub_file_kind, select_grub_files, GrubFileKind};
use cryptpilot::disk::{
    blkid_device, is_kernel_image_name, lsblk_fs_devices, lsblk_partitions, split_whitespace_exec, BootPartAction,
    BootPartError, BootPartEvent, BootPartSearch,
};
use cryptpilot::measure::{aael_event_key, AaelMeasure, AutoDetectMeasure, MeasurementEvent};
use cryptpilot::config::KeyProviderConfig;
use cryptpilot::provider::{Kms, OtpConfig};
use cryptpilot::shell::{Shell, ShellError};
use cryptpilot::source::{CloudInitConfigSource, InitrdStateConfigSource, UserDataError};
use cryptpilot::supplier::{generate_passphrase, passphrase_of, luks_format_script, peer_volume_name, request_volume_config, SupplierError};
use cryptpilot::template::{get_global_config, BootServiceConfig, ExtraConfig, GlobalTemplate, VolumeType, TEMPLATE_CERT_PEM};
use cryptpilot::text::concat_str;
use cryptpilot::config::MakeFsType;

#[test]
fn nbd_device_paths() {
    let d = NbdDevice { nbd_dev_num: NbdDeviceNumber(7) };
    assert_eq!(d.to_path(), "/dev/nbd7");
    assert_eq!(NbdDeviceNumber(123).to_path(), "/dev/nbd123");
    assert_eq!(d.holders_pattern(), "/sys/block/nbd7/nbd7p*/holders/*/dm/name");
}

#[test]
fn device_mapper_paths_and_names() {
    let d = DeviceMapperDevice { device_name: "cryptpilot-x".to_string() };
    assert_eq!(d.path(), "/dev/mapper/cryptpilot-x");
    let n = DeviceMapperDevice::random_device_name();
    assert_eq!(n.len(), 27);
    assert!(n.starts_with("cryptpilot-"));
    assert!(n[11..].chars().all(|c| c.is_ascii_alphanumeric()));
    assert_ne!(n, DeviceMapperDevice::random_device_name());
}

#[test]
fn shell_run_judges_exit_code() {
    let s = Shell("exit 3".to_string());
    assert_eq!(s.run(0, "out".to_string(), String::new()), Ok(()));
    assert_eq!(
        s.run(3, "o".to_string(), "e".to_string()),
        Err(ShellError::BadExitCode { script: "exit 3".to_string(), code: 3, stdout: "o".to_string(), stderr: "e".to_string() })
    );
}

#[test]
fn user_data_checks() {
    assert_eq!(CloudInitConfigSource::check_user_data("  \n\t"), Err(UserDataError::Empty));
    assert_eq!(CloudInitConfigSource::check_user_data("[volumes]\n"), Err(UserDataError::MissingHeader));
    assert_eq!(CloudInitConfigSource::check_user_data(" #cryptpilot-config\n"), Err(UserDataError::MissingHeader));
    assert_eq!(CloudInitConfigSource::check_user_data("#cryptpilot-config\n[global]\n"), Ok(()));
    assert_eq!(CloudInitConfigSource::new().source_debug_string(), "aliyun cloud-init user data");
}

#[test]
fn initrd_state_source() {
    assert_eq!(
        InitrdStateConfigSource::new().source_debug_string(),
        "initrd state: /var/run/cryptpilot/initrd_state.toml"
    );
}

#[test]
fn peer_paths_name_volumes() {
    assert_eq!(peer_volume_name("e1b2/cryptsetup/data0"), Some("data0".to_string()));
    assert_eq!(peer_volume_name("/run/cryptsetup/data0"), Some("cryptsetup".to_string()));
    assert_eq!(peer_volume_name("a//b/./c/"), Some("c".to_string()));
    assert_eq!(peer_volume_name("./a/b"), Some("b".to_string()));
    assert_eq!(peer_volume_name("a/b/.."), None);
    assert_eq!(peer_volume_name("a/b"), None);
    assert_eq!(peer_volume_name(""), None);
}

fn otp_volume(name: &str, dev: &str) -> VolumeConfig {
    VolumeConfig {
        volume: name.to_string(),
        dev: dev.to_string(),
        extra_options: ExtraOptions { open_in_system: None, makefs: None, integrity: None },
        key_provider: KeyProviderOptions::Otp(OtpConfig {}),
    }
}

#[test]
fn key_requests_find_their_volume() {
    let cs = vec![otp_volume("data0", "/dev/vdb"), otp_volume("data1", "/dev/vdc")];
    let c = request_volume_config("x/cryptsetup/data1", cs).ok().unwrap();
    assert_eq!(c.dev, "/dev/vdc");
    let cs = vec![otp_volume("data0", "/dev/vdb")];
    assert_eq!(request_volume_config("x/cryptsetup/nope", cs).err().unwrap(), SupplierError::UnknownVolume("nope".to_string()));
    assert_eq!(request_volume_config("bad", vec![]).err().unwrap(), SupplierError::BadPeerPath("bad".to_string()));
}

#[test]
fn passphrases_and_format_scripts() {
    let p = generate_passphrase();
    assert_eq!(p.len(), 32);
    assert!(p.chars().all(|c| c.is_ascii_digit() || ('a'..='f').contains(&c)));
    assert_eq!(
        luks_format_script("00ff", "/dev/vdb"),
        "echo -n 00ff | cryptsetup luksFormat --type luks2 /dev/vdb -"
    );
}

#[test]
fn whitespace_fields() {
    let s: Vec<char> = "  /dev/vda1   ext4\t\n x ".chars().collect();
    let f: Vec<String> = split_whitespace_exec(&s).iter().map(|v| v.iter().collect()).collect();
    assert_eq!(f, vec!["/dev/vda1", "ext4", "x"]);
}

#[test]
fn lsblk_devices_with_file_systems() {
    let out = "/dev/vda\n/dev/vda1 vfat\n/dev/vda2 ext4\n/dev/vda3 xfs extra\n";
    assert_eq!(lsblk_fs_devices(out), vec!["/dev/vda1", "/dev/vda2"]);
    assert_eq!(lsblk_partitions("/dev/vda\n/dev/vda1\n/dev/nvme0n1p2\n/dev/sr0\n/dev/loopx\n"), vec!["/dev/vda1", "/dev/nvme0n1p2", "/dev/sr0"]);
}

#[test]
fn blkid_output() {
    assert_eq!(blkid_device("/dev/vda3\n"), Some("/dev/vda3".to_string()));
    assert_eq!(blkid_device(" \n"), None);
    assert!(is_kernel_image_name("vmlinuz-5.10"));
    assert!(!is_kernel_image_name("initramfs"));
}

#[test]
fn measurement_events() {
    assert_eq!(aael_event_key("load_config"), "AA.eventlog.cryptpilot.alibabacloud.com.load_config");
    let e: MeasurementEvent = AaelMeasure {}.extend_measurement_hash("op".to_string(), "abc");
    assert_eq!(e.domain, "cryptpilot.alibabacloud.com");
    assert_eq!(e.operation, "op");
    assert_eq!(
        e.content,
        "{\"alg\":\"sha384\",\"value\":\"cb00753f45a35e8bb5a03d699ac65007272c32ab0eded1631a8b605a43ff5bed8086072ba1e7cc2358baeca134c825a7\"}"
    );
    assert!(AutoDetectMeasure::new(false).extend_measurement("op".to_string(), "c".to_string()).is_none());
    let m = AutoDetectMeasure::new(true);
    assert_eq!(m.extend_measurement("op".to_string(), "c".to_string()).unwrap().content, "c");
}

#[test]
fn dump_config_output() {
    assert_eq!(DumpConfigCommand {}.output("[global]\n"), "#cryptpilot-config\n\n[global]\n");
    assert_eq!(concat_str("a", "b"), "ab");
}

#[test]
fn grub_directory_files() {
    assert_eq!(grub_file_kind("GRUBX64.EFI"), Some(GrubFileKind::Grub));
    assert_eq!(grub_file_kind("shimx64.efi"), Some(GrubFileKind::Shim));
    assert_eq!(grub_file_kind("Shim.EFI"), Some(GrubFileKind::Shim));
    assert_eq!(grub_file_kind("grubenv"), Some(GrubFileKind::Env));
    assert_eq!(grub_file_kind("GRUB.CFG"), Some(GrubFileKind::Cfg));
    assert_eq!(grub_file_kind("mmx64.efi"), None);
    assert!(assemble_grub_artifacts("/d".to_string(), Some(vec![1]), None, None, None).is_none());
    let a = assemble_grub_artifacts("/d".to_string(), Some(vec![1]), Some(vec![2]), Some("e".to_string()), None).unwrap();
    assert_eq!(a.shim_data, vec![2]);
    assert!(select_grub_files(&None, &None, &a).is_none());
    assert_eq!(select_grub_files(&None, &Some("c".to_string()), &a), Some(("e".to_string(), "c".to_string())));
    assert_eq!(
        select_grub_files(&Some("g".to_string()), &Some("c".to_string()), &a),
        Some(("g".to_string(), "c".to_string()))
    );
}

#[test]
fn inactive_volume_has_no_mapper_node() {
    assert!(!cryptpilot::luks2::is_active("cryptpilot-test-volume-that-does-not-exist"));
}

#[test]
fn decimal_round_trip() {
    for n in [0u64, 7, 10, 99, 12345, u64::MAX] {
        let d = cryptpilot::text::decimal_exec(n);
        assert_eq!(d.iter().collect::<String>(), n.to_string());
        assert_eq!(cryptpilot::text::parse_u64_exec(&d), Some(n));
    }
}

#[test]
fn doc_comments_for_toml() {
    let f = cryptpilot::template::append_docs_as_toml_comments;
    assert_eq!(f(None, "a\n\nb"), "# a\n#\n# b\n");
    assert_eq!(f(Some(""), "x"), "# x\n");
    assert_eq!(f(Some("# old\n"), "x"), "# old\n#\n# x\n");
    assert_eq!(f(Some("# old\n\n"), "x"), "# old\n\n# x\n");
}

#[test]
fn boot_part_found_by_label() {
    let mut s = BootPartSearch::new();
    assert_eq!(s.step(Some("/dev/vdb"), BootPartEvent::Started), BootPartAction::RunBlkid(Some("/dev/vdb".to_string())));
    assert_eq!(
        s.step(Some("/dev/vdb"), BootPartEvent::Blkid(Some("/dev/vdb2\n".to_string()))),
        BootPartAction::Found("/dev/vdb2".to_string())
    );
    assert_eq!(s.step(Some("/dev/vdb"), BootPartEvent::Started), BootPartAction::Ignore);
}

#[test]
fn boot_part_found_by_kernel_image() {
    let mut s = BootPartSearch::new();
    s.step(Some("/dev/vdb"), BootPartEvent::Started);
    assert_eq!(s.step(Some("/dev/vdb"), BootPartEvent::Blkid(Some("  \n".to_string()))), BootPartAction::RunLsblk);
    let lsblk = "/dev/vda\n/dev/vda1 vfat\n/dev/vdb1 ext4\n/dev/vdb2 xfs\n";
    assert_eq!(
        s.step(Some("/dev/vdb"), BootPartEvent::Lsblk(Some(lsblk.to_string()))),
        BootPartAction::CheckMounted("/dev/vda1".to_string())
    );
    assert_eq!(s.step(Some("/dev/vdb"), BootPartEvent::Mounted(true)), BootPartAction::CheckMounted("/dev/vdb1".to_string()));
    assert_eq!(s.step(Some("/dev/vdb"), BootPartEvent::Mounted(false)), BootPartAction::ListRoot("/dev/vdb1".to_string()));
    assert_eq!(
        s.step(Some("/dev/vdb"), BootPartEvent::Listed(Some(vec!["grub2".to_string()]))),
        BootPartAction::CheckMounted("/dev/vdb2".to_string())
    );
    assert_eq!(s.step(Some("/dev/vdb"), BootPartEvent::Mounted(false)), BootPartAction::ListRoot("/dev/vdb2".to_string()));
    assert_eq!(
        s.step(Some("/dev/vdb"), BootPartEvent::Listed(Some(vec!["efi".to_string(), "vmlinuz-5.10".to_string()]))),
        BootPartAction::Found("/dev/vdb2".to_string())
    );
}

#[test]
fn boot_part_not_found() {
    let mut s = BootPartSearch::new();
    s.step(Some("/dev/vdb"), BootPartEvent::Started);
    s.step(Some("/dev/vdb"), BootPartEvent::Blkid(None));
    assert_eq!(
        s.step(Some("/dev/vdb"), BootPartEvent::Lsblk(Some("/dev/vdb1 ext4\n".to_string()))),
        BootPartAction::CheckMounted("/dev/vdb1".to_string())
    );
    assert_eq!(s.step(Some("/dev/vdb"), BootPartEvent::Mounted(false)), BootPartAction::ListRoot("/dev/vdb1".to_string()));
    assert_eq!(s.step(Some("/dev/vdb"), BootPartEvent::Listed(None)), BootPartAction::Failed(BootPartError::NotFound));
}

#[test]
fn boot_part_lsblk_failed() {
    let mut s = BootPartSearch::new();
    s.step(Some("/dev/vdb"), BootPartEvent::Started);
    s.step(Some("/dev/vdb"), BootPartEvent::Blkid(None));
    assert_eq!(s.step(Some("/dev/vdb"), BootPartEvent::Lsblk(None)), BootPartAction::Failed(BootPartError::LsblkFailed));
}

#[test]
fn boot_part_without_hint_from_boot_mount() {
    let mut s = BootPartSearch::new();
    assert_eq!(s.step(None, BootPartEvent::Started), BootPartAction::CheckBootMountpoint);
    assert_eq!(s.step(None, BootPartEvent::BootMountpoint(true)), BootPartAction::FindBootSource);
    assert_eq!(
        s.step(None, BootPartEvent::BootSource(Some("/dev/sda1\n".to_string()))),
        BootPartAction::Found("/dev/sda1".to_string())
    );
}

#[test]
fn boot_part_without_hint_asks_blkid_on_all_devices() {
    let mut s = BootPartSearch::new();
    s.step(None, BootPartEvent::Started);
    assert_eq!(s.step(None, BootPartEvent::BootMountpoint(false)), BootPartAction::RunBlkid(None));
    let mut t = BootPartSearch::new();
    t.step(None, BootPartEvent::Started);
    t.step(None, BootPartEvent::BootMountpoint(true));
    assert_eq!(t.step(None, BootPartEvent::BootSource(Some(" ".to_string()))), BootPartAction::RunBlkid(None));
    assert_eq!(
        t.step(None, BootPartEvent::Blkid(Some("/dev/vdc2".to_string()))),
        BootPartAction::Found("/dev/vdc2".to_string())
    );
}

#[test]
fn boot_part_without_hint_source_failed() {
    let mut s = BootPartSearch::new();
    s.step(None, BootPartEvent::Started);
    s.step(None, BootPartEvent::BootMountpoint(true));
    assert_eq!(s.step(None, BootPartEvent::BootSource(None)), BootPartAction::RunBlkid(None));
    assert_eq!(s.step(None, BootPartEvent::Blkid(None)), BootPartAction::RunLsblk);
}

fn probe(a: NbdScanAction) -> Option<u16> {
    match a {
        NbdScanAction::Probe(n) => Some(n.0),
        _ => None,
    }
}

#[test]
fn nbd_scan_chooses_first_empty_device() {
    let mut s = NbdScan::new();
    assert!(matches!(s.step(NbdScanEvent::Started), NbdScanAction::CheckModule));
    assert_eq!(probe(s.step(NbdScanEvent::ModuleLoaded(true))), Some(0));
    assert_eq!(probe(s.step(NbdScanEvent::Probed(None))), Some(1));
    assert_eq!(probe(s.step(NbdScanEvent::Probed(Some(4096)))), Some(2));
    match s.step(NbdScanEvent::Probed(Some(0))) {
        NbdScanAction::Chosen(n) => {
            assert_eq!(n.0, 2);
            assert_eq!(n.to_path(), "/dev/nbd2");
            assert_eq!(n.connect_args("/img.qcow2")[1], n.to_path());
        }
        other => panic!("{other:?}"),
    }
    assert!(matches!(s.step(NbdScanEvent::Probed(Some(0))), NbdScanAction::Ignore));
}

#[test]
fn nbd_scan_loads_module_first() {
    let mut s = NbdScan::new();
    s.step(NbdScanEvent::Started);
    assert!(matches!(s.step(NbdScanEvent::ModuleLoaded(false)), NbdScanAction::Modprobe));
    assert_eq!(probe(s.step(NbdScanEvent::Modprobed(true))), Some(0));
    let mut t = NbdScan::new();
    t.step(NbdScanEvent::Started);
    t.step(NbdScanEvent::ModuleLoaded(false));
    assert!(matches!(
        t.step(NbdScanEvent::Modprobed(false)),
        NbdScanAction::Failed(NbdScanError::ModprobeFailed)
    ));
}

#[test]
fn nbd_scan_gives_up_after_nbd99() {
    let mut s = NbdScan::new();
    s.step(NbdScanEvent::Started);
    s.step(NbdScanEvent::ModuleLoaded(true));
    for i in 0..99u16 {
        assert_eq!(probe(s.step(NbdScanEvent::Probed(Some(1)))), Some(i + 1));
    }
    assert!(matches!(
        s.step(NbdScanEvent::Probed(None)),
        NbdScanAction::Failed(NbdScanError::NoneAvailable)
    ));
}

#[test]
fn nbd_connect_arguments() {
    let args = NbdDeviceNumber(5).connect_args("/data/disk.img");
    assert_eq!(args, vec!["--connect", "/dev/nbd5", "--discard=on", "--detect-zeroes=unmap", "/data/disk.img"]);
}

#[test]
fn passphrase_of_bytes_is_lowercase_hex() {
    assert_eq!(passphrase_of(&[0x00, 0xab, 0x7f, 0x10]), "00ab7f10");
    assert_eq!(passphrase_of(&[]), "");
}

#[test]
fn volume_templates() {
    for t in [VolumeType::Otp, VolumeType::Kms, VolumeType::Kbs, VolumeType::ZeroTrust, VolumeType::Exec] {
        let c = t.get_volume_config();
        assert_eq!(c.dev, "/dev/nvme1n1p1");
        assert_eq!(c.volume, "data0");
        assert_eq!(
            c.extra_config,
            ExtraConfig { auto_open: Some(true), makefs: Some(MakeFsType::Ext4), integrity: Some(true) }
        );
        match (t, c.encrypt.key_provider) {
            (VolumeType::Otp, KeyProviderConfig::Otp(_)) => {}
            (VolumeType::Kms, KeyProviderConfig::Kms(k)) => {
                assert_eq!(k.kms_instance_id, "kst-XXXXXXXXX");
                assert_eq!(k.client_key, "{\n  \"KeyId\": \"KAAP.XXXXXXXXX\",\n  \"PrivateKeyData\": \"XXXXXXXXX\"\n}");
                assert!(k.kms_cert_pem.starts_with("-----BEGIN CERTIFICATE-----\n"));
                assert_eq!(k.kms_cert_pem.lines().nth(1).unwrap().len(), 45);
            }
            (VolumeType::Kbs, KeyProviderConfig::Kbs(k)) => {
                assert_eq!(k.kbs_url, "https://1.2.3.4:8080");
                assert_eq!(k.key_uri, "kbs:///default/mykey/volume_data0");
                assert_eq!(k.kbs_root_cert.as_deref(), Some(TEMPLATE_CERT_PEM));
            }
            (VolumeType::ZeroTrust, KeyProviderConfig::Oidc(o)) => {
                assert_eq!(o.command, "some-cli");
                assert_eq!(o.args, vec!["-c", "/etc/config.json", "get-token"]);
                assert_eq!(o.key_id, "disk-decryption-key");
                let Kms::Aliyun { region_id, .. } = o.kms;
                assert_eq!(region_id, "cn-beijing");
            }
            (VolumeType::Exec, KeyProviderConfig::Exec(e)) => {
                assert_eq!(e.command, "echo");
                assert_eq!(e.args, vec!["passphrase"]);
            }
            (t, k) => panic!("{t:?} gave {k:?}"),
        }
    }
}

#[test]
fn global_template() {
    assert_eq!(get_global_config(), GlobalTemplate { boot: Some(BootServiceConfig { verbose: false }) });
}
