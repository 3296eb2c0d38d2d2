use cryptpilot::components::{BootComponentsHashValues, KernelArtifacts as SingleKernel, MeasurementedBootComponents};
use cryptpilot::grub::{GrubArtifacts, KernelArtifacts};
use cryptpilot::metadata::{normalize_root_hash, Metadata, MetadataError};
use cryptpilot::reference::{
    calculate_authenticode_hash, hash_bytes, hash_text, insert_boot_reference_values,
    inseart_reference_value, BootArtifacts, GrubBootArtifactsItem, ReferenceError,
    ShowReferenceValueCommand, ShowReferenceValueHashAlgo, ShowReferenceValueStage,
};
use indexmap::IndexMap;
use sha2::Digest;

/// A PE32+ image with headers only: no sections, no certificate table.
fn minimal_pe64() -> Vec<u8> {
    let mut b = vec![0u8; 328];
    b[0] = b'M';
    b[1] = b'Z';
    b[0x3c..0x40].copy_from_slice(&0x40u32.to_le_bytes());
    b[0x40..0x44].copy_from_slice(b"PE\0\0");
    b[0x44..0x46].copy_from_slice(&0x8664u16.to_le_bytes());
    b[0x54..0x56].copy_from_slice(&240u16.to_le_bytes());
    b[0x56..0x58].copy_from_slice(&0x22u16.to_le_bytes());
    b[88..90].copy_from_slice(&0x20bu16.to_le_bytes());
    b[148..152].copy_from_slice(&328u32.to_le_bytes());
    b[152..156].copy_from_slice(&[1, 2, 3, 4]);
    b[196..200].copy_from_slice(&16u32.to_le_bytes());
    b[300] = 0x5a;
    b
}

/// The SHA-256 Authenticode digest of `minimal_pe64`, computed by hand: the
/// headers without the checksum and without the security directory entry.
fn minimal_pe64_sha256() -> String {
    let b = minimal_pe64();
    let mut h = sha2::Sha256::new();
    h.update(&b[0..152]);
    h.update(&b[156..232]);
    h.update(&b[240..328]);
    hex::encode(h.finalize())
}

fn item(cmdlines: &[&str], kernel: &[u8], initrd: &[u8], grub: Vec<u8>, shim: Vec<u8>) -> GrubBootArtifactsItem {
    GrubBootArtifactsItem {
        grub: GrubArtifacts {
            efi_grub_dir: "/boot/efi/EFI/alinux".to_string(),
            grub_data: grub,
            shim_data: shim,
            grub_env: None,
            grub_cfg: None,
        },
        kernel: KernelArtifacts {
            kernel_cmdlines: cmdlines.iter().map(|s| s.to_string()).collect(),
            kernel: kernel.to_vec(),
            initrd: initrd.to_vec(),
        },
    }
}

fn keys(map: &IndexMap<String, Vec<String>>) -> Vec<String> {
    map.keys().cloned().collect()
}

#[test]
fn hash_key_names() {
    assert_eq!(ShowReferenceValueHashAlgo::Sha1.hash_key(), "SHA-1");
    assert_eq!(ShowReferenceValueHashAlgo::Sha256.hash_key(), "SHA-256");
    assert_eq!(ShowReferenceValueHashAlgo::Sha384.hash_key(), "SHA-384");
    assert_eq!(ShowReferenceValueHashAlgo::Sm3.hash_key(), "SM3");
}

#[test]
fn digests_of_abc() {
    assert_eq!(hash_text(ShowReferenceValueHashAlgo::Sha1, "abc"), "a9993e364706816aba3e25717850c26c9cd0d89d");
    assert_eq!(
        hash_text(ShowReferenceValueHashAlgo::Sha256, "abc"),
        "ba7816bf8f01cfea414140de5dae2223b00361a396177a9cb410ff61f20015ad"
    );
    assert_eq!(
        hash_text(ShowReferenceValueHashAlgo::Sha384, "abc"),
        "cb00753f45a35e8bb5a03d699ac65007272c32ab0eded1631a8b605a43ff5bed8086072ba1e7cc2358baeca134c825a7"
    );
    assert_eq!(
        hash_text(ShowReferenceValueHashAlgo::Sm3, "abc"),
        "66c7f0f462eeedd9d1f2d46bdc10e4e24167c4875cf2f7a2297da02b8f4ba8e0"
    );
    assert_eq!(
        hash_bytes(ShowReferenceValueHashAlgo::Sha256, b""),
        "e3b0c44298fc1c149afbf4c8996fb92427ae41e4649b934ca495991b7852b855"
    );
}

#[test]
fn authenticode_of_minimal_pe() {
    let pe = minimal_pe64();
    let h = calculate_authenticode_hash(ShowReferenceValueHashAlgo::Sha256, &pe).unwrap();
    assert_eq!(h, minimal_pe64_sha256());
    let h1 = calculate_authenticode_hash(ShowReferenceValueHashAlgo::Sha1, &pe).unwrap();
    assert_eq!(h1.len(), 40);
    let h3 = calculate_authenticode_hash(ShowReferenceValueHashAlgo::Sha384, &pe).unwrap();
    assert_eq!(h3.len(), 96);
    let hs = calculate_authenticode_hash(ShowReferenceValueHashAlgo::Sm3, &pe).unwrap();
    assert_eq!(hs.len(), 64);
}

#[test]
fn authenticode_of_non_pe_fails() {
    let r = calculate_authenticode_hash(ShowReferenceValueHashAlgo::Sha256, b"not a PE image");
    assert_eq!(r, Err(ReferenceError::Authenticode));
}

#[test]
fn boot_reference_values_all_keys() {
    let pe = minimal_pe64();
    let items = vec![item(&["/vmlinuz-6 ro", "(hd0,gpt2)/boot/vmlinuz-6 ro"], b"KERNEL", b"INITRD", pe.clone(), pe.clone())];
    let mut map = IndexMap::new();
    let r = insert_boot_reference_values(&items, &mut map, ShowReferenceValueHashAlgo::Sha256);
    assert_eq!(r, Ok(()));
    assert_eq!(
        keys(&map),
        vec![
            "kernel_cmdline",
            "measurement.kernel_cmdline.SHA-256",
            "measurement.kernel.SHA-256",
            "measurement.initrd.SHA-256",
            "measurement.grub.SHA-256",
            "measurement.shim.SHA-256",
        ]
    );
    assert_eq!(
        map["kernel_cmdline"],
        vec!["grub_kernel_cmdline /vmlinuz-6 ro", "grub_kernel_cmdline (hd0,gpt2)/boot/vmlinuz-6 ro"]
    );
    assert_eq!(
        map["measurement.kernel_cmdline.SHA-256"],
        vec![
            hash_text(ShowReferenceValueHashAlgo::Sha256, "/vmlinuz-6 ro"),
            hash_text(ShowReferenceValueHashAlgo::Sha256, "(hd0,gpt2)/boot/vmlinuz-6 ro"),
        ]
    );
    assert_eq!(map["measurement.kernel.SHA-256"], vec![hex::encode(sha2::Sha256::digest(b"KERNEL"))]);
    assert_eq!(map["measurement.initrd.SHA-256"], vec![hex::encode(sha2::Sha256::digest(b"INITRD"))]);
    assert_eq!(map["measurement.grub.SHA-256"], vec![minimal_pe64_sha256()]);
    assert_eq!(map["measurement.shim.SHA-256"], vec![minimal_pe64_sha256()]);
}

#[test]
fn boot_reference_values_stop_at_bad_grub() {
    let pe = minimal_pe64();
    let items = vec![item(&["a"], b"K", b"I", b"garbage".to_vec(), pe)];
    let mut map = IndexMap::new();
    let r = insert_boot_reference_values(&items, &mut map, ShowReferenceValueHashAlgo::Sha1);
    assert_eq!(r, Err(ReferenceError::Authenticode));
    assert_eq!(
        keys(&map),
        vec![
            "kernel_cmdline",
            "measurement.kernel_cmdline.SHA-1",
            "measurement.kernel.SHA-1",
            "measurement.initrd.SHA-1",
        ]
    );
}

#[test]
fn boot_reference_values_stop_at_bad_shim() {
    let pe = minimal_pe64();
    let items = vec![item(&["a"], b"K", b"I", pe, b"garbage".to_vec())];
    let mut map = IndexMap::new();
    let r = insert_boot_reference_values(&items, &mut map, ShowReferenceValueHashAlgo::Sm3);
    assert_eq!(r, Err(ReferenceError::Authenticode));
    assert_eq!(keys(&map).len(), 5);
    assert_eq!(keys(&map)[4], "measurement.grub.SM3");
}

#[test]
fn boot_reference_values_replace_in_place() {
    let pe = minimal_pe64();
    let mut map = IndexMap::new();
    map.insert("kernel_cmdline".to_string(), vec!["old".to_string()]);
    map.insert("other".to_string(), vec![]);
    let items = vec![item(&["x"], b"K", b"I", pe.clone(), pe)];
    insert_boot_reference_values(&items, &mut map, ShowReferenceValueHashAlgo::Sha256).unwrap();
    assert_eq!(keys(&map)[0], "kernel_cmdline");
    assert_eq!(keys(&map)[1], "other");
    assert_eq!(map["kernel_cmdline"], vec!["grub_kernel_cmdline x"]);
    assert_eq!(map.len(), 7);
}

#[test]
fn reference_values_need_an_algorithm() {
    let cmd = ShowReferenceValueCommand { disk: None, stage: None, hash_algos: vec![] };
    let r = cmd.reference_values(&[], &[]);
    assert!(matches!(r, Err(ReferenceError::NoHashAlgorithm)));
}

#[test]
fn reference_values_of_a_disk() {
    let pe = minimal_pe64();
    let items = vec![item(&["c1"], b"K", b"I", pe.clone(), pe)];
    let files = vec![("bundlehash".to_string(), "roothash".to_string())];
    let cmd = ShowReferenceValueCommand {
        disk: None,
        stage: Some(ShowReferenceValueStage::System),
        hash_algos: vec![ShowReferenceValueHashAlgo::Sha1, ShowReferenceValueHashAlgo::Sha384],
    };
    let map = cmd.reference_values(&items, &files).unwrap();
    let k = keys(&map);
    assert_eq!(k.len(), 14);
    assert_eq!(k[0], "kernel_cmdline");
    assert_eq!(k[1], "measurement.kernel_cmdline.SHA-1");
    assert_eq!(k[6], "measurement.kernel_cmdline.SHA-384");
    assert_eq!(k[11], "AA.eventlog.cryptpilot.alibabacloud.com.load_config");
    assert_eq!(k[12], "AA.eventlog.cryptpilot.alibabacloud.com.fde_rootfs_hash");
    assert_eq!(k[13], "AA.eventlog.cryptpilot.alibabacloud.com.initrd_switch_root");
    assert_eq!(map[11], vec!["bundlehash"]);
    assert_eq!(map[12], vec!["roothash"]);
    assert_eq!(map[13], vec!["{}"]);
}

#[test]
fn reference_values_without_cryptpilot_files() {
    let pe = minimal_pe64();
    let items = vec![item(&["c1"], b"K", b"I", pe.clone(), pe)];
    let cmd = ShowReferenceValueCommand {
        disk: Some("/tmp/disk.img".to_string()),
        stage: Some(ShowReferenceValueStage::System),
        hash_algos: vec![ShowReferenceValueHashAlgo::Sha256],
    };
    let map = cmd.reference_values(&items, &[]).unwrap();
    assert_eq!(map.len(), 6);
}

#[test]
fn reference_values_initrd_stage_has_no_switch_root() {
    let pe = minimal_pe64();
    let items = vec![item(&["c1"], b"K", b"I", pe.clone(), pe)];
    let files = vec![("b".to_string(), "r".to_string())];
    let cmd = ShowReferenceValueCommand {
        disk: None,
        stage: Some(ShowReferenceValueStage::Initrd),
        hash_algos: vec![ShowReferenceValueHashAlgo::Sha256],
    };
    let map = cmd.reference_values(&items, &files).unwrap();
    assert_eq!(map.len(), 8);
}

#[test]
fn inseart_reference_value_adds_cryptpilot_files() {
    let pe = minimal_pe64();
    let arts = vec![BootArtifacts::Grub {
        grub: GrubArtifacts {
            efi_grub_dir: "/e".to_string(),
            grub_data: pe.clone(),
            shim_data: pe,
            grub_env: None,
            grub_cfg: None,
        },
        kernel: KernelArtifacts { kernel_cmdlines: vec!["k".to_string()], kernel: vec![1], initrd: vec![2] },
    }];
    let mut map = IndexMap::new();
    inseart_reference_value(&arts, &mut map, ShowReferenceValueHashAlgo::Sha256, &[]).unwrap();
    assert_eq!(map.len(), 8);
    assert_eq!(map["AA.eventlog.cryptpilot.alibabacloud.com.load_config"], Vec::<String>::new());
}

#[test]
fn cal_hash_of_components() {
    let pe = minimal_pe64();
    let c = MeasurementedBootComponents(vec![(
        GrubArtifacts {
            efi_grub_dir: "/e".to_string(),
            grub_data: pe.clone(),
            shim_data: pe,
            grub_env: None,
            grub_cfg: None,
        },
        SingleKernel { kernel_cmdline: "abc".to_string(), kernel: b"abc".to_vec(), initrd: vec![] },
    )]);
    let h: BootComponentsHashValues = c.cal_hash(ShowReferenceValueHashAlgo::Sha256).ok().unwrap();
    assert_eq!(h.kernel_cmdline_hashs, vec!["ba7816bf8f01cfea414140de5dae2223b00361a396177a9cb410ff61f20015ad"]);
    assert_eq!(h.kernel_hashs, h.kernel_cmdline_hashs);
    assert_eq!(h.initrd_hashs, vec!["e3b0c44298fc1c149afbf4c8996fb92427ae41e4649b934ca495991b7852b855"]);
    assert_eq!(h.grub_authenticode_hashes, vec![minimal_pe64_sha256()]);
    assert_eq!(h.shim_authenticode_hashes, vec![minimal_pe64_sha256()]);
}

#[test]
fn cal_hash_fails_on_bad_shim() {
    let c = MeasurementedBootComponents(vec![(
        GrubArtifacts {
            efi_grub_dir: "/e".to_string(),
            grub_data: minimal_pe64(),
            shim_data: vec![0; 10],
            grub_env: None,
            grub_cfg: None,
        },
        SingleKernel { kernel_cmdline: String::new(), kernel: vec![], initrd: vec![] },
    )]);
    assert!(matches!(c.cal_hash(ShowReferenceValueHashAlgo::Sha1), Err(ReferenceError::Authenticode)));
}

#[test]
fn root_hash_normalized_to_lowercase() {
    assert_eq!(normalize_root_hash("ABcd01"), Ok("abcd01".to_string()));
    assert_eq!(normalize_root_hash(""), Ok(String::new()));
    assert_eq!(normalize_root_hash("abc"), Err(MetadataError::BadRootHash));
    assert_eq!(normalize_root_hash("zz"), Err(MetadataError::BadRootHash));
    assert_eq!(normalize_root_hash("é1"), Err(MetadataError::BadRootHash));
}

#[test]
fn root_hash_normalization_is_idempotent() {
    let once = normalize_root_hash("DEADbeef").unwrap();
    let twice = normalize_root_hash(&once).unwrap();
    assert_eq!(once, twice);
}

#[test]
fn metadata_sanitized_keeps_type() {
    let m = Metadata { type_: 1, root_hash: "AB".to_string() };
    let s = m.sanitized().unwrap();
    assert_eq!(s.type_, 1);
    assert_eq!(s.root_hash, "ab");
    let bad = Metadata { type_: 2, root_hash: "xyz".to_string() };
    assert!(matches!(bad.sanitized(), Err(MetadataError::BadRootHash)));
}

#[test]
fn each_algorithm_keeps_its_values() {
    let pe = minimal_pe64();
    let items = vec![
        item(&["c1", "c2"], b"K1", b"I1", pe.clone(), pe.clone()),
        item(&["c3"], b"K2", b"I2", pe.clone(), pe),
    ];
    let both = ShowReferenceValueCommand {
        disk: None,
        stage: None,
        hash_algos: vec![ShowReferenceValueHashAlgo::Sha1, ShowReferenceValueHashAlgo::Sha384, ShowReferenceValueHashAlgo::Sha1],
    };
    let one = ShowReferenceValueCommand { disk: None, stage: None, hash_algos: vec![ShowReferenceValueHashAlgo::Sha384] };
    let m2 = both.reference_values(&items, &[]).unwrap();
    let m1 = one.reference_values(&items, &[]).unwrap();
    assert_eq!(m2.len(), 11);
    for component in ["kernel_cmdline", "kernel", "initrd", "grub", "shim"] {
        let key = format!("measurement.{component}.SHA-384");
        assert_eq!(m2[key.as_str()], m1[key.as_str()]);
    }
    assert_eq!(m2["kernel_cmdline"], m1["kernel_cmdline"]);
    assert_eq!(m2["measurement.kernel.SHA-1"].len(), 2);
    assert_eq!(m2["measurement.kernel_cmdline.SHA-1"].len(), 3);
}

#[test]
fn boot_reference_values_twice_leave_the_map_unchanged() {
    let pe = minimal_pe64();
    let items = vec![item(&["a ro", "b ro"], b"K", b"I", pe.clone(), pe)];
    let mut map = IndexMap::new();
    insert_boot_reference_values(&items, &mut map, ShowReferenceValueHashAlgo::Sha256).unwrap();
    let first = map.clone();
    let r = insert_boot_reference_values(&items, &mut map, ShowReferenceValueHashAlgo::Sha256);
    assert_eq!(r, Ok(()));
    assert_eq!(map, first);
    assert_eq!(map["kernel_cmdline"].len(), 2);
}

#[test]
fn boot_reference_values_twice_after_bad_grub() {
    let items = vec![item(&["a"], b"K", b"I", b"garbage".to_vec(), b"garbage".to_vec())];
    let mut map = IndexMap::new();
    let r1 = insert_boot_reference_values(&items, &mut map, ShowReferenceValueHashAlgo::Sha1);
    let first = map.clone();
    let r2 = insert_boot_reference_values(&items, &mut map, ShowReferenceValueHashAlgo::Sha1);
    assert_eq!(r1, Err(ReferenceError::Authenticode));
    assert_eq!(r2, Err(ReferenceError::Authenticode));
    assert_eq!(map, first);
}

#[test]
fn inseart_reference_value_twice_leaves_the_map_unchanged() {
    let pe = minimal_pe64();
    let arts = vec![BootArtifacts::Grub { grub: item(&["c"], b"K", b"I", pe.clone(), pe.clone()).grub, kernel: item(&["c"], b"K", b"I", pe.clone(), pe).kernel }];
    let files = vec![("bundle".to_string(), "root".to_string())];
    let mut map = IndexMap::new();
    inseart_reference_value(&arts, &mut map, ShowReferenceValueHashAlgo::Sm3, &files).unwrap();
    let first = map.clone();
    inseart_reference_value(&arts, &mut map, ShowReferenceValueHashAlgo::Sm3, &files).unwrap();
    assert_eq!(map, first);
}

/// A PE32 image with headers only: no sections, no certificate table.
fn minimal_pe32() -> Vec<u8> {
    let mut b = vec![0u8; 312];
    b[0] = b'M';
    b[1] = b'Z';
    b[0x3c..0x40].copy_from_slice(&0x40u32.to_le_bytes());
    b[0x40..0x44].copy_from_slice(b"PE\0\0");
    b[0x44..0x46].copy_from_slice(&0x14cu16.to_le_bytes());
    b[0x54..0x56].copy_from_slice(&224u16.to_le_bytes());
    b[0x56..0x58].copy_from_slice(&0x102u16.to_le_bytes());
    b[88..90].copy_from_slice(&0x10bu16.to_le_bytes());
    b[148..152].copy_from_slice(&312u32.to_le_bytes());
    b[152..156].copy_from_slice(&[1, 2, 3, 4]);
    b[180..184].copy_from_slice(&16u32.to_le_bytes());
    b[300] = 0x5a;
    b
}

#[test]
fn authenticode_of_minimal_pe32() {
    let b = minimal_pe32();
    let mut h = sha2::Sha256::new();
    h.update(&b[0..152]);
    h.update(&b[156..216]);
    h.update(&b[224..312]);
    let expected = hex::encode(h.finalize());
    let r = calculate_authenticode_hash(ShowReferenceValueHashAlgo::Sha256, &b).unwrap();
    assert_eq!(r, expected);
}
