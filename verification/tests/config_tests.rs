use base64::Engine as _;
use cryptpilot::config::{
    add_volume_config, find_volume_config, gen_crypttab, name_lt_exec, sort_volume_configs,
    ConfigError, ExtraOptions, KeyProviderConfig, KeyProviderEnum, KeyProviderOptions, MakeFsType,
    VolumeConfig,
};
use cryptpilot::provider::{
    ExecConfig, IntoProvider, KbsConfig, KbsKeyProvider, KeyError, KeyProvider, KmsConfig,
    KmsKeyProvider, Kms, OidcConfig, OidcKeyProvider, OtpConfig, Tpm2Config, VolumeType,
};

fn volume(name: &str, dev: &str) -> VolumeConfig {
    VolumeConfig {
        volume: name.to_string(),
        dev: dev.to_string(),
        extra_options: ExtraOptions { open_in_system: None, makefs: Some(MakeFsType::Ext4), integrity: None },
        key_provider: KeyProviderOptions::Otp(OtpConfig {}),
    }
}

#[test]
fn makefs_type_names() {
    assert_eq!(MakeFsType::Swap.to_systemd_makefs_fstype(), "swap");
    assert_eq!(MakeFsType::Ext4.to_systemd_makefs_fstype(), "ext4");
    assert_eq!(MakeFsType::Xfs.to_systemd_makefs_fstype(), "xfs");
    assert_eq!(MakeFsType::Vfat.to_systemd_makefs_fstype(), "vfat");
}

#[test]
fn add_refuses_duplicate_volume() {
    let mut cs = vec![];
    assert_eq!(add_volume_config(&mut cs, volume("data0", "/dev/vdb")), Ok(()));
    assert_eq!(add_volume_config(&mut cs, volume("data1", "/dev/vdc")), Ok(()));
    let r = add_volume_config(&mut cs, volume("data0", "/dev/vdd"));
    assert_eq!(r, Err(ConfigError::DuplicateVolume("data0".to_string())));
    assert_eq!(cs.len(), 2);
    assert_eq!(cs[0].dev, "/dev/vdb");
}

#[test]
fn added_volume_is_found() {
    let mut cs = vec![];
    add_volume_config(&mut cs, volume("b", "/dev/b")).unwrap();
    add_volume_config(&mut cs, volume("a", "/dev/a")).unwrap();
    let c = find_volume_config(cs, "a").ok().unwrap();
    assert_eq!(c.dev, "/dev/a");
}

#[test]
fn unknown_volume_is_an_error() {
    let cs = vec![volume("a", "/dev/a")];
    match find_volume_config(cs, "zz") {
        Err(ConfigError::UnknownVolume(n)) => assert_eq!(n, "zz"),
        _ => panic!("expected an error"),
    }
}

#[test]
fn volumes_sorted_by_name() {
    let cs = vec![volume("data2", "/dev/c"), volume("Data", "/dev/x"), volume("data10", "/dev/b"), volume("data1", "/dev/a")];
    let s = sort_volume_configs(cs);
    let names: Vec<&str> = s.iter().map(|c| c.volume.as_str()).collect();
    assert_eq!(names, vec!["Data", "data1", "data10", "data2"]);
}

#[test]
fn name_order_is_by_code_point() {
    let a: Vec<char> = "abc".chars().collect();
    let b: Vec<char> = "abd".chars().collect();
    let p: Vec<char> = "ab".chars().collect();
    assert!(name_lt_exec(&a, &b));
    assert!(!name_lt_exec(&b, &a));
    assert!(name_lt_exec(&p, &a));
    assert!(!name_lt_exec(&a, &a));
}

#[test]
fn crypttab_lines() {
    let cs = vec![volume("data0", "/dev/vdb"), volume("data1", "/dev/vdc")];
    assert_eq!(
        gen_crypttab(&cs, "/tmp/cryptpilot.sock"),
        "data0\t/dev/vdb\t/tmp/cryptpilot.sock\ndata1\t/dev/vdc\t/tmp/cryptpilot.sock"
    );
    assert_eq!(gen_crypttab(&[], "/s"), "");
}

#[test]
fn otp_volumes_are_temporary() {
    let otp = KeyProviderConfig::Otp(OtpConfig {}).into_provider();
    assert_eq!(otp.volume_type(), VolumeType::Temporary);
    let tpm = KeyProviderConfig::Tpm2(Tpm2Config {}).into_provider();
    assert_eq!(tpm.volume_type(), VolumeType::Persistent);
    let exec = KeyProviderConfig::Exec(ExecConfig { command: "echo".to_string(), args: vec![] }).into_provider();
    assert!(matches!(exec, KeyProviderEnum::Exec(_)));
    assert_eq!(exec.volume_type(), VolumeType::Persistent);
    let kms = KeyProviderConfig::Kms(KmsConfig {
        kms_instance_id: "kst".to_string(),
        secret_name: "s".to_string(),
        client_key: "{}".to_string(),
        client_key_password: "p".to_string(),
        kms_cert_pem: "c".to_string(),
    })
    .into_provider();
    assert_eq!(kms.volume_type(), VolumeType::Persistent);
}

#[test]
fn key_service_responses() {
    let kbs = KbsKeyProvider {
        options: KbsConfig { kbs_url: "http://kbs:8080".to_string(), key_uri: "kbs:///a/b/c".to_string(), kbs_root_cert: None },
    };
    assert_eq!(kbs.key_from_response(b"dGVzdA==\n".to_vec()), Ok(b"test".to_vec()));
    assert_eq!(kbs.key_from_response(vec![0xff, 0xfe]), Err(KeyError::NotUtf8));
    assert_eq!(kbs.key_from_response(b"not base64!".to_vec()), Err(KeyError::BadBase64));
    let kms = KmsKeyProvider {
        options: KmsConfig {
            kms_instance_id: "kst".to_string(),
            secret_name: "s".to_string(),
            client_key: "{}".to_string(),
            client_key_password: "p".to_string(),
            kms_cert_pem: "c".to_string(),
        },
    };
    assert_eq!(kms.key_from_response(b"dGVzdA==".to_vec()), Ok(b"test".to_vec()));
    assert_eq!(kms.key_from_response(b"dGVzdA==\n".to_vec()), Err(KeyError::BadBase64));
}

#[test]
fn cdh_configuration_text() {
    let plain = KbsKeyProvider {
        options: KbsConfig { kbs_url: "http://kbs".to_string(), key_uri: "k".to_string(), kbs_root_cert: None },
    };
    assert_eq!(
        plain.cdh_config(),
        "\nsocket = \"unix:///run/confidential-containers/cdh.sock\"\n[kbc]\nname = \"cc_kbc\"\nurl = \"http://kbs\"\n"
    );
    let with_cert = KbsKeyProvider {
        options: KbsConfig { kbs_url: "u".to_string(), key_uri: "k".to_string(), kbs_root_cert: Some("CERT".to_string()) },
    };
    assert!(with_cert.cdh_config().ends_with("url = \"u\"\nkbs_cert = \"\"\"\nCERT\n\"\"\"\n"));
}

#[test]
fn oidc_sealed_secret() {
    let p = OidcKeyProvider {
        options: OidcConfig {
            command: "get-token".to_string(),
            args: vec![],
            key_id: "model-key".to_string(),
            kms: Kms::Aliyun {
                oidc_provider_arn: "acs:ram::1:oidc-provider/x".to_string(),
                role_arn: "acs:ram::1:role/y".to_string(),
                region_id: "cn-shanghai".to_string(),
            },
        },
    };
    let sealed = p.sealed_secret("tok\"en\n");
    assert!(sealed.starts_with("sealed.h.") && sealed.ends_with(".sig"));
    let body = &sealed["sealed.h.".len()..sealed.len() - ".sig".len()];
    let json = String::from_utf8(base64::prelude::BASE64_URL_SAFE_NO_PAD.decode(body).unwrap()).unwrap();

    let mut settings = serde_json::Map::new();
    settings.insert("oidc_provider_arn".to_string(), serde_json::Value::String("acs:ram::1:oidc-provider/x".to_string()));
    settings.insert("role_arn".to_string(), serde_json::Value::String("acs:ram::1:role/y".to_string()));
    settings.insert("region_id".to_string(), serde_json::Value::String("cn-shanghai".to_string()));
    settings.insert("id_token".to_string(), serde_json::Value::String("tok\"en\n".to_string()));
    settings.insert("client_type".to_string(), serde_json::Value::String("oidc_ram".to_string()));
    let mut secret = serde_json::Map::new();
    secret.insert("version".to_string(), serde_json::Value::String("0.1.0".to_string()));
    secret.insert("type".to_string(), serde_json::Value::String("vault".to_string()));
    secret.insert("name".to_string(), serde_json::Value::String("model-key".to_string()));
    secret.insert("provider".to_string(), serde_json::Value::String("aliyun".to_string()));
    secret.insert("provider_settings".to_string(), serde_json::Value::Object(settings));
    secret.insert("annotations".to_string(), serde_json::Value::Object(serde_json::Map::new()));
    assert_eq!(json, serde_json::to_string(&serde_json::Value::Object(secret)).unwrap());
    assert!(json.contains("\"id_token\":\"tok\\\"en\\n\""));
}

#[test]
fn oidc_sealed_secret_escapes_controls() {
    let p = OidcKeyProvider {
        options: OidcConfig {
            command: "get-token".to_string(),
            args: vec![],
            key_id: "k".to_string(),
            kms: Kms::Aliyun {
                oidc_provider_arn: "a".to_string(),
                role_arn: "r".to_string(),
                region_id: "cn".to_string(),
            },
        },
    };
    let sealed = p.sealed_secret("a\\b\u{1}\t\u{7f}");
    let body = &sealed["sealed.h.".len()..sealed.len() - ".sig".len()];
    let json = String::from_utf8(base64::prelude::BASE64_URL_SAFE_NO_PAD.decode(body).unwrap()).unwrap();
    assert!(json.contains("\"id_token\":\"a\\\\b\\u0001\\t\u{7f}\""));
    assert!(!body.contains('=') && !body.contains('+') && !body.contains('/'));
}
