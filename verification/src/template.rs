//! The command line of the configuration template generator.
use vstd::prelude::*;

use crate::config::{EncryptConfig, KeyProviderConfig, MakeFsType};
use crate::provider::{ExecConfig, KbsConfig, Kms, KmsConfig, OidcConfig, OtpConfig};
use crate::text::{append_chars, chars_of, lines, lines_exec, slice_chars, string_of, views};

verus! {

/// The command line of the template generator.
#[derive(Debug)]
pub struct Args {
    /// The template to generate.
    pub template: TemplateType,
}

/// The templates.
#[derive(Debug)]
pub enum TemplateType {
    /// A volume configuration, for a kind of volume.
    Volume { volume_type: VolumeType },
    /// The global configuration.
    Global,
    /// The full disk encryption configuration.
    Fde,
}

/// The kinds of volume, by key provider.
#[derive(Debug, Clone, Copy, PartialEq, Eq, Structural)]
pub enum VolumeType {
    Otp,
    Kms,
    Kbs,
    ZeroTrust,
    Exec,
}

/// The placeholder that the templates hold where the user fills in a value.
pub const TEMPLATE_PLACEHOLDER: &'static str = "XXXXXXXXX";

/// The KMS client key of the template.
pub const TEMPLATE_KMS_CLIENT_KEY: &'static str = "{\n  \"KeyId\": \"KAAP.XXXXXXXXX\",\n  \"PrivateKeyData\": \"XXXXXXXXX\"\n}";

/// The certificate of the templates, in PEM format.
pub const TEMPLATE_CERT_PEM: &'static str = "-----BEGIN CERTIFICATE-----\nXXXXXXXXXXXXXXXXXXXXXXXXXXXXXXXXXXXXXXXXXXXXX\nXXXXXXXXXXXXXXXXXXXXXXXXXXXXXXXXXXXXXXXXXXXXX\n-----END CERTIFICATE-----\n";

/// Options of a volume besides its device and key provider, as the volume
/// template holds them.
#[derive(Debug, Clone, Copy, PartialEq, Eq, Structural)]
pub struct ExtraConfig {
    /// Whether to open the volume automatically while the system boots.
    pub auto_open: Option<bool>,
    /// The file system to make on the volume when it is empty.
    pub makefs: Option<MakeFsType>,
    /// Whether to protect the data's integrity.
    pub integrity: Option<bool>,
}

/// A volume configuration as the template generator writes it.
#[derive(Debug)]
pub struct VolumeTemplate {
    /// The underlying encrypted device.
    pub dev: String,
    /// The name of the decrypted volume, set up below `/dev/mapper/`.
    pub volume: String,
    /// Further options.
    pub extra_config: ExtraConfig,
    /// The key provider.
    pub encrypt: EncryptConfig,
}

/// The strings of a list.
pub open spec fn string_views(v: Seq<String>) -> Seq<Seq<char>> {
    v.map_values(|s: String| s@)
}

/// The key provider of the volume template of a kind of volume, with the
/// example values that the template shows.
pub open spec fn is_template_key_provider(t: VolumeType, kp: KeyProviderConfig) -> bool {
    match t {
        VolumeType::Otp => kp is Otp,
        VolumeType::Kms => kp matches KeyProviderConfig::Kms(k) && k.secret_name@
            == TEMPLATE_PLACEHOLDER@ && k.client_key@ == TEMPLATE_KMS_CLIENT_KEY@
            && k.client_key_password@ == TEMPLATE_PLACEHOLDER@ && k.kms_instance_id@
            == "kst-XXXXXXXXX"@ && k.kms_cert_pem@ == TEMPLATE_CERT_PEM@,
        VolumeType::Kbs => match kp {
            KeyProviderConfig::Kbs(k) => {
                &&& k.kbs_url@ == "https://1.2.3.4:8080"@
                &&& k.key_uri@ == "kbs:///default/mykey/volume_data0"@
                &&& match k.kbs_root_cert {
                    Some(c) => c@ == TEMPLATE_CERT_PEM@,
                    None => false,
                }
            },
            _ => false,
        },
        VolumeType::ZeroTrust => match kp {
            KeyProviderConfig::Oidc(o) => {
                &&& o.command@ == "some-cli"@
                &&& string_views(o.args@) == seq!["-c"@, "/etc/config.json"@, "get-token"@]
                &&& o.key_id@ == "disk-decryption-key"@
                &&& match o.kms {
                    Kms::Aliyun { oidc_provider_arn, role_arn, region_id } => {
                        &&& oidc_provider_arn@ == "acs:ram::113511544585:oidc-provider/TestOidcIdp"@
                        &&& role_arn@ == "acs:ram::113511544585:role/testoidc"@
                        &&& region_id@ == "cn-beijing"@
                    },
                }
            },
            _ => false,
        },
        VolumeType::Exec => kp matches KeyProviderConfig::Exec(e) && e.command@ == "echo"@
            && string_views(e.args@) == seq!["passphrase"@],
    }
}

impl VolumeType {
    /// The volume configuration that the template of this kind of volume
    /// shows: volume `data0` on `/dev/nvme1n1p1`, opened automatically, with
    /// an ext4 file system and integrity protection, and the key provider of
    /// the kind with example values.
    pub fn get_volume_config(self) -> (r: VolumeTemplate)
        ensures
            r.dev@ == "/dev/nvme1n1p1"@,
            r.volume@ == "data0"@,
            r.extra_config == (ExtraConfig {
                auto_open: Some(true),
                makefs: Some(MakeFsType::Ext4),
                integrity: Some(true),
            }),
            is_template_key_provider(self, r.encrypt.key_provider),
    {
        let key_provider = match self {
            VolumeType::Otp => KeyProviderConfig::Otp(OtpConfig {  }),
            VolumeType::Kms => KeyProviderConfig::Kms(
                KmsConfig {
                    secret_name: TEMPLATE_PLACEHOLDER.to_owned(),
                    client_key: TEMPLATE_KMS_CLIENT_KEY.to_owned(),
                    client_key_password: TEMPLATE_PLACEHOLDER.to_owned(),
                    kms_instance_id: "kst-XXXXXXXXX".to_owned(),
                    kms_cert_pem: TEMPLATE_CERT_PEM.to_owned(),
                },
            ),
            VolumeType::Kbs => KeyProviderConfig::Kbs(
                KbsConfig {
                    kbs_url: "https://1.2.3.4:8080".to_owned(),
                    key_uri: "kbs:///default/mykey/volume_data0".to_owned(),
                    kbs_root_cert: Some(TEMPLATE_CERT_PEM.to_owned()),
                },
            ),
            VolumeType::ZeroTrust => {
                let args = vec!["-c".to_owned(), "/etc/config.json".to_owned(), "get-token".to_owned()];
                assert(string_views(args@) =~= seq!["-c"@, "/etc/config.json"@, "get-token"@]);
                KeyProviderConfig::Oidc(
                    OidcConfig {
                        kms: Kms::Aliyun {
                            oidc_provider_arn: "acs:ram::113511544585:oidc-provider/TestOidcIdp".to_owned(),
                            role_arn: "acs:ram::113511544585:role/testoidc".to_owned(),
                            region_id: "cn-beijing".to_owned(),
                        },
                        command: "some-cli".to_owned(),
                        args,
                        key_id: "disk-decryption-key".to_owned(),
                    },
                )
            },
            VolumeType::Exec => {
                let args = vec!["passphrase".to_owned()];
                assert(string_views(args@) =~= seq!["passphrase"@]);
                KeyProviderConfig::Exec(ExecConfig { command: "echo".to_owned(), args })
            },
        };
        VolumeTemplate {
            dev: "/dev/nvme1n1p1".to_owned(),
            volume: "data0".to_owned(),
            extra_config: ExtraConfig {
                auto_open: Some(true),
                makefs: Some(MakeFsType::Ext4),
                integrity: Some(true),
            },
            encrypt: EncryptConfig { key_provider },
        }
    }
}

/// Configuration of the boot service, as the global template holds it.
#[derive(Debug, Clone, Copy, PartialEq, Eq, Structural)]
pub struct BootServiceConfig {
    /// More log output when running as the boot service.
    pub verbose: bool,
}

/// The global configuration as the template generator writes it.
#[derive(Debug, Clone, Copy, PartialEq, Eq, Structural)]
pub struct GlobalTemplate {
    /// Configuration of the boot service.
    pub boot: Option<BootServiceConfig>,
}

/// The global configuration that the global template shows: the boot
/// service configured, without verbose logging.
pub fn get_global_config() -> (r: GlobalTemplate)
    ensures
        r == (GlobalTemplate { boot: Some(BootServiceConfig { verbose: false }) }),
{
    GlobalTemplate { boot: Some(BootServiceConfig { verbose: false }) }
}

/// Doc lines as TOML comments: `# <line>` for each line, `#` for an empty one,
/// each ending in a newline.
pub open spec fn doc_comments(ls: Seq<Seq<char>>) -> Seq<char>
    decreases ls.len(),
{
    if ls.len() == 0 {
        Seq::empty()
    } else {
        let l = ls.last();
        doc_comments(ls.drop_last()) + if l.len() == 0 {
            "#\n"@
        } else {
            "# "@ + l + "\n"@
        }
    }
}

/// The comment prefix of a TOML item once doc comments are appended to it:
/// the comments alone where there was no prefix; otherwise after the old
/// prefix, separated by a `#` line unless its last line is empty already.
pub open spec fn spec_appended_doc_comments(old_prefix: Option<Seq<char>>, docs: Seq<char>) -> Seq<
    char,
> {
    let comments = doc_comments(lines(docs));
    match old_prefix {
        None => comments,
        Some(p) => if lines(p).len() == 0 {
            comments
        } else if lines(p).last().len() == 0 {
            p + comments
        } else {
            p + "#\n"@ + comments
        },
    }
}

/// The comment prefix of a TOML item once the doc comments `docs` are
/// appended to its old prefix.
pub fn append_docs_as_toml_comments(old_prefix: Option<&str>, docs: &str) -> (r: String)
    ensures
        r@ == spec_appended_doc_comments(
            match old_prefix {
                Some(p) => Some(p@),
                None => None,
            },
            docs@,
        ),
{
    let d = chars_of(docs);
    let ls = lines_exec(&d);
    let ghost lv = views(ls@);
    let mut comments: Vec<char> = Vec::new();
    let mut i: usize = 0;
    while i < ls.len()
        invariant
            i <= ls@.len(),
            lv == views(ls@),
            comments@ == doc_comments(lv.take(i as int)),
        decreases ls.len() - i,
    {
        assert(lv.take(i + 1).drop_last() =~= lv.take(i as int));
        let l = &ls[i];
        if l.len() == 0 {
            append_chars(&mut comments, &chars_of("#\n"));
        } else {
            append_chars(&mut comments, &chars_of("# "));
            append_chars(&mut comments, l);
            append_chars(&mut comments, &chars_of("\n"));
        }
        i += 1;
    }
    assert(lv.take(lv.len() as int) =~= lv);
    match old_prefix {
        None => string_of(&comments),
        Some(p) => {
            let pc = chars_of(p);
            let pl = lines_exec(&pc);
            if pl.len() == 0 {
                string_of(&comments)
            } else {
                let mut out = slice_chars(&pc, 0, pc.len());
                if pl[pl.len() - 1].len() != 0 {
                    append_chars(&mut out, &chars_of("#\n"));
                }
                append_chars(&mut out, &comments);
                string_of(&out)
            }
        },
    }
}

} // verus!
