//! Key providers: their configurations and the kind of volume each backs.
use vstd::prelude::*;
use vstd::utf8::{decode_utf8, encode_utf8, valid_utf8};

use base64::prelude::{BASE64_STANDARD, BASE64_URL_SAFE_NO_PAD};
use base64::Engine;

use crate::reference::hex_char;
use crate::text::{chars_of, concat_str, string_of, trim_end, trim_end_chars};

verus! {

/// The kind of volume that a key provider backs.
#[derive(Debug, Clone, Copy, PartialEq, Eq, Structural)]
pub enum VolumeType {
    /// Temporary volume, which will drop all the data after closing.
    Temporary,
    /// Persistent volume, which will keep the data after closing, and can be
    /// opened again with the same passphrase.
    Persistent,
}

/// Execute Command Key Provider (reads key from command output).
#[derive(Debug)]
pub struct ExecConfig {
    /// Command to execute for retrieving the key.
    pub command: String,
    /// Arguments to pass to the command.
    pub args: Vec<String>,
}

/// Key Broker Service.
#[derive(Debug)]
pub struct KbsConfig {
    /// The HTTP url of the KBS instance.
    pub kbs_url: String,
    /// The resource URI in the KBS instance of the passphrase, `kbs:///<repo>/<type>/<tag>`.
    pub key_uri: String,
    /// The X.509 root certificate of the KBS instance, in PEM format.
    pub kbs_root_cert: Option<String>,
}

/// Aliyun KMS.
#[derive(Debug)]
pub struct KmsConfig {
    /// The id of the KMS instance.
    pub kms_instance_id: String,
    /// The name of the secret in the KMS instance.
    pub secret_name: String,
    /// Content of the clientKey_****.json file.
    pub client_key: String,
    /// Content of the clientKey_****_Password.txt file.
    pub client_key_password: String,
    /// The CA cert of the KMS.
    pub kms_cert_pem: String,
}

/// Authorization service and KMS pair.
#[derive(Debug)]
pub enum Kms {
    /// Aliyun RAM + KMS.
    Aliyun { oidc_provider_arn: String, role_arn: String, region_id: String },
}

/// OIDC + KMS.
#[derive(Debug)]
pub struct OidcConfig {
    /// Command to get the OIDC token.
    pub command: String,
    /// Arguments of that command.
    pub args: Vec<String>,
    /// The secret id in the KMS.
    pub key_id: String,
    /// Authorization service + KMS plugin.
    pub kms: Kms,
}

/// One Time Password (temporary volume).
#[derive(Debug)]
pub struct OtpConfig {}

/// TPM.
#[derive(Debug)]
pub struct Tpm2Config {}

/// Gets the key from the output of a command.
#[derive(Debug)]
pub struct ExecKeyProvider {
    pub options: ExecConfig,
}

/// Gets the key from a Key Broker Service.
#[derive(Debug)]
pub struct KbsKeyProvider {
    pub options: KbsConfig,
}

/// Gets the key from Aliyun KMS.
#[derive(Debug)]
pub struct KmsKeyProvider {
    pub options: KmsConfig,
}

/// Gets the key from a KMS, authorized by an OIDC token.
#[derive(Debug)]
pub struct OidcKeyProvider {
    pub options: OidcConfig,
}

/// Makes a fresh random key each time (temporary volumes).
#[derive(Debug)]
pub struct OtpKeyProvider {
    pub options: OtpConfig,
}

/// Gets the key sealed by the TPM.
#[derive(Debug)]
pub struct Tpm2KeyProvider {
    pub options: Tpm2Config,
}

/// A source of volume passphrases.
pub trait KeyProvider {
    /// The kind of volume this provider backs.
    fn volume_type(&self) -> VolumeType;
}

/// A configuration that yields a key provider.
pub trait IntoProvider {
    type Provider: KeyProvider;

    fn into_provider(self) -> Self::Provider;
}

impl KeyProvider for ExecKeyProvider {
    fn volume_type(&self) -> (r: VolumeType)
        ensures
            r is Persistent,
    {
        VolumeType::Persistent
    }
}

impl KeyProvider for KbsKeyProvider {
    fn volume_type(&self) -> (r: VolumeType)
        ensures
            r is Persistent,
    {
        VolumeType::Persistent
    }
}

impl KeyProvider for KmsKeyProvider {
    fn volume_type(&self) -> (r: VolumeType)
        ensures
            r is Persistent,
    {
        VolumeType::Persistent
    }
}

impl KeyProvider for OidcKeyProvider {
    fn volume_type(&self) -> (r: VolumeType)
        ensures
            r is Persistent,
    {
        VolumeType::Persistent
    }
}

impl KeyProvider for OtpKeyProvider {
    fn volume_type(&self) -> (r: VolumeType)
        ensures
            r is Temporary,
    {
        VolumeType::Temporary
    }
}

impl KeyProvider for Tpm2KeyProvider {
    fn volume_type(&self) -> (r: VolumeType)
        ensures
            r is Persistent,
    {
        VolumeType::Persistent
    }
}

impl IntoProvider for KbsConfig {
    type Provider = KbsKeyProvider;

    fn into_provider(self) -> (r: KbsKeyProvider)
        ensures
            r.options == self,
    {
        KbsKeyProvider { options: self }
    }
}

impl IntoProvider for KmsConfig {
    type Provider = KmsKeyProvider;

    fn into_provider(self) -> (r: KmsKeyProvider)
        ensures
            r.options == self,
    {
        KmsKeyProvider { options: self }
    }
}

impl IntoProvider for OtpConfig {
    type Provider = OtpKeyProvider;

    fn into_provider(self) -> (r: OtpKeyProvider)
        ensures
            r.options == self,
    {
        OtpKeyProvider { options: self }
    }
}

// ---------------------------------------------------------------------------
// Keys fetched from remote services
// ---------------------------------------------------------------------------

/// The one-shot Confidential Data Hub that fetches keys from KBS and KMS.
pub const ONE_SHOT_CDH_BINARY_PATH: &'static str = "/usr/bin/confidential-data-hub";

/// `String::from_utf8`: the text that the bytes encode, where they are valid
/// UTF-8; `None` otherwise.
#[verifier::external_body]
pub(crate) fn utf8_text(b: Vec<u8>) -> (r: Option<String>)
    ensures
        r is Some <==> valid_utf8(b@),
        r matches Some(s) ==> s@ == decode_utf8(b@),
{
    String::from_utf8(b).ok()
}

/// `base64::DecodeError`: why base64 decoding failed.
#[verifier::external_type_specification]
#[verifier::external_body]
pub struct ExDecodeError(base64::DecodeError);

/// The bytes that text encodes in standard base64 with padding, or `None`
/// where it is not such an encoding.
pub uninterp spec fn base64_standard_decoded(text: Seq<char>) -> Option<Seq<u8>>;

/// `base64::Engine::decode` of `base64::prelude::BASE64_STANDARD`.
#[verifier::external_body]
fn base64_standard_decode(text: &str) -> (r: Result<Vec<u8>, base64::DecodeError>)
    ensures
        r matches Ok(b) ==> base64_standard_decoded(text@) == Some(b@),
        r is Err ==> base64_standard_decoded(text@) is None,
{
    BASE64_STANDARD.decode(text)
}

/// Why the response of a key service holds no key.
#[derive(Debug, Clone, Copy, PartialEq, Eq, Structural)]
pub enum KeyError {
    /// The response is not UTF-8 text.
    NotUtf8,
    /// The response is not standard base64.
    BadBase64,
}

/// The key that a key service answered with: its response is base64 text,
/// trimmed at the end first where `trim` is set.
pub open spec fn spec_response_key(resp: Seq<u8>, trim: bool) -> Result<Seq<u8>, KeyError> {
    if !valid_utf8(resp) {
        Err(KeyError::NotUtf8)
    } else {
        let t = if trim {
            trim_end(decode_utf8(resp))
        } else {
            decode_utf8(resp)
        };
        match base64_standard_decoded(t) {
            Some(k) => Ok(k),
            None => Err(KeyError::BadBase64),
        }
    }
}

/// The key in a response of base64 text (trimmed at the end first where
/// `trim` is set).
fn response_key(resp: Vec<u8>, trim: bool) -> (r: Result<Vec<u8>, KeyError>)
    ensures
        match spec_response_key(resp@, trim) {
            Ok(k) => r matches Ok(v) && v@ == k,
            Err(e) => r == Err::<Vec<u8>, KeyError>(e),
        },
{
    let ghost bytes = resp@;
    let text = match utf8_text(resp) {
        Some(t) => t,
        None => return Err(KeyError::NotUtf8),
    };
    let t = if trim {
        let c = chars_of(text.as_str());
        let e = trim_end_chars(&c);
        string_of(&e)
    } else {
        text
    };
    match base64_standard_decode(t.as_str()) {
        Ok(k) => Ok(k),
        Err(_) => Err(KeyError::BadBase64),
    }
}

/// The configuration of the one-shot Confidential Data Hub that reaches the
/// KBS, with its root certificate where one is given.
pub open spec fn spec_cdh_config(kbs_url: Seq<char>, kbs_root_cert: Option<Seq<char>>) -> Seq<char> {
    let head = "\nsocket = \"unix:///run/confidential-containers/cdh.sock\"\n[kbc]\nname = \"cc_kbc\"\nurl = \""@
        + kbs_url + "\"\n"@;
    match kbs_root_cert {
        Some(c) => head + "kbs_cert = \"\"\"\n"@ + c + "\n\"\"\"\n"@,
        None => head,
    }
}

impl KbsKeyProvider {
    /// The configuration of the one-shot Confidential Data Hub that fetches
    /// the key from this KBS.
    pub fn cdh_config(&self) -> (r: String)
        ensures
            r@ == spec_cdh_config(
                self.options.kbs_url@,
                match self.options.kbs_root_cert {
                    Some(c) => Some(c@),
                    None => None,
                },
            ),
    {
        let a = concat_str(
            "\nsocket = \"unix:///run/confidential-containers/cdh.sock\"\n[kbc]\nname = \"cc_kbc\"\nurl = \"",
            self.options.kbs_url.as_str(),
        );
        let head = concat_str(a.as_str(), "\"\n");
        match &self.options.kbs_root_cert {
            Some(c) => {
                let b = concat_str(head.as_str(), "kbs_cert = \"\"\"\n");
                let d = concat_str(b.as_str(), c.as_str());
                concat_str(d.as_str(), "\n\"\"\"\n")
            },
            None => head,
        }
    }

    /// The key in the response of the Confidential Data Hub: base64 text,
    /// trimmed at the end.
    pub fn key_from_response(&self, resp: Vec<u8>) -> (r: Result<Vec<u8>, KeyError>)
        ensures
            match spec_response_key(resp@, true) {
                Ok(k) => r matches Ok(v) && v@ == k,
                Err(e) => r == Err::<Vec<u8>, KeyError>(e),
            },
    {
        response_key(resp, true)
    }
}

impl KmsKeyProvider {
    /// The key in the secret that KMS returned: base64 text, taken as it is.
    pub fn key_from_response(&self, resp: Vec<u8>) -> (r: Result<Vec<u8>, KeyError>)
        ensures
            match spec_response_key(resp@, false) {
                Ok(k) => r matches Ok(v) && v@ == k,
                Err(e) => r == Err::<Vec<u8>, KeyError>(e),
            },
    {
        response_key(resp, false)
    }
}

impl OidcKeyProvider {
    /// The key in the response of the Confidential Data Hub: base64 text,
    /// trimmed at the end.
    pub fn key_from_response(&self, resp: Vec<u8>) -> (r: Result<Vec<u8>, KeyError>)
        ensures
            match spec_response_key(resp@, true) {
                Ok(k) => r matches Ok(v) && v@ == k,
                Err(e) => r == Err::<Vec<u8>, KeyError>(e),
            },
    {
        response_key(resp, true)
    }
}

/// How `serde_json` writes one character inside a string literal: `"` and
/// `\` behind a backslash, the controls with short escapes as such, the other
/// controls below U+0020 as `\u00` and two lowercase hex digits, and every
/// other character as itself.
pub open spec fn json_escape_char(c: char) -> Seq<char> {
    if c == '"' {
        seq!['\\', '"']
    } else if c == '\\' {
        seq!['\\', '\\']
    } else if c == '\u{8}' {
        seq!['\\', 'b']
    } else if c == '\u{c}' {
        seq!['\\', 'f']
    } else if c == '\n' {
        seq!['\\', 'n']
    } else if c == '\r' {
        seq!['\\', 'r']
    } else if c == '\t' {
        seq!['\\', 't']
    } else if (c as int) < 0x20 {
        seq!['\\', 'u', '0', '0', hex_char((c as int) / 16), hex_char((c as int) % 16)]
    } else {
        seq![c]
    }
}

/// The characters of text, each escaped as in a JSON string literal.
pub open spec fn json_escape(s: Seq<char>) -> Seq<char>
    decreases s.len(),
{
    if s.len() == 0 {
        Seq::empty()
    } else {
        json_escape(s.drop_last()) + json_escape_char(s.last())
    }
}

/// The JSON string literal of text, as `serde_json` writes it: the escaped
/// text between double quotes.
pub open spec fn json_string_literal(s: Seq<char>) -> Seq<char> {
    seq!['"'] + json_escape(s) + seq!['"']
}

/// `Display` of `serde_json::Value::String`: the JSON string literal of text,
/// quoted and escaped.
#[verifier::external_body]
fn json_string(s: &str) -> (r: String)
    ensures
        r@ == json_string_literal(s@),
{
    serde_json::Value::String(s.to_owned()).to_string()
}

/// The character of a six-bit value in the URL-safe base64 alphabet.
pub open spec fn base64_url_char(n: int) -> char {
    if n < 26 {
        (65 + n) as char
    } else if n < 52 {
        (97 + n - 26) as char
    } else if n < 62 {
        (48 + n - 52) as char
    } else if n == 62 {
        '-'
    } else {
        '_'
    }
}

/// The text of bytes in URL-safe base64 without padding: each three bytes
/// give four characters of six bits each, high bits first; two bytes left at
/// the end give three characters and one byte two, the last filled with zero
/// bits.
pub open spec fn base64_url_nopad_encoded(b: Seq<u8>) -> Seq<char>
    decreases b.len(),
{
    if b.len() >= 3 {
        let (x, y, z) = (b[0] as int, b[1] as int, b[2] as int);
        seq![
            base64_url_char(x / 4),
            base64_url_char((x % 4) * 16 + y / 16),
            base64_url_char((y % 16) * 4 + z / 64),
            base64_url_char(z % 64),
        ] + base64_url_nopad_encoded(b.skip(3))
    } else if b.len() == 2 {
        let (x, y) = (b[0] as int, b[1] as int);
        seq![base64_url_char(x / 4), base64_url_char((x % 4) * 16 + y / 16), base64_url_char((y % 16) * 4)]
    } else if b.len() == 1 {
        let x = b[0] as int;
        seq![base64_url_char(x / 4), base64_url_char((x % 4) * 16)]
    } else {
        Seq::empty()
    }
}

/// `base64::Engine::encode` of `base64::prelude::BASE64_URL_SAFE_NO_PAD`.
#[verifier::external_body]
fn base64_url_nopad_encode(b: &[u8]) -> (r: String)
    ensures
        r@ == base64_url_nopad_encoded(b@),
{
    BASE64_URL_SAFE_NO_PAD.encode(b)
}

/// The name of the authorization service and KMS pair.
pub open spec fn kms_name(k: Kms) -> Seq<char> {
    match k {
        Kms::Aliyun { .. } => "aliyun"@,
    }
}

/// The settings with which the Confidential Data Hub reaches the KMS, the
/// OIDC token among them, as a JSON object with its keys in order.
pub open spec fn spec_provider_settings(k: Kms, oidc_token: Seq<char>) -> Seq<char> {
    match k {
        Kms::Aliyun { oidc_provider_arn, role_arn, region_id } => "{\"client_type\":\"oidc_ram\",\"id_token\":"@
            + json_string_literal(oidc_token) + ",\"oidc_provider_arn\":"@ + json_string_literal(
            oidc_provider_arn@,
        ) + ",\"region_id\":"@ + json_string_literal(region_id@) + ",\"role_arn\":"@
            + json_string_literal(role_arn@) + "}"@,
    }
}

/// The sealed secret that names the key in the KMS: the JSON description of
/// the secret (keys in order, no annotations) in URL-safe base64 without
/// padding, between `sealed.h.` and `.sig`.
pub open spec fn spec_sealed_secret(c: OidcConfig, oidc_token: Seq<char>) -> Seq<char> {
    let json = "{\"annotations\":{},\"name\":"@ + json_string_literal(c.key_id@) + ",\"provider\":"@
        + json_string_literal(kms_name(c.kms)) + ",\"provider_settings\":"@ + spec_provider_settings(
        c.kms,
        oidc_token,
    ) + ",\"type\":\"vault\",\"version\":\"0.1.0\"}"@;
    "sealed.h."@ + base64_url_nopad_encoded(encode_utf8(json)) + ".sig"@
}

impl Kms {
    /// The settings with which the Confidential Data Hub reaches the KMS, as
    /// JSON.
    pub fn export_provider_settings(&self, oidc_token: &str) -> (r: String)
        ensures
            r@ == spec_provider_settings(*self, oidc_token@),
    {
        match self {
            Kms::Aliyun { oidc_provider_arn, role_arn, region_id } => {
                let mut s = concat_str("{\"client_type\":\"oidc_ram\",\"id_token\":", json_string(oidc_token).as_str());
                s = concat_str(s.as_str(), ",\"oidc_provider_arn\":");
                s = concat_str(s.as_str(), json_string(oidc_provider_arn.as_str()).as_str());
                s = concat_str(s.as_str(), ",\"region_id\":");
                s = concat_str(s.as_str(), json_string(region_id.as_str()).as_str());
                s = concat_str(s.as_str(), ",\"role_arn\":");
                s = concat_str(s.as_str(), json_string(role_arn.as_str()).as_str());
                concat_str(s.as_str(), "}")
            },
        }
    }

    /// The name of the authorization service and KMS pair.
    pub fn as_ref(&self) -> (r: &'static str)
        ensures
            r@ == kms_name(*self),
    {
        match self {
            Kms::Aliyun { .. } => "aliyun",
        }
    }
}

impl OidcKeyProvider {
    /// The sealed secret that the Confidential Data Hub unseals to fetch the
    /// key, given the OIDC token (the output of the token command, as it is).
    pub fn sealed_secret(&self, oidc_token: &str) -> (r: String)
        ensures
            r@ == spec_sealed_secret(self.options, oidc_token@),
    {
        let mut j = concat_str("{\"annotations\":{},\"name\":", json_string(self.options.key_id.as_str()).as_str());
        j = concat_str(j.as_str(), ",\"provider\":");
        j = concat_str(j.as_str(), json_string(self.options.kms.as_ref()).as_str());
        j = concat_str(j.as_str(), ",\"provider_settings\":");
        j = concat_str(j.as_str(), self.options.kms.export_provider_settings(oidc_token).as_str());
        j = concat_str(j.as_str(), ",\"type\":\"vault\",\"version\":\"0.1.0\"}");
        let e = base64_url_nopad_encode(j.as_str().as_bytes());
        let s = concat_str("sealed.h.", e.as_str());
        concat_str(s.as_str(), ".sig")
    }
}

} // verus!
