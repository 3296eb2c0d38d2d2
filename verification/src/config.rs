//! Volume, global and encryption configuration, and the rules that a set of
//! volume configurations obeys.
use vstd::prelude::*;

use crate::provider::{
    ExecConfig, ExecKeyProvider, IntoProvider, KbsConfig, KbsKeyProvider, KeyProvider,
    KmsConfig, KmsKeyProvider, OidcConfig, OidcKeyProvider, OtpConfig, OtpKeyProvider,
    Tpm2Config, Tpm2KeyProvider, VolumeType,
};
use crate::text::{append_chars, chars_of, string_of, vec_eq};

verus! {

/// The file system types that a volume can be initialized with.
#[derive(Debug, Clone, Copy, PartialEq, Eq, Structural)]
pub enum MakeFsType {
    Swap,
    Ext4,
    Xfs,
    Vfat,
}

impl MakeFsType {
    /// The name of the file system type as `systemd-makefs` takes it.
    pub open spec fn spec_systemd_makefs_fstype(&self) -> Seq<char> {
        match self {
            MakeFsType::Swap => "swap"@,
            MakeFsType::Ext4 => "ext4"@,
            MakeFsType::Xfs => "xfs"@,
            MakeFsType::Vfat => "vfat"@,
        }
    }

    /// The name of this file system type as `systemd-makefs` expects it.
    pub fn to_systemd_makefs_fstype(&self) -> (r: &'static str)
        ensures
            r@ == self.spec_systemd_makefs_fstype(),
    {
        match self {
            MakeFsType::Swap => "swap",
            MakeFsType::Ext4 => "ext4",
            MakeFsType::Xfs => "xfs",
            MakeFsType::Vfat => "vfat",
        }
    }
}

/// Options of a volume besides its device and key provider.
#[derive(Debug, Clone, Copy)]
pub struct ExtraOptions {
    /// Whether to open the volume while the system boots (after the initrd phase).
    pub open_in_system: Option<bool>,
    /// The file system to make on the volume when it is empty.
    pub makefs: Option<MakeFsType>,
    /// Whether to protect the data's integrity.
    pub integrity: Option<bool>,
}

/// The key provider of a volume and its options.
#[derive(Debug)]
pub enum KeyProviderOptions {
    Otp(OtpConfig),
    Kms(KmsConfig),
    Kbs(KbsConfig),
    Tpm2(Tpm2Config),
}

/// The configuration of one volume.
#[derive(Debug)]
pub struct VolumeConfig {
    /// The name of the decrypted volume, set up below `/dev/mapper/`.
    pub volume: String,
    /// The underlying encrypted device.
    pub dev: String,
    /// Further options.
    pub extra_options: ExtraOptions,
    /// The key provider.
    pub key_provider: KeyProviderOptions,
}

/// Configuration of the systemd service.
#[derive(Debug)]
pub struct SystemdConfig {
    /// More log output when running as a systemd service.
    pub verbose: bool,
}

/// The global configuration.
#[derive(Debug)]
pub struct GlobalConfig {
    /// Configuration of the systemd service.
    pub systemd: SystemdConfig,
}

/// A key provider configuration.
#[derive(Debug)]
pub enum KeyProviderConfig {
    Otp(OtpConfig),
    Kms(KmsConfig),
    Kbs(KbsConfig),
    Tpm2(Tpm2Config),
    Oidc(OidcConfig),
    Exec(ExecConfig),
}

/// Encryption configuration of a volume.
#[derive(Debug)]
pub struct EncryptConfig {
    /// The key provider.
    pub key_provider: KeyProviderConfig,
}

/// A key provider of any kind.
#[derive(Debug)]
pub enum KeyProviderEnum {
    Otp(OtpKeyProvider),
    Kms(KmsKeyProvider),
    Kbs(KbsKeyProvider),
    Tpm2(Tpm2KeyProvider),
    Oidc(OidcKeyProvider),
    Exec(ExecKeyProvider),
}

impl KeyProvider for KeyProviderEnum {
    fn volume_type(&self) -> (r: VolumeType)
        ensures
            (r is Temporary) == (self is Otp),
    {
        match self {
            KeyProviderEnum::Otp(p) => p.volume_type(),
            KeyProviderEnum::Kms(p) => p.volume_type(),
            KeyProviderEnum::Kbs(p) => p.volume_type(),
            KeyProviderEnum::Tpm2(p) => p.volume_type(),
            KeyProviderEnum::Oidc(p) => p.volume_type(),
            KeyProviderEnum::Exec(p) => p.volume_type(),
        }
    }
}

/// The provider that a configuration yields.
pub open spec fn spec_provider_of(c: KeyProviderConfig) -> KeyProviderEnum {
    match c {
        KeyProviderConfig::Otp(o) => KeyProviderEnum::Otp(OtpKeyProvider { options: o }),
        KeyProviderConfig::Kms(o) => KeyProviderEnum::Kms(KmsKeyProvider { options: o }),
        KeyProviderConfig::Kbs(o) => KeyProviderEnum::Kbs(KbsKeyProvider { options: o }),
        KeyProviderConfig::Tpm2(o) => KeyProviderEnum::Tpm2(Tpm2KeyProvider { options: o }),
        KeyProviderConfig::Oidc(o) => KeyProviderEnum::Oidc(OidcKeyProvider { options: o }),
        KeyProviderConfig::Exec(o) => KeyProviderEnum::Exec(ExecKeyProvider { options: o }),
    }
}

impl IntoProvider for KeyProviderConfig {
    type Provider = KeyProviderEnum;

    fn into_provider(self) -> (r: KeyProviderEnum)
        ensures
            r == spec_provider_of(self),
    {
        match self {
            KeyProviderConfig::Otp(o) => KeyProviderEnum::Otp(OtpKeyProvider { options: o }),
            KeyProviderConfig::Kms(o) => KeyProviderEnum::Kms(KmsKeyProvider { options: o }),
            KeyProviderConfig::Kbs(o) => KeyProviderEnum::Kbs(KbsKeyProvider { options: o }),
            KeyProviderConfig::Tpm2(o) => KeyProviderEnum::Tpm2(Tpm2KeyProvider { options: o }),
            KeyProviderConfig::Oidc(o) => KeyProviderEnum::Oidc(OidcKeyProvider { options: o }),
            KeyProviderConfig::Exec(o) => KeyProviderEnum::Exec(ExecKeyProvider { options: o }),
        }
    }
}

// ---------------------------------------------------------------------------
// Sets of volume configurations
// ---------------------------------------------------------------------------

/// Errors in a set of volume configurations.
#[derive(Debug, PartialEq, Eq)]
pub enum ConfigError {
    /// Two configurations name the same volume.
    DuplicateVolume(String),
    /// No configuration names the volume.
    UnknownVolume(String),
}

/// The volume names of a list of configurations.
pub open spec fn names(cs: Seq<VolumeConfig>) -> Seq<Seq<char>> {
    cs.map_values(|c: VolumeConfig| c.volume@)
}

/// `a` comes before `b` in the order of `String` (code point by code point).
pub open spec fn name_lt(a: Seq<char>, b: Seq<char>) -> bool
    decreases a.len(),
{
    if a.len() == 0 {
        b.len() > 0
    } else if b.len() == 0 {
        false
    } else if a[0] != b[0] {
        (a[0] as int) < (b[0] as int)
    } else {
        name_lt(a.drop_first(), b.drop_first())
    }
}

/// No name comes before itself.
pub proof fn lemma_name_lt_irreflexive(a: Seq<char>)
    ensures
        !name_lt(a, a),
    decreases a.len(),
{
    if a.len() > 0 {
        lemma_name_lt_irreflexive(a.drop_first());
    }
}

/// The order of names is transitive.
pub proof fn lemma_name_lt_transitive(a: Seq<char>, b: Seq<char>, c: Seq<char>)
    requires
        name_lt(a, b),
        name_lt(b, c),
    ensures
        name_lt(a, c),
    decreases a.len(),
{
    if a.len() > 0 && b.len() > 0 && c.len() > 0 && a[0] == b[0] && b[0] == c[0] {
        lemma_name_lt_transitive(a.drop_first(), b.drop_first(), c.drop_first());
    }
}

/// Of two different names, one comes before the other.
pub proof fn lemma_name_lt_total(a: Seq<char>, b: Seq<char>)
    requires
        a != b,
    ensures
        name_lt(a, b) || name_lt(b, a),
    decreases a.len(),
{
    if a.len() > 0 && b.len() > 0 {
        if a[0] == b[0] {
            if a.drop_first() == b.drop_first() {
                assert(a =~= seq![a[0]] + a.drop_first());
                assert(b =~= seq![b[0]] + b.drop_first());
            }
            lemma_name_lt_total(a.drop_first(), b.drop_first());
        } else {
        }
    } else if a.len() == 0 && b.len() == 0 {
        assert(a =~= b);
    }
}

/// Whether `a` comes before `b` in the order of `String`.
pub fn name_lt_exec(a: &[char], b: &[char]) -> (r: bool)
    ensures
        r == name_lt(a@, b@),
{
    let mut i: usize = 0;
    assert(a@.skip(0) =~= a@);
    assert(b@.skip(0) =~= b@);
    while i < a.len() && i < b.len() && a[i] == b[i]
        invariant
            i <= a@.len(),
            i <= b@.len(),
            name_lt(a@, b@) == name_lt(a@.skip(i as int), b@.skip(i as int)),
        decreases a.len() - i,
    {
        proof {
            assert(a@.skip(i as int).drop_first() =~= a@.skip(i + 1));
            assert(b@.skip(i as int).drop_first() =~= b@.skip(i + 1));
        }
        i += 1;
    }
    if i == a.len() {
        i < b.len()
    } else if i == b.len() {
        false
    } else {
        a[i] < b[i]
    }
}

/// No two configurations name the same volume.
pub open spec fn names_unique(cs: Seq<VolumeConfig>) -> bool {
    forall|i: int, j: int| 0 <= i < j < cs.len() ==> cs[i].volume@ != cs[j].volume@
}

/// The configurations are in ascending order of volume name.
pub open spec fn sorted_by_name(cs: Seq<VolumeConfig>) -> bool {
    forall|i: int, j: int| 0 <= i < j < cs.len() ==> name_lt(cs[i].volume@, cs[j].volume@)
}

/// Adds the configuration of one more volume; a volume that is already
/// configured is an error, and leaves the list unchanged.
pub fn add_volume_config(configs: &mut Vec<VolumeConfig>, config: VolumeConfig) -> (r: Result<
    (),
    ConfigError,
>)
    requires
        names_unique(old(configs)@),
    ensures
        names_unique(final(configs)@),
        names(old(configs)@).contains(config.volume@) ==> (r matches Err(
            ConfigError::DuplicateVolume(n),
        ) && n@ == config.volume@ && final(configs)@ == old(configs)@),
        !names(old(configs)@).contains(config.volume@) ==> (r is Ok && final(configs)@ == old(
            configs,
        )@.push(config)),
{
    let n = chars_of(config.volume.as_str());
    let mut i: usize = 0;
    while i < configs.len()
        invariant
            i <= configs@.len(),
            n@ == config.volume@,
            configs@ == old(configs)@,
            names_unique(configs@),
            forall|j: int| 0 <= j < i ==> configs@[j].volume@ != n@,
        decreases configs.len() - i,
    {
        let m = chars_of(configs[i].volume.as_str());
        if vec_eq(&m, &n) {
            proof {
                assert(names(configs@)[i as int] == config.volume@);
            }
            return Err(ConfigError::DuplicateVolume(config.volume));
        }
        i += 1;
    }
    proof {
        assert forall|x: Seq<char>| names(configs@).contains(x) implies x != config.volume@ by {
            let j = choose|j: int| 0 <= j < names(configs@).len() && names(configs@)[j] == x;
            assert(configs@[j].volume@ == x);
        }
    }
    configs.push(config);
    Ok(())
}

/// Puts the configurations in ascending order of volume name.
pub fn sort_volume_configs(configs: Vec<VolumeConfig>) -> (r: Vec<VolumeConfig>)
    requires
        names_unique(configs@),
    ensures
        sorted_by_name(r@),
        names_unique(r@),
        r@.len() == configs@.len(),
        forall|c: VolumeConfig| r@.contains(c) <==> configs@.contains(c),
{
    let mut rest = configs;
    let mut r: Vec<VolumeConfig> = Vec::new();
    let ghost all = configs@;
    while rest.len() > 0
        invariant
            names_unique(rest@),
            names_unique(r@),
            sorted_by_name(r@),
            r@.len() + rest@.len() == all.len(),
            forall|c: VolumeConfig| (r@.contains(c) || rest@.contains(c)) <==> all.contains(c),
            forall|i: int, j: int|
                0 <= i < r@.len() && 0 <= j < rest@.len() ==> name_lt(
                    r@[i].volume@,
                    rest@[j].volume@,
                ),
        decreases rest.len(),
    {
        // Find the smallest name among the rest.
        let mut m: usize = 0;
        let mut k: usize = 1;
        while k < rest.len()
            invariant
                names_unique(rest@),
                m < k,
                1 <= k <= rest@.len(),
                forall|j: int| 0 <= j < k && j != m ==> name_lt(rest@[m as int].volume@, rest@[j].volume@),
            decreases rest.len() - k,
        {
            let a = chars_of(rest[k].volume.as_str());
            let b = chars_of(rest[m].volume.as_str());
            if name_lt_exec(&a, &b) {
                proof {
                    assert forall|j: int| 0 <= j < k + 1 && j != k implies name_lt(
                        rest@[k as int].volume@,
                        rest@[j].volume@,
                    ) by {
                        if j != m {
                            lemma_name_lt_transitive(rest@[k as int].volume@, rest@[m as int].volume@, rest@[j].volume@);
                        }
                    }
                }
                m = k;
            } else {
                proof {
                    lemma_name_lt_total(rest@[k as int].volume@, rest@[m as int].volume@);
                }
            }
            k += 1;
        }
        let ghost old_rest = rest@;
        let ghost old_r = r@;
        let c = rest.remove(m);
        proof {
            assert(old_rest.contains(c));
            assert forall|j: int| 0 <= j < rest@.len() implies name_lt(c.volume@, rest@[j].volume@) by {
                if j < m {
                    assert(rest@[j] == old_rest[j]);
                } else {
                    assert(rest@[j] == old_rest[j + 1]);
                }
            }
            assert forall|x: VolumeConfig| old_rest.contains(x) implies rest@.contains(x) || x == c by {
                let j = choose|j: int| 0 <= j < old_rest.len() && old_rest[j] == x;
                if j < m {
                    assert(rest@[j] == x);
                } else if j > m {
                    assert(rest@[j - 1] == x);
                }
            }
            assert forall|x: VolumeConfig| rest@.contains(x) implies old_rest.contains(x) by {
                let j = choose|j: int| 0 <= j < rest@.len() && rest@[j] == x;
                if j < m {
                    assert(old_rest[j] == x);
                } else {
                    assert(old_rest[j + 1] == x);
                }
            }
        }
        r.push(c);
        proof {
            assert(r@ == old_r.push(c));
            assert forall|x: VolumeConfig| r@.contains(x) <==> (old_r.contains(x) || x == c) by {
                if r@.contains(x) {
                    let j = choose|j: int| 0 <= j < r@.len() && r@[j] == x;
                    if j < old_r.len() {
                        assert(old_r[j] == x);
                    }
                }
                if old_r.contains(x) {
                    let j = choose|j: int| 0 <= j < old_r.len() && old_r[j] == x;
                    assert(r@[j] == x);
                }
                if x == c {
                    assert(r@[old_r.len() as int] == x);
                }
            }
            assert forall|i: int, j: int| 0 <= i < j < r@.len() implies name_lt(
                r@[i].volume@,
                r@[j].volume@,
            ) by {
                if j == old_r.len() {
                    assert(old_rest[m as int] == c);
                }
            }
            assert forall|i: int, j: int| 0 <= i < j < r@.len() implies r@[i].volume@ != r@[j].volume@ by {
                lemma_name_lt_irreflexive(r@[i].volume@);
            }
            assert forall|i: int, j: int| 0 <= i < r@.len() && 0 <= j < rest@.len() implies name_lt(
                r@[i].volume@,
                rest@[j].volume@,
            ) by {
                if i < old_r.len() {
                    if j < m {
                        assert(rest@[j] == old_rest[j]);
                    } else {
                        assert(rest@[j] == old_rest[j + 1]);
                    }
                }
            }
            assert forall|i: int, j: int| 0 <= i < j < rest@.len() implies rest@[i].volume@ != rest@[j].volume@ by {
                let oi = if i < m { i } else { i + 1 };
                let oj = if j < m { j } else { j + 1 };
                assert(rest@[i] == old_rest[oi]);
                assert(rest@[j] == old_rest[oj]);
            }
        }
    }
    r
}

/// Once a configuration is added for a volume that no configuration names yet,
/// the names stay distinct, and the configuration added is the only one that
/// names the volume, so it is what a lookup of the volume finds.
pub proof fn lemma_added_config_found(cs: Seq<VolumeConfig>, c: VolumeConfig)
    requires
        names_unique(cs),
        !names(cs).contains(c.volume@),
    ensures
        names_unique(cs.push(c)),
        names(cs.push(c)).contains(c.volume@),
        forall|k: int|
            0 <= k < cs.push(c).len() && (#[trigger] cs.push(c)[k]).volume@ == c.volume@ ==> cs.push(
                c,
            )[k] == c,
{
    let n = cs.push(c);
    assert(names(n)[cs.len() as int] == c.volume@);
    assert forall|k: int| 0 <= k < cs.len() implies (#[trigger] n[k]).volume@ != c.volume@ by {
        assert(names(cs)[k] == cs[k].volume@);
    }
    assert forall|i: int, j: int| 0 <= i < j < n.len() implies n[i].volume@ != n[j].volume@ by {
        if j == cs.len() {
            assert(names(cs)[i] == cs[i].volume@);
        }
    }
}

/// Takes out the configuration of `volume`; an error where none names it.
pub fn find_volume_config(configs: Vec<VolumeConfig>, volume: &str) -> (r: Result<
    VolumeConfig,
    ConfigError,
>)
    ensures
        names(configs@).contains(volume@) ==> (r matches Ok(c) && exists|k: int|
            0 <= k < configs@.len() && configs@[k] == c && c.volume@ == volume@ && forall|j: int|
                0 <= j < k ==> configs@[j].volume@ != volume@),
        !names(configs@).contains(volume@) ==> (r matches Err(ConfigError::UnknownVolume(n))
            && n@ == volume@),
{
    let n = chars_of(volume);
    let mut i: usize = 0;
    while i < configs.len()
        invariant
            i <= configs@.len(),
            n@ == volume@,
            forall|j: int| 0 <= j < i ==> configs@[j].volume@ != volume@,
        decreases configs.len() - i,
    {
        let m = chars_of(configs[i].volume.as_str());
        if vec_eq(&m, &n) {
            let ghost all = configs@;
            let mut configs = configs;
            let c = configs.remove(i);
            proof {
                assert(all[i as int] == c);
                assert(names(all)[i as int] == volume@);
            }
            return Ok(c);
        }
        i += 1;
    }
    proof {
        assert forall|x: Seq<char>| names(configs@).contains(x) implies x != volume@ by {
            let j = choose|j: int| 0 <= j < names(configs@).len() && names(configs@)[j] == x;
            assert(configs@[j].volume@ == x);
        }
    }
    Err(ConfigError::UnknownVolume(string_of(&n)))
}

/// The crypttab line of a volume: name, device and key socket, tab separated.
pub open spec fn crypttab_line(c: VolumeConfig, socket: Seq<char>) -> Seq<char> {
    c.volume@ + seq!['\t'] + c.dev@ + seq!['\t'] + socket
}

/// The crypttab lines of the volumes, joined by newlines.
pub open spec fn spec_crypttab(cs: Seq<VolumeConfig>, socket: Seq<char>) -> Seq<char>
    decreases cs.len(),
{
    if cs.len() == 0 {
        seq![]
    } else if cs.len() == 1 {
        crypttab_line(cs[0], socket)
    } else {
        spec_crypttab(cs.drop_last(), socket) + seq!['\n'] + crypttab_line(cs.last(), socket)
    }
}

/// The pieces of `s` between the occurrences of `c` (`str::split(c)`): one
/// more piece than there are occurrences.
pub open spec fn split_char(s: Seq<char>, c: char) -> Seq<Seq<char>>
    decreases s.len(),
{
    if s.len() == 0 {
        seq![Seq::<char>::empty()]
    } else {
        let parts = split_char(s.drop_last(), c);
        if s.last() == c {
            parts.push(Seq::<char>::empty())
        } else {
            parts.update(parts.len() - 1, parts.last().push(s.last()))
        }
    }
}

/// Text without `c` is a single piece.
proof fn lemma_split_char_none(b: Seq<char>, c: char)
    requires
        !b.contains(c),
    ensures
        split_char(b, c) == seq![b],
    decreases b.len(),
{
    if b.len() > 0 {
        assert(!b.drop_last().contains(c)) by {
            if b.drop_last().contains(c) {
                let i = choose|i: int| 0 <= i < b.drop_last().len() && b.drop_last()[i] == c;
                assert(b[i] == c);
            }
        }
        lemma_split_char_none(b.drop_last(), c);
        assert(b.last() != c);
        assert(b.drop_last().push(b.last()) =~= b);
        assert(split_char(b, c) =~= seq![b]);
    } else {
        assert(b =~= Seq::<char>::empty());
    }
}

/// Text, `c`, then text without `c`: the pieces of the first, then the last.
proof fn lemma_split_char_append(a: Seq<char>, b: Seq<char>, c: char)
    requires
        !b.contains(c),
    ensures
        split_char(a + seq![c] + b, c) == split_char(a, c).push(b),
    decreases b.len(),
{
    let s = a + seq![c] + b;
    if b.len() == 0 {
        assert(s.drop_last() =~= a);
        assert(s.last() == c);
        assert(b =~= Seq::<char>::empty());
    } else {
        assert(!b.drop_last().contains(c)) by {
            if b.drop_last().contains(c) {
                let i = choose|i: int| 0 <= i < b.drop_last().len() && b.drop_last()[i] == c;
                assert(b[i] == c);
            }
        }
        lemma_split_char_append(a, b.drop_last(), c);
        assert(s.drop_last() =~= a + seq![c] + b.drop_last());
        assert(s.last() == b.last());
        assert(b.drop_last().push(b.last()) =~= b);
        assert(split_char(s, c) =~= split_char(a, c).push(b));
    }
}

/// The crypttab has one line per volume, in order: split at the newlines,
/// line `i` is the name of volume `i`, a tab, its device, a tab and the key
/// socket (where no name, device or socket holds a newline).
pub proof fn lemma_crypttab_lines(cs: Seq<VolumeConfig>, socket: Seq<char>)
    requires
        cs.len() > 0,
        !socket.contains('\n'),
        forall|i: int|
            0 <= i < cs.len() ==> !(#[trigger] cs[i]).volume@.contains('\n') && !cs[i].dev@.contains(
                '\n',
            ),
    ensures
        split_char(spec_crypttab(cs, socket), '\n') == Seq::new(
            cs.len(),
            |i: int| cs[i].volume@ + seq!['\t'] + cs[i].dev@ + seq!['\t'] + socket,
        ),
    decreases cs.len(),
{
    let line = |i: int| cs[i].volume@ + seq!['\t'] + cs[i].dev@ + seq!['\t'] + socket;
    let n = cs.len() - 1;
    let l = cs.last().volume@ + seq!['\t'] + cs.last().dev@ + seq!['\t'] + socket;
    assert(!l.contains('\n')) by {
        if l.contains('\n') {
            let k = choose|k: int| 0 <= k < l.len() && l[k] == '\n';
            let v = cs[n].volume@;
            let d = cs[n].dev@;
            if k < v.len() {
                assert(v[k] == '\n');
            } else if k == v.len() {
            } else if k < v.len() + 1 + d.len() {
                assert(d[k - v.len() - 1] == '\n');
            } else if k == v.len() + 1 + d.len() {
            } else {
                assert(socket[k - v.len() - 2 - d.len()] == '\n');
            }
        }
    }
    if cs.len() == 1 {
        lemma_split_char_none(l, '\n');
        assert(split_char(spec_crypttab(cs, socket), '\n') =~= Seq::new(cs.len(), line));
    } else {
        let p = cs.drop_last();
        assert forall|i: int| 0 <= i < p.len() implies !(#[trigger] p[i]).volume@.contains('\n')
            && !p[i].dev@.contains('\n') by {
            assert(p[i] == cs[i]);
        }
        lemma_crypttab_lines(p, socket);
        lemma_split_char_append(spec_crypttab(p, socket), l, '\n');
        assert(split_char(spec_crypttab(cs, socket), '\n') =~= Seq::new(cs.len(), line));
    }
}

/// The unix socket on which the key supplier answers systemd-cryptsetup.
pub const SOCK_ADDR: &'static str = "/tmp/cryptpilot.sock";

/// The crypttab that lets systemd fetch each volume's key from `socket`.
pub fn gen_crypttab(configs: &[VolumeConfig], socket: &str) -> (r: String)
    ensures
        r@ == spec_crypttab(configs@, socket@),
{
    let sock = chars_of(socket);
    let mut out: Vec<char> = Vec::new();
    let mut i: usize = 0;
    assert(configs@.take(0) =~= Seq::<VolumeConfig>::empty());
    while i < configs.len()
        invariant
            i <= configs@.len(),
            sock@ == socket@,
            out@ == spec_crypttab(configs@.take(i as int), socket@),
        decreases configs.len() - i,
    {
        let ghost before = out@;
        if i > 0 {
            out.push('\n');
        }
        let v = chars_of(configs[i].volume.as_str());
        let d = chars_of(configs[i].dev.as_str());
        append_chars(&mut out, &v);
        out.push('\t');
        append_chars(&mut out, &d);
        out.push('\t');
        append_chars(&mut out, &sock);
        proof {
            let t = configs@.take(i + 1);
            assert(t.drop_last() =~= configs@.take(i as int));
            assert(t.last() == configs@[i as int]);
            if i == 0 {
                assert(out@ =~= crypttab_line(configs@[0], socket@));
            } else {
                assert(out@ =~= before + seq!['\n'] + crypttab_line(configs@[i as int], socket@));
            }
        }
        i += 1;
    }
    assert(configs@.take(configs@.len() as int) =~= configs@);
    string_of(&out)
}

} // verus!
