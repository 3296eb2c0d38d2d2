//! LUKS2 volumes: the `cryptsetup` and `mkfs` invocations that set them up,
//! and how their results are read.
use vstd::prelude::*;

use crate::block::path_exists;
use crate::config::MakeFsType;
use crate::text::{append_chars, chars_of, contains_str, contains_str_exec, lemma_contains_middle, starts_with, str_views, string_of, trim,
    trim_chars, vec_eq};

verus! {

/// How a LUKS2 volume protects the integrity of its data.
#[derive(Debug, Clone, Copy, PartialEq, Eq, Structural)]
pub enum IntegrityType {
    /// No integrity protection.
    Plain,
    /// HMAC-SHA256 integrity with a journal.
    Journal,
    /// HMAC-SHA256 integrity without a journal.
    NoJournal,
}

/// `--debug` where verbose output is asked for.
pub open spec fn debug_args(verbose: bool) -> Seq<Seq<char>> {
    if verbose {
        seq!["--debug"@]
    } else {
        seq![]
    }
}

/// The `cryptsetup` arguments that format `dev` as a LUKS2 volume, reading
/// the passphrase from standard input.
pub open spec fn spec_format_args(dev: Seq<char>, integrity: IntegrityType, verbose: bool) -> Seq<
    Seq<char>,
> {
    debug_args(verbose) + seq![
        "luksFormat"@,
        "--type"@,
        "luks2"@,
        "--cipher"@,
        "aes-xts-plain64"@,
    ] + match integrity {
        IntegrityType::Plain => seq![],
        IntegrityType::Journal => seq!["--integrity"@, "hmac-sha256"@, "--integrity-no-wipe"@],
        IntegrityType::NoJournal => seq![
            "--integrity"@,
            "hmac-sha256"@,
            "--integrity-no-wipe"@,
            "--integrity-no-journal"@,
        ],
    } + seq![dev, "-"@]
}

/// The options of `luksFormat` (all arguments before the device and the `-`
/// that reads the passphrase from standard input) ask for integrity
/// protection (`--integrity hmac-sha256`, without a wipe) exactly when the
/// integrity type is not `Plain`, and for no journal exactly with `NoJournal`;
/// the format is always LUKS2 with AES-XTS, and the device comes last but
/// for the `-`.
pub proof fn lemma_format_args_integrity(dev: Seq<char>, integrity: IntegrityType, verbose: bool)
    ensures
        ({
            let a = spec_format_args(dev, integrity, verbose);
            let opts = a.take(a.len() - 2);
            &&& a.len() >= 2
            &&& a[a.len() - 2] == dev
            &&& a[a.len() - 1] == "-"@
            &&& opts.contains("luksFormat"@)
            &&& opts.contains("luks2"@)
            &&& opts.contains("aes-xts-plain64"@)
            &&& (opts.contains("--integrity"@) <==> integrity != IntegrityType::Plain)
            &&& (integrity != IntegrityType::Plain ==> opts.contains("hmac-sha256"@) && opts.contains(
                "--integrity-no-wipe"@,
            ))
            &&& (opts.contains("--integrity-no-journal"@) <==> integrity == IntegrityType::NoJournal)
        }),
{
    reveal_strlit("--debug");
    reveal_strlit("luksFormat");
    reveal_strlit("--type");
    reveal_strlit("luks2");
    reveal_strlit("--cipher");
    reveal_strlit("aes-xts-plain64");
    reveal_strlit("--integrity");
    reveal_strlit("hmac-sha256");
    reveal_strlit("--integrity-no-wipe");
    reveal_strlit("--integrity-no-journal");
    reveal_strlit("-");
    let a = spec_format_args(dev, integrity, verbose);
    let base = debug_args(verbose) + seq!["luksFormat"@, "--type"@, "luks2"@, "--cipher"@, "aes-xts-plain64"@];
    let extra = match integrity {
        IntegrityType::Plain => Seq::<Seq<char>>::empty(),
        IntegrityType::Journal => seq!["--integrity"@, "hmac-sha256"@, "--integrity-no-wipe"@],
        IntegrityType::NoJournal => seq![
            "--integrity"@,
            "hmac-sha256"@,
            "--integrity-no-wipe"@,
            "--integrity-no-journal"@,
        ],
    };
    let opts = a.take(a.len() - 2);
    assert(opts =~= base + extra);
    let b = base.len() as int;
    assert(opts[b - 5] == "luksFormat"@);
    assert(opts[b - 3] == "luks2"@);
    assert(opts[b - 1] == "aes-xts-plain64"@);
    assert forall|i: int| 0 <= i < b implies #[trigger] opts[i] != "--integrity"@ && opts[i]
        != "--integrity-no-journal"@ by {
        assert(opts[i] == base[i]);
        if verbose && i == 0 {
            assert(opts[i].len() != "--integrity"@.len());
        } else {
            let j = if verbose { i - 1 } else { i };
            assert(0 <= j < 5);
            if j == 0 || j == 2 || j == 3 || j == 4 {
                assert(opts[i].len() != "--integrity"@.len());
            } else {
                assert(opts[i][2] != "--integrity"@[2]);
            }
            assert(opts[i].len() != "--integrity-no-journal"@.len());
        }
    }
    if integrity != IntegrityType::Plain {
        assert(opts[b] == "--integrity"@);
        assert(opts[b + 1] == "hmac-sha256"@);
        assert(opts[b + 2] == "--integrity-no-wipe"@);
    }
    if integrity == IntegrityType::NoJournal {
        assert(opts[b + 3] == "--integrity-no-journal"@);
    } else {
        assert forall|i: int| 0 <= i < opts.len() implies #[trigger] opts[i] != "--integrity-no-journal"@ by {
            if i >= b {
                assert(opts[i].len() != "--integrity-no-journal"@.len());
            }
        }
    }
    if integrity == IntegrityType::Plain {
        assert(opts.len() == b);
    }
}

/// The `cryptsetup` arguments that open the LUKS2 volume on `dev` as
/// `/dev/mapper/<volume>`, reading the passphrase from standard input.
pub open spec fn spec_open_args(
    volume: Seq<char>,
    dev: Seq<char>,
    integrity: IntegrityType,
    verbose: bool,
) -> Seq<Seq<char>> {
    debug_args(verbose) + seq!["open"@, "--type"@, "luks2"@] + match integrity {
        IntegrityType::NoJournal => seq!["--integrity-no-journal"@],
        _ => seq![],
    } + seq!["--key-file=-"@, dev, volume]
}

/// `open` reads the passphrase from standard input, maps the device to the
/// volume name (the last two arguments, in that order), and turns the journal
/// off exactly for `NoJournal`.
pub proof fn lemma_open_args_integrity(
    volume: Seq<char>,
    dev: Seq<char>,
    integrity: IntegrityType,
    verbose: bool,
)
    ensures
        ({
            let a = spec_open_args(volume, dev, integrity, verbose);
            let opts = a.take(a.len() - 2);
            &&& a.len() >= 2
            &&& a[a.len() - 2] == dev
            &&& a[a.len() - 1] == volume
            &&& opts.contains("open"@)
            &&& opts.contains("luks2"@)
            &&& opts.contains("--key-file=-"@)
            &&& (opts.contains("--integrity-no-journal"@) <==> integrity == IntegrityType::NoJournal)
        }),
{
    reveal_strlit("--debug");
    reveal_strlit("open");
    reveal_strlit("--type");
    reveal_strlit("luks2");
    reveal_strlit("--key-file=-");
    reveal_strlit("--integrity-no-journal");
    let a = spec_open_args(volume, dev, integrity, verbose);
    let base = debug_args(verbose) + seq!["open"@, "--type"@, "luks2"@];
    let extra = match integrity {
        IntegrityType::NoJournal => seq!["--integrity-no-journal"@],
        _ => Seq::<Seq<char>>::empty(),
    };
    let opts = a.take(a.len() - 2);
    assert(opts =~= base + extra + seq!["--key-file=-"@]);
    let b = base.len() as int;
    assert(opts[b - 3] == "open"@);
    assert(opts[b - 1] == "luks2"@);
    assert(opts[opts.len() - 1] == "--key-file=-"@);
    if integrity == IntegrityType::NoJournal {
        assert(opts[b] == "--integrity-no-journal"@);
    } else {
        assert forall|i: int| 0 <= i < opts.len() implies #[trigger] opts[i] != "--integrity-no-journal"@ by {
            assert(opts[i].len() != "--integrity-no-journal"@.len());
        }
    }
}

/// The `cryptsetup` arguments that close the volume.
pub open spec fn spec_close_args(volume: Seq<char>, verbose: bool) -> Seq<Seq<char>> {
    debug_args(verbose) + seq!["close"@, volume]
}

fn push_str(v: &mut Vec<String>, s: &str)
    ensures
        str_views(final(v)@) == str_views(old(v)@).push(s@),
{
    let ghost v0 = v@;
    v.push(s.to_owned());
    assert(str_views(v@) =~= str_views(v0).push(s@));
}

fn debug_args_exec(verbose: bool) -> (r: Vec<String>)
    ensures
        str_views(r@) == debug_args(verbose),
{
    let mut r: Vec<String> = Vec::new();
    assert(str_views(r@) =~= Seq::<Seq<char>>::empty());
    if verbose {
        push_str(&mut r, "--debug");
        assert(str_views(r@) =~= seq!["--debug"@]);
    }
    r
}

/// The `cryptsetup` arguments of `luksFormat`.
pub fn luks_format_args(dev: &str, integrity: IntegrityType, verbose: bool) -> (r: Vec<String>)
    ensures
        str_views(r@) == spec_format_args(dev@, integrity, verbose),
{
    let mut r = debug_args_exec(verbose);
    let ghost d = str_views(r@);
    push_str(&mut r, "luksFormat");
    push_str(&mut r, "--type");
    push_str(&mut r, "luks2");
    push_str(&mut r, "--cipher");
    push_str(&mut r, "aes-xts-plain64");
    let ghost mid = str_views(r@);
    match integrity {
        IntegrityType::Plain => {},
        IntegrityType::Journal => {
            push_str(&mut r, "--integrity");
            push_str(&mut r, "hmac-sha256");
            push_str(&mut r, "--integrity-no-wipe");
        },
        IntegrityType::NoJournal => {
            push_str(&mut r, "--integrity");
            push_str(&mut r, "hmac-sha256");
            push_str(&mut r, "--integrity-no-wipe");
            push_str(&mut r, "--integrity-no-journal");
        },
    }
    let ghost mid2 = str_views(r@);
    push_str(&mut r, dev);
    push_str(&mut r, "-");
    assert(str_views(r@) =~= spec_format_args(dev@, integrity, verbose));
    r
}

/// The `cryptsetup` arguments of `open`.
pub fn luks_open_args(volume: &str, dev: &str, integrity: IntegrityType, verbose: bool) -> (r: Vec<
    String,
>)
    ensures
        str_views(r@) == spec_open_args(volume@, dev@, integrity, verbose),
{
    let mut r = debug_args_exec(verbose);
    push_str(&mut r, "open");
    push_str(&mut r, "--type");
    push_str(&mut r, "luks2");
    match integrity {
        IntegrityType::NoJournal => {
            push_str(&mut r, "--integrity-no-journal");
        },
        _ => {},
    }
    push_str(&mut r, "--key-file=-");
    push_str(&mut r, dev);
    push_str(&mut r, volume);
    assert(str_views(r@) =~= spec_open_args(volume@, dev@, integrity, verbose));
    r
}

/// The `cryptsetup` arguments of `close`.
pub fn luks_close_args(volume: &str, verbose: bool) -> (r: Vec<String>)
    ensures
        str_views(r@) == spec_close_args(volume@, verbose),
{
    let mut r = debug_args_exec(verbose);
    push_str(&mut r, "close");
    push_str(&mut r, volume);
    assert(str_views(r@) =~= spec_close_args(volume@, verbose));
    r
}

/// Errors in reading the result of a command.
#[derive(Debug, Clone, Copy, PartialEq, Eq, Structural)]
pub enum CommandError {
    /// The command exited with a code that has no meaning here.
    BadExitCode(i32),
    /// The device could not be opened.
    CannotOpen,
}

/// What the exit code of `cryptsetup isLuks` says: 0 for a LUKS device, 1
/// for another device; other codes are errors.
pub fn is_luks_exit_code(code: i32) -> (r: Result<bool, CommandError>)
    ensures
        code == 0 ==> r == Ok::<bool, CommandError>(true),
        code == 1 ==> r == Ok::<bool, CommandError>(false),
        code != 0 && code != 1 ==> (r matches Err(CommandError::BadExitCode(c)) && c == code),
{
    if code == 0 {
        Ok(true)
    } else if code == 1 {
        Ok(false)
    } else {
        Err(CommandError::BadExitCode(code))
    }
}

/// The device node of the mapped volume `volume`.
pub open spec fn spec_mapper_path(volume: Seq<char>) -> Seq<char> {
    "/dev/mapper/"@ + volume
}

/// The device node of the mapped volume `volume` (whose existence tells
/// whether the volume is open).
pub fn mapper_path(volume: &str) -> (r: String)
    ensures
        r@ == spec_mapper_path(volume@),
{
    let mut p = chars_of("/dev/mapper/");
    let v = chars_of(volume);
    append_chars(&mut p, &v);
    string_of(&p)
}

/// Whether the mapping of `volume` is active, seen by whether its device node
/// under `/dev/mapper/` exists (which the disk decides at the time of the call).
pub fn is_active(volume: &str) -> bool {
    let p = mapper_path(volume);
    path_exists(p.as_str())
}

/// The command and force flag that make a file system of the type.
pub open spec fn spec_mkfs_command(fs: MakeFsType) -> (Seq<char>, Seq<char>) {
    match fs {
        MakeFsType::Swap => ("mkswap"@, "-f"@),
        MakeFsType::Ext4 => ("mkfs.ext4"@, "-F"@),
        MakeFsType::Xfs => ("mkfs.xfs"@, "-f"@),
        MakeFsType::Vfat => ("mkfs.vfat"@, "-I"@),
    }
}

/// The command and the flag that forces it, to make a file system of the type.
pub fn mkfs_command(fs: MakeFsType) -> (r: (&'static str, &'static str))
    ensures
        (r.0@, r.1@) == spec_mkfs_command(fs),
{
    match fs {
        MakeFsType::Swap => ("mkswap", "-f"),
        MakeFsType::Ext4 => ("mkfs.ext4", "-F"),
        MakeFsType::Xfs => ("mkfs.xfs", "-f"),
        MakeFsType::Vfat => ("mkfs.vfat", "-I"),
    }
}

/// Whether `file -E --brief` found the device empty: its output reports an
/// I/O error or plain `data`; an output that reports `cannot open`, or a
/// failing exit code, is an error; any other output means the device holds
/// something.
pub open spec fn spec_device_is_empty(code: i32, stdout: Seq<char>) -> Result<bool, CommandError> {
    if contains_str(stdout, "Input/output error"@) || trim(stdout) == "data"@ {
        Ok(true)
    } else if contains_str(stdout, "cannot open"@) {
        Err(CommandError::CannotOpen)
    } else if code != 0 {
        Err(CommandError::BadExitCode(code))
    } else {
        Ok(false)
    }
}

/// Reads the result of `file -E --brief --dereference --special-files` on a device.
pub fn device_is_empty(code: i32, stdout: &str) -> (r: Result<bool, CommandError>)
    ensures
        r == spec_device_is_empty(code, stdout@),
{
    let out = chars_of(stdout);
    let io_error = chars_of("Input/output error");
    let data = chars_of("data");
    let cannot_open = chars_of("cannot open");
    let t = trim_chars(&out);
    if contains_str_exec(&out, &io_error) || vec_eq(&t, &data) {
        Ok(true)
    } else if contains_str_exec(&out, &cannot_open) {
        Err(CommandError::CannotOpen)
    } else if code != 0 {
        Err(CommandError::BadExitCode(code))
    } else {
        Ok(false)
    }
}

/// The integrity protection with which volumes are opened: without a
/// journal when integrity is asked for.
pub fn open_integrity(integrity: Option<bool>) -> (r: IntegrityType)
    ensures
        r == (if integrity == Some(true) {
            IntegrityType::NoJournal
        } else {
            IntegrityType::Plain
        }),
{
    match integrity {
        Some(true) => IntegrityType::NoJournal,
        Some(false) | None => IntegrityType::Plain,
    }
}

/// The integrity protection with which persistent volumes are initialized:
/// with a journal when integrity is asked for.
pub fn init_integrity(integrity: Option<bool>) -> (r: IntegrityType)
    ensures
        r == (if integrity == Some(true) {
            IntegrityType::Journal
        } else {
            IntegrityType::Plain
        }),
{
    match integrity {
        Some(true) => IntegrityType::Journal,
        Some(false) | None => IntegrityType::Plain,
    }
}

/// A volume with integrity protection is not wiped when formatted, so a
/// file system is made on it only where it reads as empty, and only the
/// pages that `mkfs` touches are written.
pub fn needs_no_wipe_mkfs(integrity: IntegrityType) -> (r: bool)
    ensures
        r == !(integrity is Plain),
{
    match integrity {
        IntegrityType::Plain => false,
        IntegrityType::Journal | IntegrityType::NoJournal => true,
    }
}

/// Why no script makes a file system on a volume that was not wiped.
#[derive(Debug, PartialEq, Eq, Structural)]
pub enum NoWipeMkfsError {
    /// `vfat` together with integrity protection is not supported.
    VfatUnsupported,
}

/// The script that makes a file system of the type on a volume that was not
/// wiped: it zeroes the blocks where `mkfs` looks for an old file system, then
/// runs `mkfs`. For ext4 those are block 0 and the superblock backups that
/// `mkfs.ext4 -n` lists; for swap and xfs, block 0.
pub open spec fn spec_no_wipe_mkfs_script(fs: MakeFsType, p: Seq<char>) -> Option<Seq<char>> {
    match fs {
        MakeFsType::Swap => Some(
            "dd if=/dev/zero of="@ + p + " count=1 seek=0 bs=4096\nmkswap "@ + p + "\n"@,
        ),
        MakeFsType::Ext4 => Some(
            "BLOCKS=$(mkfs.ext4 -n "@ + p
                + " | tail -n 4 | grep -Eo '[0-9]{4,}' | sort -n)\nBLOCKS=\"0 $BLOCKS\"\n\nfor BLOCK_NUM in $BLOCKS\ndo\n    dd if=/dev/zero of="@
                + p + " count=1 seek=$BLOCK_NUM bs=4096\n    dd if="@ + p
                + "  count=1 skip=$BLOCK_NUM  bs=4096 | hexdump \ndone\nmkfs.ext4 "@ + p + "\n"@,
        ),
        MakeFsType::Xfs => Some(
            "dd if=/dev/zero of="@ + p + " count=1 seek=0 bs=4096\nmkfs.xfs -f "@ + p + "\n"@,
        ),
        MakeFsType::Vfat => None,
    }
}

/// What each no-wipe script does on the volume at `p`: the ext4 script
/// zeroes block 0 and every block that `mkfs.ext4 -n` lists (the loop over
/// `$BLOCKS` zeroes the block numbered by its variable), then runs
/// `mkfs.ext4`; the swap and xfs scripts zero block 0, then run `mkswap` or
/// `mkfs.xfs -f`; vfat has none. Each script ends with its `mkfs` command on
/// the volume.
pub proof fn lemma_no_wipe_mkfs_script(p: Seq<char>)
    ensures
        spec_no_wipe_mkfs_script(MakeFsType::Vfat, p) is None,
        spec_no_wipe_mkfs_script(MakeFsType::Ext4, p) matches Some(s) && {
            &&& contains_str(s, "BLOCKS=\"0 $BLOCKS\""@)
            &&& contains_str(s, "for BLOCK_NUM in $BLOCKS\ndo\n"@)
            &&& contains_str(s, "dd if=/dev/zero of="@ + p + " count=1 seek=$BLOCK_NUM bs=4096"@)
            &&& s.len() >= p.len() + 11
            &&& s.skip(s.len() - p.len() - 11) == "mkfs.ext4 "@ + p + "\n"@
        },
        spec_no_wipe_mkfs_script(MakeFsType::Swap, p) matches Some(s) && {
            &&& starts_with(s, "dd if=/dev/zero of="@ + p + " count=1 seek=0 bs=4096\n"@)
            &&& s.len() >= p.len() + 8
            &&& s.skip(s.len() - p.len() - 8) == "mkswap "@ + p + "\n"@
        },
        spec_no_wipe_mkfs_script(MakeFsType::Xfs, p) matches Some(s) && {
            &&& starts_with(s, "dd if=/dev/zero of="@ + p + " count=1 seek=0 bs=4096\n"@)
            &&& s.len() >= p.len() + 13
            &&& s.skip(s.len() - p.len() - 13) == "mkfs.xfs -f "@ + p + "\n"@
        },
{
    reveal_strlit("mkfs.ext4 ");
    reveal_strlit("mkswap ");
    reveal_strlit("mkfs.xfs -f ");
    reveal_strlit("\n");
    reveal_strlit(" count=1 seek=0 bs=4096\n");
    reveal_strlit(" count=1 seek=0 bs=4096\nmkswap ");
    reveal_strlit(" count=1 seek=0 bs=4096\nmkfs.xfs -f ");
    reveal_strlit("BLOCKS=\"0 $BLOCKS\"");
    reveal_strlit("for BLOCK_NUM in $BLOCKS\ndo\n");
    reveal_strlit(" | tail -n 4 | grep -Eo '[0-9]{4,}' | sort -n)\nBLOCKS=\"0 $BLOCKS\"\n\nfor BLOCK_NUM in $BLOCKS\ndo\n    dd if=/dev/zero of=");
    reveal_strlit(" count=1 seek=$BLOCK_NUM bs=4096");
    reveal_strlit(" count=1 seek=$BLOCK_NUM bs=4096\n    dd if=");
    reveal_strlit("dd if=/dev/zero of=");
    reveal_strlit("  count=1 skip=$BLOCK_NUM  bs=4096 | hexdump \ndone\nmkfs.ext4 ");
    reveal_strlit("BLOCKS=$(mkfs.ext4 -n ");
    reveal_strlit("\n    dd if=");
    reveal_strlit(" | tail -n 4 | grep -Eo '[0-9]{4,}' | sort -n)\n");
    reveal_strlit("\n\n");
    // ext4
    let head = "BLOCKS=$(mkfs.ext4 -n "@ + p;
    let mid = " | tail -n 4 | grep -Eo '[0-9]{4,}' | sort -n)\nBLOCKS=\"0 $BLOCKS\"\n\nfor BLOCK_NUM in $BLOCKS\ndo\n    dd if=/dev/zero of="@;
    let s = spec_no_wipe_mkfs_script(MakeFsType::Ext4, p)->0;
    let z = "dd if=/dev/zero of="@ + p + " count=1 seek=$BLOCK_NUM bs=4096"@;
    let tail = "\n    dd if="@ + p + "  count=1 skip=$BLOCK_NUM  bs=4096 | hexdump \ndone\nmkfs.ext4 "@ + p + "\n"@;
    let pre = head + mid.take(mid.len() - 19);
    assert(mid =~= mid.take(mid.len() - 19) + "dd if=/dev/zero of="@);
    assert(" count=1 seek=$BLOCK_NUM bs=4096\n    dd if="@ =~= " count=1 seek=$BLOCK_NUM bs=4096"@
        + "\n    dd if="@);
    assert(s =~= pre + z + tail);
    lemma_contains_middle(pre, z, tail);
    let b0 = "BLOCKS=\"0 $BLOCKS\""@;
    let m1 = head + " | tail -n 4 | grep -Eo '[0-9]{4,}' | sort -n)\n"@;
    assert(mid =~= " | tail -n 4 | grep -Eo '[0-9]{4,}' | sort -n)\n"@ + b0 + mid.skip(65));
    assert(s =~= m1 + b0 + s.skip((m1.len() + b0.len()) as int));
    lemma_contains_middle(m1, b0, s.skip((m1.len() + b0.len()) as int));
    let f = "for BLOCK_NUM in $BLOCKS\ndo\n"@;
    let m2 = m1 + b0 + "\n\n"@;
    assert(s =~= m2 + f + s.skip((m2.len() + f.len()) as int));
    lemma_contains_middle(m2, f, s.skip((m2.len() + f.len()) as int));
    assert(s.skip(s.len() - p.len() - 11) =~= "mkfs.ext4 "@ + p + "\n"@);
    // swap
    let sw = spec_no_wipe_mkfs_script(MakeFsType::Swap, p)->0;
    assert(sw.take(("dd if=/dev/zero of="@ + p + " count=1 seek=0 bs=4096\n"@).len() as int)
        =~= "dd if=/dev/zero of="@ + p + " count=1 seek=0 bs=4096\n"@);
    assert(sw.skip(sw.len() - p.len() - 8) =~= "mkswap "@ + p + "\n"@);
    // xfs
    let xf = spec_no_wipe_mkfs_script(MakeFsType::Xfs, p)->0;
    assert(xf.take(("dd if=/dev/zero of="@ + p + " count=1 seek=0 bs=4096\n"@).len() as int)
        =~= "dd if=/dev/zero of="@ + p + " count=1 seek=0 bs=4096\n"@);
    assert(xf.skip(xf.len() - p.len() - 13) =~= "mkfs.xfs -f "@ + p + "\n"@);
}

/// Appends the characters of a string.
fn push_chars(v: &mut Vec<char>, s: &str)
    ensures
        final(v)@ == old(v)@ + s@,
{
    let c = chars_of(s);
    append_chars(v, &c);
}

/// The script that makes a file system of the type on the volume at
/// `volume_path` without a prior wipe; `vfat` is refused.
pub fn no_wipe_mkfs_script(fs: MakeFsType, volume_path: &str) -> (r: Result<
    String,
    NoWipeMkfsError,
>)
    ensures
        match spec_no_wipe_mkfs_script(fs, volume_path@) {
            Some(s) => r matches Ok(t) && t@ == s,
            None => r == Err::<String, NoWipeMkfsError>(NoWipeMkfsError::VfatUnsupported),
        },
{
    let mut v: Vec<char> = Vec::new();
    match fs {
        MakeFsType::Swap => {
            push_chars(&mut v, "dd if=/dev/zero of=");
            push_chars(&mut v, volume_path);
            push_chars(&mut v, " count=1 seek=0 bs=4096\nmkswap ");
            push_chars(&mut v, volume_path);
            push_chars(&mut v, "\n");
        },
        MakeFsType::Ext4 => {
            push_chars(&mut v, "BLOCKS=$(mkfs.ext4 -n ");
            push_chars(&mut v, volume_path);
            push_chars(
                &mut v,
                " | tail -n 4 | grep -Eo '[0-9]{4,}' | sort -n)\nBLOCKS=\"0 $BLOCKS\"\n\nfor BLOCK_NUM in $BLOCKS\ndo\n    dd if=/dev/zero of=",
            );
            push_chars(&mut v, volume_path);
            push_chars(&mut v, " count=1 seek=$BLOCK_NUM bs=4096\n    dd if=");
            push_chars(&mut v, volume_path);
            push_chars(&mut v, "  count=1 skip=$BLOCK_NUM  bs=4096 | hexdump \ndone\nmkfs.ext4 ");
            push_chars(&mut v, volume_path);
            push_chars(&mut v, "\n");
        },
        MakeFsType::Xfs => {
            push_chars(&mut v, "dd if=/dev/zero of=");
            push_chars(&mut v, volume_path);
            push_chars(&mut v, " count=1 seek=0 bs=4096\nmkfs.xfs -f ");
            push_chars(&mut v, volume_path);
            push_chars(&mut v, "\n");
        },
        MakeFsType::Vfat => {
            return Err(NoWipeMkfsError::VfatUnsupported);
        },
    }
    Ok(string_of(&v))
}

/// Makes a file system by running `mkfs` directly.
#[derive(Debug)]
pub struct NormalMakeFs;

/// Makes a file system on a volume that was not wiped: `mkfs` runs on a
/// sparse device of the same size, and only the pages that it touched are
/// copied to the volume.
#[derive(Debug)]
pub struct IntegrityNoWipeMakeFs;

} // verus!
