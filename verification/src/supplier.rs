//! The key supplier that answers systemd-cryptsetup on a unix socket: which
//! volume a request is for, and the passphrase and script that set up a
//! volume with a fresh random key.
use vstd::prelude::*;

use rand::RngCore;

use crate::config::{find_volume_config, names, ConfigError, VolumeConfig};
use crate::reference::{hex_encode, hex_lower};
use crate::text::{append_chars, chars_of, starts_with, starts_with_exec, string_of, vec_eq};

verus! {

// ---------------------------------------------------------------------------
// Components of a unix path
// ---------------------------------------------------------------------------

/// Keeps a finished segment of a path where it names something: it is not
/// empty and not `.`.
pub open spec fn keep_segment(done: Seq<Seq<char>>, seg: Seq<char>) -> Seq<Seq<char>> {
    if seg.len() > 0 && seg != "."@ {
        done.push(seg)
    } else {
        done
    }
}

/// Scans a path left to right: the segments kept so far and the segment being
/// read.
pub open spec fn segment_scan(s: Seq<char>) -> (Seq<Seq<char>>, Seq<char>)
    decreases s.len(),
{
    if s.len() == 0 {
        (Seq::empty(), Seq::empty())
    } else {
        let p = segment_scan(s.drop_last());
        if s.last() == '/' {
            (keep_segment(p.0, p.1), Seq::empty())
        } else {
            (p.0, p.1.push(s.last()))
        }
    }
}

/// The components of a unix path as `std::path::Path::components` gives them,
/// each written as text: `/` for the root, `.` for a leading current
/// directory, `..` for a parent directory, and the name of any other.
pub open spec fn path_components(s: Seq<char>) -> Seq<Seq<char>> {
    let lead = if s.len() > 0 && s[0] == '/' {
        seq!["/"@]
    } else if s == "."@ || starts_with(s, "./"@) {
        seq!["."@]
    } else {
        Seq::empty()
    };
    let p = segment_scan(s);
    lead + keep_segment(p.0, p.1)
}

/// The volume a request is for: the third component of the socket path of the
/// peer, which must name something (the path reads
/// `<random>/cryptsetup/<volume>`).
pub open spec fn spec_peer_volume_name(path: Seq<char>) -> Option<Seq<char>> {
    let cs = path_components(path);
    if cs.len() > 2 && cs[2] != "/"@ && cs[2] != "."@ && cs[2] != ".."@ {
        Some(cs[2])
    } else {
        None
    }
}

/// The named components of a path, skipping the leading root or current
/// directory.
fn path_segments(s: &[char]) -> (r: Vec<Vec<char>>)
    ensures
        r@.map_values(|v: Vec<char>| v@) == keep_segment(segment_scan(s@).0, segment_scan(s@).1),
{
    let dot = chars_of(".");
    let mut done: Vec<Vec<char>> = Vec::new();
    let mut cur: Vec<char> = Vec::new();
    let mut i: usize = 0;
    while i < s.len()
        invariant
            i <= s@.len(),
            dot@ == "."@,
            done@.map_values(|v: Vec<char>| v@) == segment_scan(s@.take(i as int)).0,
            cur@ == segment_scan(s@.take(i as int)).1,
        decreases s.len() - i,
    {
        assert(s@.take(i + 1).drop_last() =~= s@.take(i as int));
        let ghost d0 = done@;
        if s[i] == '/' {
            if cur.len() > 0 && !vec_eq(&cur, &dot) {
                done.push(cur);
                assert(done@.map_values(|v: Vec<char>| v@) =~= d0.map_values(|v: Vec<char>| v@).push(
                    segment_scan(s@.take(i as int)).1,
                ));
            }
            cur = Vec::new();
        } else {
            cur.push(s[i]);
        }
        i += 1;
    }
    assert(s@.take(s@.len() as int) =~= s@);
    let ghost d0 = done@;
    if cur.len() > 0 && !vec_eq(&cur, &dot) {
        done.push(cur);
        assert(done@.map_values(|v: Vec<char>| v@) =~= d0.map_values(|v: Vec<char>| v@).push(
            segment_scan(s@).1,
        ));
    }
    done
}

/// The volume a key request is for, from the abstract socket path of the
/// peer: its third path component, where that names something.
pub fn peer_volume_name(path: &str) -> (r: Option<String>)
    ensures
        match spec_peer_volume_name(path@) {
            Some(v) => r matches Some(n) && n@ == v,
            None => r is None,
        },
{
    proof {
        reveal_strlit("/");
        reveal_strlit(".");
        reveal_strlit("..");
        reveal_strlit("./");
    }
    let s = chars_of(path);
    let segs = path_segments(&s);
    let ghost sv = segs@.map_values(|v: Vec<char>| v@);
    let dot_slash = chars_of("./");
    let lead: usize = if s.len() > 0 && s[0] == '/' {
        1
    } else if (s.len() == 1 && s[0] == '.') || starts_with_exec(&s, &dot_slash) {
        1
    } else {
        0
    };
    proof {
        let cs = path_components(path@);
        if lead == 1 {
            assert(s@ == "."@ ==> s@.len() == 1 && s@[0] == '.');
            assert(s@.len() == 1 && s@[0] == '.' ==> s@ =~= "."@);
            assert(cs =~= seq![cs[0]] + sv);
        } else {
            assert(!(s@ == "."@));
            assert(cs =~= sv);
        }
    }
    if segs.len() <= 2 - lead {
        return None;
    }
    let name = &segs[2 - lead];
    assert(path_components(path@)[2] == name@);
    let dotdot = chars_of("..");
    if vec_eq(name, &dotdot) {
        return None;
    }
    proof {
        // A kept segment holds no separator and is not `.`.
        lemma_kept_segments(s@);
        assert(sv[2 - lead] == name@);
        assert(good_segment(sv[2 - lead]));
        assert(name@ != "/"@) by {
            if name@ == "/"@ {
                assert(name@[0] == '/');
            }
        }
    }
    Some(string_of(name))
}

/// A segment that names something: not empty, not `.`, and free of separators.
pub open spec fn good_segment(g: Seq<char>) -> bool {
    &&& g.len() > 0
    &&& g != "."@
    &&& forall|j: int| 0 <= j < g.len() ==> g[j] != '/'
}

/// Every segment kept is one that names something.
pub open spec fn all_good(gs: Seq<Seq<char>>) -> bool {
    forall|k: int| 0 <= k < gs.len() ==> good_segment(#[trigger] gs[k])
}

/// Keeping a separator-free segment keeps only segments that name something.
proof fn lemma_keep_good(done: Seq<Seq<char>>, seg: Seq<char>)
    requires
        all_good(done),
        forall|j: int| 0 <= j < seg.len() ==> seg[j] != '/',
    ensures
        all_good(keep_segment(done, seg)),
{
    if seg.len() > 0 && seg != "."@ {
        assert(good_segment(seg));
        assert forall|k: int| 0 <= k < done.push(seg).len() implies good_segment(
            #[trigger] done.push(seg)[k],
        ) by {
            if k < done.len() {
                assert(done.push(seg)[k] == done[k]);
            }
        }
    }
}

/// The segments of a scan, kept or being read, are free of separators; the
/// kept ones name something.
proof fn lemma_kept_segments(s: Seq<char>)
    ensures
        all_good(segment_scan(s).0),
        forall|j: int| 0 <= j < segment_scan(s).1.len() ==> segment_scan(s).1[j] != '/',
        all_good(keep_segment(segment_scan(s).0, segment_scan(s).1)),
    decreases s.len(),
{
    if s.len() > 0 {
        let t = s.drop_last();
        lemma_kept_segments(t);
        let p = segment_scan(t);
        if s.last() == '/' {
            lemma_keep_good(p.0, p.1);
        } else {
            assert forall|j: int| 0 <= j < p.1.push(s.last()).len() implies p.1.push(
                s.last(),
            )[j] != '/' by {
                if j < p.1.len() {
                    assert(p.1.push(s.last())[j] == p.1[j]);
                }
            }
        }
    }
    lemma_keep_good(segment_scan(s).0, segment_scan(s).1);
}

/// A path without separators is one segment still being read.
proof fn lemma_scan_no_separator(s: Seq<char>)
    requires
        forall|j: int| 0 <= j < s.len() ==> s[j] != '/',
    ensures
        segment_scan(s) == (Seq::<Seq<char>>::empty(), s),
    decreases s.len(),
{
    if s.len() > 0 {
        lemma_scan_no_separator(s.drop_last());
        assert(s.drop_last().push(s.last()) =~= s);
    }
}

/// After a separator, the scan of the rest starts afresh.
proof fn lemma_scan_after_separator(x: Seq<char>, y: Seq<char>)
    requires
        x.len() > 0,
        x.last() == '/',
    ensures
        segment_scan(x + y) == (segment_scan(x).0 + segment_scan(y).0, segment_scan(y).1),
    decreases y.len(),
{
    if y.len() == 0 {
        assert(x + y =~= x);
        assert(segment_scan(x).0 + segment_scan(y).0 =~= segment_scan(x).0);
    } else {
        let yd = y.drop_last();
        lemma_scan_after_separator(x, yd);
        assert((x + y).drop_last() =~= x + yd);
        assert((x + y).last() == y.last());
        let a = segment_scan(x).0;
        let p = segment_scan(yd);
        if y.last() == '/' {
            if p.1.len() > 0 && p.1 != "."@ {
                assert((a + p.0).push(p.1) =~= a + p.0.push(p.1));
            }
        }
    }
}

/// A path of three named segments, the last not `..`, has them as its
/// components.
proof fn lemma_three_segments(r: Seq<char>, m: Seq<char>, v: Seq<char>)
    requires
        good_segment(r),
        good_segment(m),
        good_segment(v),
    ensures
        path_components(r + "/"@ + m + "/"@ + v) == seq![r, m, v],
{
    reveal_strlit("/");
    reveal_strlit(".");
    reveal_strlit("./");
    let x1 = r + "/"@;
    let x2 = m + "/"@;
    let s = r + "/"@ + m + "/"@ + v;
    assert(s =~= x1 + (x2 + v));
    lemma_scan_no_separator(r);
    lemma_scan_no_separator(m);
    lemma_scan_no_separator(v);
    assert(x1.drop_last() =~= r);
    assert(x2.drop_last() =~= m);
    assert(segment_scan(x1) == (seq![r], Seq::<char>::empty()));
    assert(segment_scan(x2) == (seq![m], Seq::<char>::empty()));
    lemma_scan_after_separator(x2, v);
    lemma_scan_after_separator(x1, x2 + v);
    assert(segment_scan(s).0 =~= seq![r, m]);
    assert(segment_scan(s).1 == v);
    assert(s[0] == r[0]);
    assert(s != "."@) by {
        assert(s.len() != 1);
    }
    assert(!starts_with(s, "./"@)) by {
        if starts_with(s, "./"@) {
            assert(s.take(2)[0] == '.' && s.take(2)[1] == '/');
            if r.len() == 1 {
                assert(r =~= "."@);
            } else {
                assert(s[1] == r[1]);
            }
        }
    }
    assert(path_components(s) =~= seq![r, m, v]);
}

/// The key supplier finds the volume of any request that systemd-cryptsetup
/// makes: from a peer socket path `<random>/cryptsetup/<volume>`, where the
/// random part and the volume are names (not empty, not `.`, no `/`) and the
/// volume is not `..`, it takes the volume.
pub proof fn lemma_peer_volume_name(random: Seq<char>, volume: Seq<char>)
    requires
        good_segment(random),
        good_segment(volume),
        volume != ".."@,
    ensures
        spec_peer_volume_name(random + "/cryptsetup/"@ + volume) == Some(volume),
{
    reveal_strlit("/cryptsetup/");
    reveal_strlit("cryptsetup");
    reveal_strlit("/");
    reveal_strlit(".");
    let m = "cryptsetup"@;
    assert(good_segment(m)) by {
        assert(m != "."@) by {
            assert(m.len() != 1);
        }
    }
    assert(random + "/cryptsetup/"@ + volume =~= random + "/"@ + m + "/"@ + volume);
    lemma_three_segments(random, m, volume);
    assert(volume != "/"@) by {
        if volume == "/"@ {
            assert(volume[0] == '/');
        }
    }
}

/// Why a key request cannot be served.
#[derive(Debug, PartialEq, Eq)]
pub enum SupplierError {
    /// The peer socket path does not name a volume.
    BadPeerPath(String),
    /// No configuration names the volume.
    UnknownVolume(String),
}

/// The configuration of the volume that a key request is for: the volume
/// that the peer socket path names, looked up among the configurations.
pub fn request_volume_config(peer_path: &str, configs: Vec<VolumeConfig>) -> (r: Result<
    VolumeConfig,
    SupplierError,
>)
    ensures
        match spec_peer_volume_name(peer_path@) {
            None => r matches Err(SupplierError::BadPeerPath(p)) && p@ == peer_path@,
            Some(v) => {
                &&& names(configs@).contains(v) ==> (r matches Ok(c) && exists|k: int|
                    0 <= k < configs@.len() && configs@[k] == c && c.volume@ == v && forall|j: int|
                        0 <= j < k ==> configs@[j].volume@ != v)
                &&& !names(configs@).contains(v) ==> (r matches Err(
                    SupplierError::UnknownVolume(n),
                ) && n@ == v)
            },
        },
{
    let volume = match peer_volume_name(peer_path) {
        Some(v) => v,
        None => return Err(SupplierError::BadPeerPath(peer_path.to_owned())),
    };
    match find_volume_config(configs, volume.as_str()) {
        Ok(c) => Ok(c),
        Err(ConfigError::UnknownVolume(n)) => Err(SupplierError::UnknownVolume(n)),
        Err(ConfigError::DuplicateVolume(n)) => Err(SupplierError::UnknownVolume(n)),
    }
}

// ---------------------------------------------------------------------------
// Volumes with a fresh random key
// ---------------------------------------------------------------------------

/// `n` bytes from `rand::RngCore::fill_bytes` of the thread-local generator.
/// Which bytes come out is chance, so only their number is stated.
#[verifier::external_body]
fn random_bytes(n: usize) -> (r: Vec<u8>)
    ensures
        r@.len() == n,
{
    let mut b = vec![0u8; n];
    rand::thread_rng().fill_bytes(&mut b);
    b
}

/// A lowercase hex digit.
pub open spec fn is_lower_hex_digit(c: char) -> bool {
    ||| (48 <= (c as int) && (c as int) <= 57)
    ||| (97 <= (c as int) && (c as int) <= 102)
}

/// The passphrase made of drawn bytes: each byte as two lowercase hex digits.
pub fn passphrase_of(bytes: &[u8]) -> (r: String)
    ensures
        r@ == hex_lower(bytes@),
{
    hex_encode(bytes)
}

/// A fresh passphrase: sixteen random bytes in lowercase hex.
pub fn generate_passphrase() -> (r: String)
    ensures
        exists|b: Seq<u8>| b.len() == 16 && r@ == hex_lower(b),
        r@.len() == 32,
        forall|i: int| 0 <= i < 32 ==> is_lower_hex_digit(#[trigger] r@[i]),
{
    let b = random_bytes(16);
    let p = passphrase_of(&b);
    assert forall|i: int| 0 <= i < 32 implies is_lower_hex_digit(#[trigger] p@[i]) by {
        assert(p@[i] == hex_lower(b@)[i]);
    }
    p
}

/// The script that formats the device of a volume as LUKS2 with the
/// passphrase, fed on standard input.
pub open spec fn spec_luks_format_script(passphrase: Seq<char>, dev: Seq<char>) -> Seq<char> {
    "echo -n "@ + passphrase + " | cryptsetup luksFormat --type luks2 "@ + dev + " -"@
}

/// The script that formats the device of a volume as LUKS2 with the
/// passphrase, fed on standard input.
pub fn luks_format_script(passphrase: &str, dev: &str) -> (r: String)
    ensures
        r@ == spec_luks_format_script(passphrase@, dev@),
{
    let mut s = chars_of("echo -n ");
    let p = chars_of(passphrase);
    append_chars(&mut s, &p);
    let m = chars_of(" | cryptsetup luksFormat --type luks2 ");
    append_chars(&mut s, &m);
    let d = chars_of(dev);
    append_chars(&mut s, &d);
    let e = chars_of(" -");
    append_chars(&mut s, &e);
    string_of(&s)
}

} // verus!
