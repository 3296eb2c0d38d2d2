//! GRUB environment and configuration files: variables, menu entries and
//! loader entries, and the kernel command lines that GRUB measures.
use vstd::prelude::*;

use crate::text::{is_digit, 
    all_digits, append_chars, chars_of, contains_str, contains_str_exec, decimal, decimal_exec,
    last_digit_index, last_digit_index_exec, lines, lines_exec, parse_digits_u32,
    parse_digits_u32_exec, replace, replace_exec, shift, slice_chars, split_once,
    split_once_exec, starts_with, starts_with_exec, strip_prefix, strip_prefix_exec, string_of,
    trailing_digits, trailing_digits_exec, trim, trim_char, trim_char_chars, trim_chars, vec_eq,
    views,
};

verus! {

// ---------------------------------------------------------------------------
// Ordered variable tables
// ---------------------------------------------------------------------------

/// The abstract form of a variable table: (name, value) pairs in the order in
/// which each name was first set.
pub type VarSeq = Seq<(Seq<char>, Seq<char>)>;

/// The position of `k` in `vars`.
pub open spec fn key_index(vars: VarSeq, k: Seq<char>) -> Option<int>
    decreases vars.len(),
{
    if vars.len() == 0 {
        None
    } else if vars[0].0 == k {
        Some(0)
    } else {
        shift(key_index(vars.drop_first(), k), 1)
    }
}

/// `vars` with `k` set to `v`: an existing entry keeps its place, a new one
/// goes to the end.
pub open spec fn vars_set(vars: VarSeq, k: Seq<char>, v: Seq<char>) -> VarSeq {
    match key_index(vars, k) {
        Some(i) => vars.update(i, (k, v)),
        None => vars.push((k, v)),
    }
}

/// The value of `k` in `vars`.
pub open spec fn vars_get(vars: VarSeq, k: Seq<char>) -> Option<Seq<char>> {
    match key_index(vars, k) {
        Some(i) => Some(vars[i].1),
        None => None,
    }
}

/// No name occurs twice.
pub open spec fn keys_unique(vars: VarSeq) -> bool {
    forall|i: int, j: int| 0 <= i < j < vars.len() ==> vars[i].0 != vars[j].0
}

/// `key_index` finds the first entry with the name, and finds none where no
/// entry has it.
pub proof fn lemma_key_index(vars: VarSeq, k: Seq<char>)
    ensures
        key_index(vars, k) matches Some(i) ==> 0 <= i < vars.len() && vars[i].0 == k && forall|
            j: int,
        | 0 <= j < i ==> vars[j].0 != k,
        key_index(vars, k) is None ==> forall|j: int| 0 <= j < vars.len() ==> vars[j].0 != k,
    decreases vars.len(),
{
    if vars.len() > 0 {
        lemma_key_index(vars.drop_first(), k);
        if vars[0].0 != k {
            assert forall|j: int| 0 < j < vars.len() implies vars[j] == vars.drop_first()[j - 1] by {}
        }
    }
}

proof fn lemma_key_index_at(vars: VarSeq, k: Seq<char>, i: int)
    requires
        0 <= i <= vars.len(),
        forall|j: int| 0 <= j < i ==> vars[j].0 != k,
    ensures
        i < vars.len() && vars[i].0 == k ==> key_index(vars, k) == Some(i),
        i == vars.len() ==> key_index(vars, k) is None,
    decreases i,
{
    if i > 0 {
        lemma_key_index_at(vars.drop_first(), k, i - 1);
    }
}

/// Setting a variable in a table whose names are distinct keeps them
/// distinct; the variable then reads back as the value set, and every other
/// variable reads as before.
pub proof fn lemma_vars_set_unique(vars: VarSeq, k: Seq<char>, v: Seq<char>)
    requires
        keys_unique(vars),
    ensures
        keys_unique(vars_set(vars, k, v)),
        vars_get(vars_set(vars, k, v), k) == Some(v),
        forall|k2: Seq<char>| k2 != k ==> vars_get(vars_set(vars, k, v), k2) == vars_get(vars, k2),
{
    lemma_key_index(vars, k);
    let r = vars_set(vars, k, v);
    assert forall|k2: Seq<char>| true implies ({
        &&& key_index(r, k2) == if k2 == k {
            match key_index(vars, k) {
                Some(i) => Some(i),
                None => Some(vars.len() as int),
            }
        } else {
            key_index(vars, k2)
        }
    }) by {
        lemma_key_index(vars, k2);
        lemma_key_index(r, k2);
        match key_index(vars, k2) {
            Some(i) => {
                lemma_key_index_at(r, k2, i);
            },
            None => {
                if k2 == k {
                    lemma_key_index_at(r, k2, vars.len() as int);
                } else {
                    lemma_key_index_at(r, k2, r.len() as int);
                }
            },
        }
    }
    assert forall|k2: Seq<char>| k2 != k implies vars_get(r, k2) == vars_get(vars, k2) by {
        lemma_key_index(vars, k2);
        match key_index(vars, k2) {
            Some(i) => {
                assert(r[i] == vars[i]);
            },
            None => {},
        }
    }
}

/// A table of GRUB variables, in the order in which each name was first set.
#[derive(Debug)]
pub struct GrubVars {
    entries: Vec<(Vec<char>, Vec<char>)>,
}

impl View for GrubVars {
    type V = VarSeq;

    closed spec fn view(&self) -> VarSeq {
        self.entries@.map_values(|e: (Vec<char>, Vec<char>)| (e.0@, e.1@))
    }
}

impl GrubVars {
    /// An empty table.
    pub fn new() -> (r: GrubVars)
        ensures
            r@ == Seq::<(Seq<char>, Seq<char>)>::empty(),
    {
        let r = GrubVars { entries: Vec::new() };
        assert(r@ =~= Seq::<(Seq<char>, Seq<char>)>::empty());
        r
    }

    fn index_of(&self, k: &[char]) -> (r: Option<usize>)
        ensures
            match r {
                Some(i) => key_index(self@, k@) == Some(i as int) && i < self@.len(),
                None => key_index(self@, k@) is None,
            },
    {
        let mut i: usize = 0;
        while i < self.entries.len()
            invariant
                i <= self@.len(),
                self@.len() == self.entries@.len(),
                forall|j: int| 0 <= j < i ==> #[trigger] self@[j].0 != k@,
            decreases self.entries.len() - i,
        {
            if vec_eq(&self.entries[i].0, k) {
                proof {
                    lemma_key_index_at(self@, k@, i as int);
                }
                return Some(i);
            }
            i += 1;
        }
        proof {
            lemma_key_index_at(self@, k@, i as int);
        }
        None
    }

    /// Sets `k` to `v`.
    pub fn set(&mut self, k: &[char], v: &[char])
        ensures
            final(self)@ == vars_set(old(self)@, k@, v@),
    {
        let ghost old_v = self@;
        let kv = slice_chars(k, 0, k.len());
        let vv = slice_chars(v, 0, v.len());
        assert(kv@ =~= k@);
        assert(vv@ =~= v@);
        match self.index_of(k) {
            Some(i) => {
                self.entries.set(i, (kv, vv));
                assert(self@ =~= old_v.update(i as int, (k@, v@)));
            },
            None => {
                self.entries.push((kv, vv));
                assert(self@ =~= old_v.push((k@, v@)));
            },
        }
    }

    /// The value of `k`.
    pub fn get_chars(&self, k: &[char]) -> (r: Option<Vec<char>>)
        ensures
            match r {
                Some(v) => vars_get(self@, k@) == Some(v@),
                None => vars_get(self@, k@) is None,
            },
    {
        match self.index_of(k) {
            Some(i) => {
                let v = &self.entries[i].1;
                Some(slice_chars(v, 0, v.len()))
            },
            None => None,
        }
    }

    /// Whether `k` is set.
    pub fn contains_key(&self, k: &[char]) -> (r: bool)
        ensures
            r == (key_index(self@, k@) is Some),
    {
        self.index_of(k).is_some()
    }

    /// The value of the variable `key`.
    pub fn get(&self, key: &str) -> (r: Option<String>)
        ensures
            match r {
                Some(v) => vars_get(self@, key@) == Some(v@),
                None => vars_get(self@, key@) is None,
            },
    {
        let k = chars_of(key);
        match self.get_chars(&k) {
            Some(v) => Some(string_of(&v)),
            None => None,
        }
    }

    /// The number of variables.
    pub fn len(&self) -> (r: usize)
        ensures
            r == self@.len(),
    {
        self.entries.len()
    }

    /// The `i`-th variable, as (name, value).
    pub fn entry(&self, i: usize) -> (r: (String, String))
        requires
            i < self@.len(),
        ensures
            r.0@ == self@[i as int].0,
            r.1@ == self@[i as int].1,
    {
        let e = &self.entries[i];
        (string_of(&e.0), string_of(&e.1))
    }
}

// ---------------------------------------------------------------------------
// grubenv and kernelopts
// ---------------------------------------------------------------------------

/// The variables that the lines of a grubenv file set: each line `name=value`
/// sets `name`, a later line overriding an earlier one; other lines are ignored.
pub open spec fn env_vars(ls: Seq<Seq<char>>) -> VarSeq
    decreases ls.len(),
{
    if ls.len() == 0 {
        seq![]
    } else {
        let prev = env_vars(ls.drop_last());
        match split_once(ls.last(), '=') {
            Some((k, v)) => vars_set(prev, k, v),
            None => prev,
        }
    }
}

/// `vars` with `k` set to the empty string unless it is already set.
pub open spec fn with_empty_default(vars: VarSeq, k: Seq<char>) -> VarSeq {
    if key_index(vars, k) is Some {
        vars
    } else {
        vars_set(vars, k, seq![])
    }
}

/// The value that a `set kernelopts=<rest>` line gives: `rest` trimmed of
/// whitespace, then of double quotes.
pub open spec fn kernelopts_value(rest: Seq<char>) -> Seq<char> {
    trim_char(trim(rest), '"')
}

/// The value of the first line that begins with `set kernelopts=`.
pub open spec fn first_kernelopts(ls: Seq<Seq<char>>) -> Option<Seq<char>>
    decreases ls.len(),
{
    if ls.len() == 0 {
        None
    } else if contains_str(ls[0], "set kernelopts="@) && strip_prefix(ls[0], "set kernelopts="@) is Some {
        Some(kernelopts_value(strip_prefix(ls[0], "set kernelopts="@)->0))
    } else {
        first_kernelopts(ls.drop_first())
    }
}

/// Whether line `i` opens the fallback block `if [ -z \"${kernelopts}\" ]; then`
/// and line `i + 1` is an indented `  set kernelopts=` inside it.
pub open spec fn fallback_at(ls: Seq<Seq<char>>, i: int) -> bool {
    &&& 0 <= i
    &&& i + 1 < ls.len()
    &&& contains_str(ls[i], "if [ -z \\\"${kernelopts}\\\" ]; then"@)
    &&& contains_str(ls[i + 1], "set kernelopts="@)
    &&& strip_prefix(ls[i + 1], "  set kernelopts="@) is Some
}

/// The value of the first fallback `kernelopts` definition.
pub open spec fn fallback_kernelopts(ls: Seq<Seq<char>>) -> Option<Seq<char>>
    decreases ls.len(),
{
    if ls.len() == 0 {
        None
    } else if fallback_at(ls, 0) {
        Some(kernelopts_value(strip_prefix(ls[1], "  set kernelopts="@)->0))
    } else {
        fallback_kernelopts(ls.drop_first())
    }
}

/// The GRUB variables that a grubenv file and a grub.cfg file define:
/// those of the grubenv lines; `tuned_params` and `tuned_initrd` empty
/// where unset; and, where grubenv does not set `kernelopts`, the one that
/// grub.cfg sets, a fallback definition taking precedence.
pub open spec fn spec_parse_grub_env_vars(env: Seq<char>, cfg: Seq<char>) -> VarSeq {
    let v1 = with_empty_default(
        with_empty_default(env_vars(lines(env)), "tuned_params"@),
        "tuned_initrd"@,
    );
    if key_index(v1, "kernelopts"@) is Some {
        v1
    } else {
        let cl = lines(cfg);
        let v2 = match first_kernelopts(cl) {
            Some(o) => vars_set(v1, "kernelopts"@, o),
            None => v1,
        };
        match fallback_kernelopts(cl) {
            Some(o) => vars_set(v2, "kernelopts"@, o),
            None => v2,
        }
    }
}

/// The variables that a grubenv file sets have distinct names.
pub proof fn lemma_env_vars_unique(ls: Seq<Seq<char>>)
    ensures
        keys_unique(env_vars(ls)),
    decreases ls.len(),
{
    if ls.len() > 0 {
        lemma_env_vars_unique(ls.drop_last());
        match split_once(ls.last(), '=') {
            Some((k, v)) => lemma_vars_set_unique(env_vars(ls.drop_last()), k, v),
            None => {},
        }
    }
}

/// Defaulting a variable to empty keeps the names distinct, defines the
/// variable, and leaves every other variable as it was.
proof fn lemma_with_empty_default(vars: VarSeq, k: Seq<char>)
    requires
        keys_unique(vars),
    ensures
        keys_unique(with_empty_default(vars, k)),
        vars_get(with_empty_default(vars, k), k) is Some,
        forall|k2: Seq<char>| k2 != k ==> vars_get(with_empty_default(vars, k), k2) == vars_get(vars, k2),
{
    if key_index(vars, k) is None {
        lemma_vars_set_unique(vars, k, seq![]);
    }
}

/// The variables parsed from grubenv and grub.cfg have distinct names;
/// `tuned_params` and `tuned_initrd` are always defined; and a `kernelopts`
/// that grubenv sets is the one in force, whatever grub.cfg says.
pub proof fn lemma_parse_grub_env_vars(env: Seq<char>, cfg: Seq<char>)
    ensures
        keys_unique(spec_parse_grub_env_vars(env, cfg)),
        vars_get(spec_parse_grub_env_vars(env, cfg), "tuned_params"@) is Some,
        vars_get(spec_parse_grub_env_vars(env, cfg), "tuned_initrd"@) is Some,
        vars_get(env_vars(lines(env)), "kernelopts"@) matches Some(o) ==> vars_get(
            spec_parse_grub_env_vars(env, cfg),
            "kernelopts"@,
        ) == Some(o),
{
    reveal_strlit("tuned_params");
    reveal_strlit("tuned_initrd");
    reveal_strlit("kernelopts");
    let tp = "tuned_params"@;
    let ti = "tuned_initrd"@;
    let ko = "kernelopts"@;
    assert(tp != ti) by {
        assert(tp[6] != ti[6]);
    }
    assert(tp != ko) by {
        assert(tp.len() != ko.len());
    }
    assert(ti != ko) by {
        assert(ti.len() != ko.len());
    }
    let v0 = env_vars(lines(env));
    lemma_env_vars_unique(lines(env));
    let va = with_empty_default(v0, tp);
    lemma_with_empty_default(v0, tp);
    let v1 = with_empty_default(va, ti);
    lemma_with_empty_default(va, ti);
    lemma_key_index(v1, ko);
    if key_index(v1, ko) is None {
        let cl = lines(cfg);
        let v2 = match first_kernelopts(cl) {
            Some(o) => vars_set(v1, ko, o),
            None => v1,
        };
        match first_kernelopts(cl) {
            Some(o) => lemma_vars_set_unique(v1, ko, o),
            None => {},
        }
        match fallback_kernelopts(cl) {
            Some(o) => lemma_vars_set_unique(v2, ko, o),
            None => {},
        }
    }
}

proof fn lemma_vars_set_keeps_unique(vars: VarSeq, k: Seq<char>, v: Seq<char>)
    requires
        keys_unique(vars),
    ensures
        keys_unique(vars_set(vars, k, v)),
{
    lemma_vars_set_unique(vars, k, v);
}

fn env_vars_exec(env_lines: &Vec<Vec<char>>) -> (vars: GrubVars)
    ensures
        vars@ == env_vars(views(env_lines@)),
        keys_unique(vars@),
{
    let ghost el = views(env_lines@);
    let mut vars = GrubVars::new();
    let mut i: usize = 0;
    while i < env_lines.len()
        invariant
            i <= env_lines@.len(),
            el == views(env_lines@),
            vars@ == env_vars(el.take(i as int)),
            keys_unique(vars@),
        decreases env_lines.len() - i,
    {
        let line = &env_lines[i];
        proof {
            assert(el.take(i + 1).drop_last() =~= el.take(i as int));
            assert(el.take(i + 1).last() == line@);
        }
        match split_once_exec(line, '=') {
            Some((k, v)) => {
                proof {
                    lemma_vars_set_keeps_unique(vars@, k@, v@);
                }
                vars.set(&k, &v);
            },
            None => {},
        }
        i += 1;
    }
    proof {
        assert(el.take(el.len() as int) =~= el);
    }
    vars
}

fn first_kernelopts_exec(cfg_lines: &Vec<Vec<char>>) -> (r: Option<Vec<char>>)
    ensures
        match r {
            Some(v) => first_kernelopts(views(cfg_lines@)) == Some(v@),
            None => first_kernelopts(views(cfg_lines@)) is None,
        },
{
    let ghost cl = views(cfg_lines@);
    let set_prefix = chars_of("set kernelopts=");
    let mut i: usize = 0;
    proof {
        assert(cl.skip(0) =~= cl);
    }
    while i < cfg_lines.len()
        invariant
            i <= cfg_lines@.len(),
            cl == views(cfg_lines@),
            first_kernelopts(cl) == first_kernelopts(cl.skip(i as int)),
            set_prefix@ == "set kernelopts="@,
        decreases cfg_lines.len() - i,
    {
        let line = &cfg_lines[i];
        proof {
            assert(cl.skip(i as int)[0] == line@);
            assert(cl.skip(i as int).drop_first() =~= cl.skip(i + 1));
        }
        if contains_str_exec(line, &set_prefix) {
            match strip_prefix_exec(line, &set_prefix) {
                Some(rest) => {
                    let t = trim_chars(&rest);
                    let value = trim_char_chars(&t, '"');
                    return Some(value);
                },
                None => {},
            }
        }
        i += 1;
    }
    proof {
        assert(cl.skip(i as int) =~= Seq::<Seq<char>>::empty());
    }
    None
}

fn fallback_kernelopts_exec(cfg_lines: &Vec<Vec<char>>) -> (r: Option<Vec<char>>)
    ensures
        match r {
            Some(v) => fallback_kernelopts(views(cfg_lines@)) == Some(v@),
            None => fallback_kernelopts(views(cfg_lines@)) is None,
        },
{
    let ghost cl = views(cfg_lines@);
    let set_prefix = chars_of("set kernelopts=");
    let marker = chars_of("if [ -z \\\"${kernelopts}\\\" ]; then");
    let indented_prefix = chars_of("  set kernelopts=");
    let mut i: usize = 0;
    proof {
        assert(cl.skip(0) =~= cl);
    }
    while i < cfg_lines.len()
        invariant
            i <= cfg_lines@.len(),
            cl == views(cfg_lines@),
            fallback_kernelopts(cl) == fallback_kernelopts(cl.skip(i as int)),
            set_prefix@ == "set kernelopts="@,
            marker@ == "if [ -z \\\"${kernelopts}\\\" ]; then"@,
            indented_prefix@ == "  set kernelopts="@,
        decreases cfg_lines.len() - i,
    {
        let line = &cfg_lines[i];
        let ghost t = cl.skip(i as int);
        proof {
            assert(t[0] == line@);
            assert(t.drop_first() =~= cl.skip(i + 1));
        }
        if contains_str_exec(line, &marker) && i + 1 < cfg_lines.len() {
            let next = &cfg_lines[i + 1];
            proof {
                assert(t[1] == next@);
            }
            if contains_str_exec(next, &set_prefix) {
                match strip_prefix_exec(next, &indented_prefix) {
                    Some(rest) => {
                        let tr = trim_chars(&rest);
                        let value = trim_char_chars(&tr, '"');
                        return Some(value);
                    },
                    None => {},
                }
            }
        }
        i += 1;
    }
    proof {
        assert(cl.skip(i as int) =~= Seq::<Seq<char>>::empty());
    }
    None
}

/// Parses the variables of a grubenv file, falling back to grub.cfg for
/// `kernelopts`.
pub fn parse_grub_env_vars(grub_env: &str, grub_cfg: &str) -> (r: GrubVars)
    ensures
        r@ == spec_parse_grub_env_vars(grub_env@, grub_cfg@),
        keys_unique(r@),
{
    let env = chars_of(grub_env);
    let env_lines = lines_exec(&env);
    let mut vars = env_vars_exec(&env_lines);
    let empty: Vec<char> = Vec::new();
    assert(empty@ =~= Seq::<char>::empty());
    let tuned_params = chars_of("tuned_params");
    if !vars.contains_key(&tuned_params) {
        proof {
            lemma_vars_set_keeps_unique(vars@, tuned_params@, empty@);
        }
        vars.set(&tuned_params, &empty);
    }
    let tuned_initrd = chars_of("tuned_initrd");
    if !vars.contains_key(&tuned_initrd) {
        proof {
            lemma_vars_set_keeps_unique(vars@, tuned_initrd@, empty@);
        }
        vars.set(&tuned_initrd, &empty);
    }
    let kernelopts = chars_of("kernelopts");
    if vars.contains_key(&kernelopts) {
        return vars;
    }
    let cfg = chars_of(grub_cfg);
    let cfg_lines = lines_exec(&cfg);
    match first_kernelopts_exec(&cfg_lines) {
        Some(value) => {
            proof {
                lemma_vars_set_keeps_unique(vars@, kernelopts@, value@);
            }
            vars.set(&kernelopts, &value);
        },
        None => {},
    }
    match fallback_kernelopts_exec(&cfg_lines) {
        Some(value) => {
            proof {
                lemma_vars_set_keeps_unique(vars@, kernelopts@, value@);
            }
            vars.set(&kernelopts, &value);
        },
        None => {},
    }
    vars
}

// ---------------------------------------------------------------------------
// Menu entries of grub.cfg
// ---------------------------------------------------------------------------

/// The state of a scan of grub.cfg for a menu entry: inside the entry, past
/// its end, its `linuxefi` line and its `initrdefi` line.
pub type MenuScan = (bool, bool, Option<Seq<char>>, Option<Seq<char>>);

/// One line of the scan. Lines are trimmed; a `menuentry` line that names the
/// entry enters it, a `}` inside it ends the scan, and inside it the last
/// `linuxefi` and `initrdefi` lines are kept.
pub open spec fn menu_step(st: MenuScan, raw: Seq<char>, saved_entry: Seq<char>) -> MenuScan {
    let line = trim(raw);
    if st.1 {
        st
    } else if starts_with(line, "menuentry"@) && contains_str(line, saved_entry) {
        (true, false, st.2, st.3)
    } else if st.0 && line == "}"@ {
        (st.0, true, st.2, st.3)
    } else if st.0 && starts_with(line, "linuxefi"@) {
        (st.0, st.1, Some(line), st.3)
    } else if st.0 && starts_with(line, "initrdefi"@) {
        (st.0, st.1, st.2, Some(line))
    } else {
        st
    }
}

/// The state after scanning the lines of grub.cfg for the menu entry of
/// `saved_entry`.
pub open spec fn menu_scan(ls: Seq<Seq<char>>, saved_entry: Seq<char>) -> MenuScan
    decreases ls.len(),
{
    if ls.len() == 0 {
        (false, false, None, None)
    } else {
        menu_step(menu_scan(ls.drop_last(), saved_entry), ls.last(), saved_entry)
    }
}

/// `s` up to its first space.
pub open spec fn cut_at_space(s: Seq<char>) -> Seq<char> {
    match split_once(s, ' ') {
        Some((a, _)) => a,
        None => s,
    }
}

/// An absolute path outside `/boot` moved under `/boot`.
pub open spec fn under_boot(p: Seq<char>) -> Seq<char> {
    if strip_prefix(p, seq!['/']) is Some && !starts_with(p, "/boot"@) {
        "/boot/"@ + p.skip(1)
    } else {
        p
    }
}

/// A command line with double spaces made single, then trimmed.
pub open spec fn clean_cmdline(c: Seq<char>) -> Seq<char> {
    trim(replace(c, "  "@, " "@))
}

/// The kernel path and command line of a `linuxefi <path> <cmdline>` line.
pub open spec fn kernel_line_parts(kl: Option<Seq<char>>) -> (Seq<char>, Seq<char>) {
    match kl {
        Some(l) => match split_once(l, ' ') {
            Some((_, rest)) => match split_once(rest, ' ') {
                Some((p, c)) => (p, c),
                None => (rest, seq![]),
            },
            None => (seq![], seq![]),
        },
        None => (seq![], seq![]),
    }
}

/// The initrd path of an `initrdefi <path>` line.
pub open spec fn initrd_line_path(il: Option<Seq<char>>) -> Seq<char> {
    match il {
        Some(l) => match split_once(l, ' ') {
            Some((_, rest)) => cut_at_space(rest),
            None => seq![],
        },
        None => seq![],
    }
}

/// The kernel path, initrd path and command line that the menu entry of
/// grub.cfg named `saved_entry` boots.
pub open spec fn spec_load_from_grub_cfg(saved_entry: Seq<char>, grub_cfg: Seq<char>) -> (
    Seq<char>,
    Seq<char>,
    Seq<char>,
) {
    let st = menu_scan(lines(grub_cfg), saved_entry);
    let (kp, c) = kernel_line_parts(st.2);
    (under_boot(kp), under_boot(initrd_line_path(st.3)), clean_cmdline(c))
}

fn cut_at_space_exec(s: &[char]) -> (r: Vec<char>)
    ensures
        r@ == cut_at_space(s@),
{
    match split_once_exec(s, ' ') {
        Some((a, _)) => a,
        None => slice_chars(s, 0, s.len()),
    }
}

fn under_boot_exec(p: &[char]) -> (r: Vec<char>)
    ensures
        r@ == under_boot(p@),
{
    let slash = vec!['/'];
    let boot = chars_of("/boot");
    match strip_prefix_exec(p, &slash) {
        Some(rest) => {
            if !starts_with_exec(p, &boot) {
                let mut r = chars_of("/boot/");
                let ghost r0 = r@;
                let mut i: usize = 0;
                while i < rest.len()
                    invariant
                        i <= rest@.len(),
                        r@ == r0 + rest@.take(i as int),
                    decreases rest.len() - i,
                {
                    r.push(rest[i]);
                    i += 1;
                    assert(r@ =~= r0 + rest@.take(i as int));
                }
                assert(rest@.take(rest@.len() as int) =~= rest@);
                assert(slash@ =~= seq!['/']);
                return r;
            }
            slice_chars(p, 0, p.len())
        },
        None => {
            assert(slash@ =~= seq!['/']);
            slice_chars(p, 0, p.len())
        },
    }
}

fn clean_cmdline_exec(c: &[char]) -> (r: Vec<char>)
    ensures
        r@ == clean_cmdline(c@),
{
    let two = chars_of("  ");
    let one = chars_of(" ");
    proof {
        reveal_strlit("  ");
    }
    let t = replace_exec(c, &two, &one);
    trim_chars(&t)
}

fn menu_scan_exec(cfg_lines: &Vec<Vec<char>>, saved_entry: &[char]) -> (r: (
    Option<Vec<char>>,
    Option<Vec<char>>,
))
    ensures
        match r.0 {
            Some(v) => menu_scan(views(cfg_lines@), saved_entry@).2 == Some(v@),
            None => menu_scan(views(cfg_lines@), saved_entry@).2 is None,
        },
        match r.1 {
            Some(v) => menu_scan(views(cfg_lines@), saved_entry@).3 == Some(v@),
            None => menu_scan(views(cfg_lines@), saved_entry@).3 is None,
        },
{
    let ghost cl = views(cfg_lines@);
    let menuentry = chars_of("menuentry");
    let close = chars_of("}");
    let linuxefi = chars_of("linuxefi");
    let initrdefi = chars_of("initrdefi");
    let mut in_target = false;
    let mut done = false;
    let mut kernel_line: Option<Vec<char>> = None;
    let mut initrd_line: Option<Vec<char>> = None;
    let mut i: usize = 0;
    while i < cfg_lines.len()
        invariant
            i <= cfg_lines@.len(),
            cl == views(cfg_lines@),
            menuentry@ == "menuentry"@,
            close@ == "}"@,
            linuxefi@ == "linuxefi"@,
            initrdefi@ == "initrdefi"@,
            ({
                let st = menu_scan(cl.take(i as int), saved_entry@);
                &&& st.0 == in_target
                &&& st.1 == done
                &&& match kernel_line {
                    Some(v) => st.2 == Some(v@),
                    None => st.2 is None,
                }
                &&& match initrd_line {
                    Some(v) => st.3 == Some(v@),
                    None => st.3 is None,
                }
            }),
        decreases cfg_lines.len() - i,
    {
        proof {
            assert(cl.take(i + 1).drop_last() =~= cl.take(i as int));
            assert(cl.take(i + 1).last() == cfg_lines@[i as int]@);
        }
        if !done {
            let line = trim_chars(&cfg_lines[i]);
            if starts_with_exec(&line, &menuentry) && contains_str_exec(&line, saved_entry) {
                in_target = true;
            } else if in_target && vec_eq(&line, &close) {
                done = true;
            } else if in_target && starts_with_exec(&line, &linuxefi) {
                kernel_line = Some(line);
            } else if in_target && starts_with_exec(&line, &initrdefi) {
                initrd_line = Some(line);
            }
        }
        i += 1;
    }
    proof {
        assert(cl.take(cl.len() as int) =~= cl);
    }
    (kernel_line, initrd_line)
}

/// The kernel path, initrd path and command line of the grub.cfg menu entry
/// named `saved_entry`.
pub fn load_from_grub_cfg(saved_entry: &str, grub_cfg: &str) -> (r: (String, String, String))
    ensures
        (r.0@, r.1@, r.2@) == spec_load_from_grub_cfg(saved_entry@, grub_cfg@),
{
    let saved = chars_of(saved_entry);
    let cfg = chars_of(grub_cfg);
    let cfg_lines = lines_exec(&cfg);
    let (kernel_line, initrd_line) = menu_scan_exec(&cfg_lines, &saved);
    let ghost st = menu_scan(views(cfg_lines@), saved@);
    let empty: Vec<char> = Vec::new();
    assert(empty@ =~= Seq::<char>::empty());
    let (kp, c) = match &kernel_line {
        Some(l) => match split_once_exec(l, ' ') {
            Some((_, rest)) => match split_once_exec(&rest, ' ') {
                Some((p, c)) => (p, c),
                None => (rest, Vec::new()),
            },
            None => (Vec::new(), Vec::new()),
        },
        None => (Vec::new(), Vec::new()),
    };
    assert((kp@, c@) == kernel_line_parts(st.2));
    let ip = match &initrd_line {
        Some(l) => match split_once_exec(l, ' ') {
            Some((_, rest)) => cut_at_space_exec(&rest),
            None => Vec::new(),
        },
        None => Vec::new(),
    };
    assert(ip@ == initrd_line_path(st.3));
    let kernel_path = under_boot_exec(&kp);
    let initrd_path = under_boot_exec(&ip);
    let cmdline = clean_cmdline_exec(&c);
    (string_of(&kernel_path), string_of(&initrd_path), string_of(&cmdline))
}

// ---------------------------------------------------------------------------
// Boot loader entries
// ---------------------------------------------------------------------------

/// The path of the boot loader entry file for `saved_entry`.
pub open spec fn spec_loader_entry_path(saved_entry: Seq<char>) -> Seq<char> {
    "/boot/loader/entries/"@ + saved_entry + ".conf"@
}

/// The path of the loader entry file of a saved entry.
pub fn loader_entry_path(saved_entry: &str) -> (r: String)
    ensures
        r@ == spec_loader_entry_path(saved_entry@),
{
    let mut v = chars_of("/boot/loader/entries/");
    let e = chars_of(saved_entry);
    let suffix = chars_of(".conf");
    append_chars(&mut v, &e);
    append_chars(&mut v, &suffix);
    string_of(&v)
}

/// The value of a `key value` line: what follows the first space, trimmed.
pub open spec fn field_value(line: Seq<char>) -> Seq<char> {
    match split_once(line, ' ') {
        Some((_, rest)) => trim(rest),
        None => seq![],
    }
}

/// One line of a loader entry: the last `linux `, `options ` and `initrd `
/// lines give the kernel path, the command line and the initrd path.
pub open spec fn entry_step(st: (Seq<char>, Seq<char>, Seq<char>), line: Seq<char>) -> (
    Seq<char>,
    Seq<char>,
    Seq<char>,
) {
    if starts_with(line, "linux "@) {
        (field_value(line), st.1, st.2)
    } else if starts_with(line, "options "@) {
        (st.0, field_value(line), st.2)
    } else if starts_with(line, "initrd "@) {
        (st.0, st.1, field_value(line))
    } else {
        st
    }
}

/// The kernel path, command line and initrd path that the lines of a loader
/// entry set; a later line overrides an earlier one.
pub open spec fn entry_scan(ls: Seq<Seq<char>>) -> (Seq<char>, Seq<char>, Seq<char>)
    decreases ls.len(),
{
    if ls.len() == 0 {
        (seq![], seq![], seq![])
    } else {
        entry_step(entry_scan(ls.drop_last()), ls.last())
    }
}

/// `s` with `$name` replaced by the value of each variable, the variables
/// taken in order.
pub open spec fn substitute(vars: VarSeq, s: Seq<char>) -> Seq<char>
    decreases vars.len(),
{
    if vars.len() == 0 {
        s
    } else {
        replace(substitute(vars.drop_last(), s), seq!['$'] + vars.last().0, vars.last().1)
    }
}

/// The kernel path, initrd path and command line that a boot loader entry
/// gives, with the GRUB variables substituted in the command line and the
/// initrd path.
pub open spec fn spec_parse_loader_entry(entry: Seq<char>, vars: VarSeq) -> (
    Seq<char>,
    Seq<char>,
    Seq<char>,
) {
    let (k, c, i) = entry_scan(lines(entry));
    (cut_at_space(k), cut_at_space(substitute(vars, i)), clean_cmdline(substitute(vars, c)))
}

fn field_value_exec(line: &[char]) -> (r: Vec<char>)
    ensures
        r@ == field_value(line@),
{
    match split_once_exec(line, ' ') {
        Some((_, rest)) => trim_chars(&rest),
        None => Vec::new(),
    }
}

impl GrubVars {
    /// `s` with `$name` replaced by the value of each variable, in order.
    pub fn substitute_chars(&self, s: &[char]) -> (r: Vec<char>)
        ensures
            r@ == substitute(self@, s@),
    {
        let mut r = slice_chars(s, 0, s.len());
        let mut i: usize = 0;
        assert(self@.take(0) =~= Seq::<(Seq<char>, Seq<char>)>::empty());
        assert(r@ =~= s@);
        while i < self.entries.len()
            invariant
                i <= self@.len(),
                self@.len() == self.entries@.len(),
                r@ == substitute(self@.take(i as int), s@),
            decreases self.entries.len() - i,
        {
            let mut pat: Vec<char> = Vec::new();
            pat.push('$');
            append_chars(&mut pat, &self.entries[i].0);
            assert(pat@ =~= seq!['$'] + self@[i as int].0);
            r = replace_exec(&r, &pat, &self.entries[i].1);
            proof {
                assert(self@.take(i + 1).drop_last() =~= self@.take(i as int));
                assert(self@.take(i + 1).last() == self@[i as int]);
            }
            i += 1;
        }
        assert(self@.take(self@.len() as int) =~= self@);
        r
    }
}

/// The kernel path, initrd path and command line of a boot loader entry.
pub fn parse_loader_entry(entry_content: &str, grub_vars: &GrubVars) -> (r: (
    String,
    String,
    String,
))
    ensures
        (r.0@, r.1@, r.2@) == spec_parse_loader_entry(entry_content@, grub_vars@),
{
    let content = chars_of(entry_content);
    let ls = lines_exec(&content);
    let ghost gl = views(ls@);
    let linux = chars_of("linux ");
    let options = chars_of("options ");
    let initrd = chars_of("initrd ");
    let mut k: Vec<char> = Vec::new();
    let mut c: Vec<char> = Vec::new();
    let mut ip: Vec<char> = Vec::new();
    let mut i: usize = 0;
    assert(gl.take(0) =~= Seq::<Seq<char>>::empty());
    assert(k@ =~= Seq::<char>::empty());
    while i < ls.len()
        invariant
            i <= ls@.len(),
            gl == views(ls@),
            linux@ == "linux "@,
            options@ == "options "@,
            initrd@ == "initrd "@,
            entry_scan(gl.take(i as int)) == (k@, c@, ip@),
        decreases ls.len() - i,
    {
        let line = &ls[i];
        proof {
            assert(gl.take(i + 1).drop_last() =~= gl.take(i as int));
            assert(gl.take(i + 1).last() == line@);
        }
        if starts_with_exec(line, &linux) {
            k = field_value_exec(line);
        } else if starts_with_exec(line, &options) {
            c = field_value_exec(line);
        } else if starts_with_exec(line, &initrd) {
            ip = field_value_exec(line);
        }
        i += 1;
    }
    assert(gl.take(gl.len() as int) =~= gl);
    let c2 = grub_vars.substitute_chars(&c);
    let i2 = grub_vars.substitute_chars(&ip);
    let cmdline = clean_cmdline_exec(&c2);
    let initrd_path = cut_at_space_exec(&i2);
    let kernel_path = cut_at_space_exec(&k);
    (string_of(&kernel_path), string_of(&initrd_path), string_of(&cmdline))
}

// ---------------------------------------------------------------------------
// Devices, partition tables and kernel command lines
// ---------------------------------------------------------------------------

/// Partition table type.
#[derive(Debug, Clone, Copy, PartialEq, Eq, Structural)]
pub enum PartitionTableType {
    Mbr,
    Gpt,
}

/// The partition table type that `fdisk -l` reports: the first line that
/// names `gpt` or `dos` decides, and GPT is assumed where none does.
pub open spec fn table_type_of_lines(ls: Seq<Seq<char>>) -> PartitionTableType
    decreases ls.len(),
{
    if ls.len() == 0 {
        PartitionTableType::Gpt
    } else if contains_str(ls[0], "Disklabel type: gpt"@) {
        PartitionTableType::Gpt
    } else if contains_str(ls[0], "Disklabel type: dos"@) {
        PartitionTableType::Mbr
    } else {
        table_type_of_lines(ls.drop_first())
    }
}

/// The partition table type named in the output of `fdisk -l`, GPT where the
/// output names none.
pub fn parse_partition_table_type(fdisk_output: &str) -> (r: PartitionTableType)
    ensures
        r == table_type_of_lines(lines(fdisk_output@)),
{
    let out = chars_of(fdisk_output);
    let ls = lines_exec(&out);
    let ghost gl = views(ls@);
    let gpt = chars_of("Disklabel type: gpt");
    let dos = chars_of("Disklabel type: dos");
    let mut i: usize = 0;
    assert(gl.skip(0) =~= gl);
    while i < ls.len()
        invariant
            i <= ls@.len(),
            gl == views(ls@),
            gl == lines(fdisk_output@),
            gpt@ == "Disklabel type: gpt"@,
            dos@ == "Disklabel type: dos"@,
            table_type_of_lines(gl) == table_type_of_lines(gl.skip(i as int)),
        decreases ls.len() - i,
    {
        proof {
            assert(gl.skip(i as int)[0] == ls@[i as int]@);
            assert(gl.skip(i as int).drop_first() =~= gl.skip(i + 1));
        }
        if contains_str_exec(&ls[i], &gpt) {
            return PartitionTableType::Gpt;
        } else if contains_str_exec(&ls[i], &dos) {
            return PartitionTableType::Mbr;
        }
        i += 1;
    }
    assert(gl.skip(i as int) =~= Seq::<Seq<char>>::empty());
    PartitionTableType::Gpt
}

/// `s` without the run of ASCII digits that ends it.
pub open spec fn strip_trailing_digits(s: Seq<char>) -> Seq<char>
    decreases s.len(),
{
    if s.len() > 0 && is_digit(s.last()) {
        strip_trailing_digits(s.drop_last())
    } else {
        s
    }
}

/// The disk of a partition device: the partition number (the run of digits
/// that ends at the last digit) and what follows it are removed, and then a
/// `p` that ends the rest (`/dev/sda12` gives `/dev/sda`, `/dev/nvme0n1p3`
/// gives `/dev/nvme0n1`); a path without digits is its own disk.
pub open spec fn spec_disk_root_device(part_dev: Seq<char>) -> Seq<char> {
    match last_digit_index(part_dev) {
        Some(pos) => {
            let d = strip_trailing_digits(part_dev.take(pos + 1));
            if d.len() > 0 && d.last() == 'p' {
                d.drop_last()
            } else {
                d
            }
        },
        None => part_dev,
    }
}

/// The disk device that holds the partition device `part_dev`.
pub fn get_disk_root_device(part_dev: &str) -> (r: String)
    ensures
        r@ == spec_disk_root_device(part_dev@),
{
    let s = chars_of(part_dev);
    match last_digit_index_exec(&s) {
        Some(pos) => {
            assert(pos < s.len());
            let mut i: usize = pos + 1;
            while i > 0 && '0' <= s[i - 1] && s[i - 1] <= '9'
                invariant
                    pos < s@.len(),
                    i <= pos + 1,
                    strip_trailing_digits(s@.take(pos + 1)) == strip_trailing_digits(
                        s@.take(i as int),
                    ),
                decreases i,
            {
                assert(s@.take(i as int).drop_last() =~= s@.take(i - 1));
                i -= 1;
            }
            let mut d = slice_chars(&s, 0, i);
            assert(d@ =~= s@.take(i as int));
            if d.len() > 0 && d[d.len() - 1] == 'p' {
                d.pop();
            }
            string_of(&d)
        },
        None => string_of(&s),
    }
}

/// The partition number at the end of a partition device path.
pub open spec fn partition_number(dev: Seq<char>) -> Option<u32> {
    parse_digits_u32(trailing_digits(dev))
}

/// How GRUB names the first disk's partition `n`: `(hd0,gpt<n>)` or `(hd0,msdos<n>)`.
pub open spec fn device_identifier(t: PartitionTableType, n: nat) -> Seq<char> {
    match t {
        PartitionTableType::Gpt => "(hd0,gpt"@ + decimal(n) + seq![')'],
        PartitionTableType::Mbr => "(hd0,msdos"@ + decimal(n) + seq![')'],
    }
}

/// A path relative to `/boot` made absolute (`Path::new("/boot").join(p)`).
pub open spec fn absolute_in_boot(p: Seq<char>) -> Seq<char> {
    if p.len() > 0 && p[0] == '/' {
        p
    } else {
        "/boot/"@ + p
    }
}

/// A path with a leading `/boot` removed.
pub open spec fn strip_boot(p: Seq<char>) -> Seq<char> {
    match strip_prefix(p, "/boot"@) {
        Some(r) => r,
        None => p,
    }
}

/// The two kernel command lines that GRUB may measure for the kernel at
/// `kernel_path` booted with `cmdline` from the partition `boot_dev`: one with
/// the path relative to the boot partition, one with the path behind the
/// GRUB device name of that partition.
pub open spec fn spec_kernel_cmdlines(
    kernel_path: Seq<char>,
    cmdline: Seq<char>,
    boot_dev: Seq<char>,
    t: PartitionTableType,
) -> Option<Seq<Seq<char>>> {
    match partition_number(boot_dev) {
        Some(n) => Some(
            seq![
                strip_boot(kernel_path) + seq![' '] + cmdline,
                device_identifier(t, n as nat) + kernel_path + seq![' '] + cmdline,
            ],
        ),
        None => None,
    }
}

/// The kernel command lines that GRUB measures, in terms of the kernel path
/// and command line: there are two exactly when the boot device ends in a
/// partition number. The first is the kernel path relative to the boot
/// partition (a leading `/boot` removed, any other path unchanged), a space
/// and the command line; the second names a partition of the first disk,
/// `(hd0,...)`, followed by the kernel path as given, a space and the
/// command line.
pub proof fn lemma_kernel_cmdlines(
    kernel_path: Seq<char>,
    cmdline: Seq<char>,
    boot_dev: Seq<char>,
    t: PartitionTableType,
)
    ensures
        spec_kernel_cmdlines(kernel_path, cmdline, boot_dev, t) is Some <==> partition_number(
            boot_dev,
        ) is Some,
        spec_kernel_cmdlines(kernel_path, cmdline, boot_dev, t) matches Some(v) ==> {
            &&& v.len() == 2
            &&& starts_with(kernel_path, "/boot"@) ==> v[0] == kernel_path.skip(5) + seq![' ']
                + cmdline
            &&& !starts_with(kernel_path, "/boot"@) ==> v[0] == kernel_path + seq![' '] + cmdline
            &&& starts_with(v[1], "(hd0,"@)
            &&& v[1].len() >= kernel_path.len() + 1 + cmdline.len()
            &&& v[1].skip(v[1].len() - kernel_path.len() - 1 - cmdline.len()) == kernel_path
                + seq![' '] + cmdline
        },
{
    reveal_strlit("/boot");
    reveal_strlit("(hd0,");
    reveal_strlit("(hd0,gpt");
    reveal_strlit("(hd0,msdos");
    if let Some(n) = partition_number(boot_dev) {
        let v = spec_kernel_cmdlines(kernel_path, cmdline, boot_dev, t)->0;
        let id = device_identifier(t, n as nat);
        let rest = kernel_path + seq![' '] + cmdline;
        assert(v[1] == id + rest);
        assert((id + rest).skip(id.len() as int) =~= rest);
        assert((id + rest).take(5) =~= "(hd0,"@);
        if starts_with(kernel_path, "/boot"@) {
            assert(strip_boot(kernel_path) == kernel_path.skip(5));
        } else {
            assert(strip_boot(kernel_path) == kernel_path);
        }
    }
}

/// Errors in reading the boot entry that GRUB boots.
#[derive(Debug, PartialEq, Eq)]
pub enum GrubError {
    /// The GRUB environment does not set `saved_entry`.
    SavedEntryNotFound,
    /// The boot partition device path ends in no partition number.
    NoPartitionNumber(String),
}

fn absolute_in_boot_exec(p: &[char]) -> (r: Vec<char>)
    ensures
        r@ == absolute_in_boot(p@),
{
    if p.len() > 0 && p[0] == '/' {
        slice_chars(p, 0, p.len())
    } else {
        let mut r = chars_of("/boot/");
        append_chars(&mut r, p);
        r
    }
}

/// The kernel path, initrd path and command line of the entry that GRUB
/// boots: the one that `saved_entry` names, read from its loader entry file
/// where one was read, else from its grub.cfg menu entry; relative paths are
/// taken under `/boot`.
pub open spec fn spec_kernel_boot_entry(
    vars: VarSeq,
    grub_cfg: Seq<char>,
    loader_entry: Option<Seq<char>>,
) -> Option<(Seq<char>, Seq<char>, Seq<char>)> {
    match vars_get(vars, "saved_entry"@) {
        None => None,
        Some(saved) => {
            let (k, i, c) = match loader_entry {
                Some(e) => spec_parse_loader_entry(e, vars),
                None => spec_load_from_grub_cfg(saved, grub_cfg),
            };
            Some((absolute_in_boot(k), absolute_in_boot(i), c))
        },
    }
}

/// The view of an optional string.
pub open spec fn opt_str_view(o: Option<&str>) -> Option<Seq<char>> {
    match o {
        Some(s) => Some(s@),
        None => None,
    }
}

/// The kernel path, initrd path and command line of the entry that GRUB boots.
/// `loader_entry` is the content of the loader entry file of `saved_entry`,
/// where it could be read.
pub fn kernel_boot_entry(grub_vars: &GrubVars, grub_cfg: &str, loader_entry: Option<&str>) -> (r:
    Result<(String, String, String), GrubError>)
    ensures
        match r {
            Ok(t) => spec_kernel_boot_entry(grub_vars@, grub_cfg@, opt_str_view(loader_entry))
                == Some((t.0@, t.1@, t.2@)),
            Err(e) => e is SavedEntryNotFound && spec_kernel_boot_entry(
                grub_vars@,
                grub_cfg@,
                opt_str_view(loader_entry),
            ) is None,
        },
{
    let saved = match grub_vars.get("saved_entry") {
        Some(s) => s,
        None => return Err(GrubError::SavedEntryNotFound),
    };
    let (k, i, c) = match loader_entry {
        Some(e) => parse_loader_entry(e, grub_vars),
        None => load_from_grub_cfg(saved.as_str(), grub_cfg),
    };
    let kc = chars_of(k.as_str());
    let ic = chars_of(i.as_str());
    let ka = absolute_in_boot_exec(&kc);
    let ia = absolute_in_boot_exec(&ic);
    Ok((string_of(&ka), string_of(&ia), c))
}

/// The two kernel command lines that GRUB may measure; an error where
/// `boot_dev` ends in no partition number that fits in a `u32`.
pub fn kernel_cmdlines(
    kernel_path: &str,
    cmdline: &str,
    boot_dev: &str,
    table_type: PartitionTableType,
) -> (r: Result<Vec<String>, GrubError>)
    ensures
        match r {
            Ok(v) => spec_kernel_cmdlines(kernel_path@, cmdline@, boot_dev@, table_type)
                == Some(v@.map_values(|s: String| s@)),
            Err(e) => e is NoPartitionNumber && spec_kernel_cmdlines(
                kernel_path@,
                cmdline@,
                boot_dev@,
                table_type,
            ) is None,
        },
{
    let dev = chars_of(boot_dev);
    let digits = trailing_digits_exec(&dev);
    let n = match parse_digits_u32_exec(&digits) {
        Some(n) => n,
        None => {
            let d = string_of(&dev);
            return Err(GrubError::NoPartitionNumber(d));
        },
    };
    let k = chars_of(kernel_path);
    let c = chars_of(cmdline);
    let boot = chars_of("/boot");
    let short_path = match strip_prefix_exec(&k, &boot) {
        Some(r) => r,
        None => slice_chars(&k, 0, k.len()),
    };
    let mut first = short_path;
    first.push(' ');
    append_chars(&mut first, &c);
    let mut second = match table_type {
        PartitionTableType::Gpt => chars_of("(hd0,gpt"),
        PartitionTableType::Mbr => chars_of("(hd0,msdos"),
    };
    let num = decimal_exec(n as u64);
    append_chars(&mut second, &num);
    second.push(')');
    append_chars(&mut second, &k);
    second.push(' ');
    append_chars(&mut second, &c);
    let mut v: Vec<String> = Vec::new();
    v.push(string_of(&first));
    v.push(string_of(&second));
    proof {
        assert(first@ =~= strip_boot(k@) + seq![' '] + c@);
        assert(second@ =~= device_identifier(table_type, n as nat) + k@ + seq![' '] + c@);
        assert(v@.map_values(|s: String| s@) =~= seq![first@, second@]);
    }
    Ok(v)
}

/// The kernel and initrd images together with the kernel command lines that
/// GRUB may measure when booting them.
#[derive(Debug)]
pub struct KernelArtifacts {
    /// The possible full kernel command lines.
    pub kernel_cmdlines: Vec<String>,
    /// The kernel image.
    pub kernel: Vec<u8>,
    /// The initial ramdisk.
    pub initrd: Vec<u8>,
}

/// The GRUB files found in one directory of the EFI partition.
#[derive(Debug)]
pub struct GrubArtifacts {
    /// The directory that holds grubx64.efi.
    pub efi_grub_dir: String,
    /// The GRUB binary.
    pub grub_data: Vec<u8>,
    /// The shim binary.
    pub shim_data: Vec<u8>,
    /// The grubenv file, where present.
    pub grub_env: Option<String>,
    /// The grub.cfg file, where present.
    pub grub_cfg: Option<String>,
}

// ---------------------------------------------------------------------------
// The files of a GRUB directory on the EFI partition
// ---------------------------------------------------------------------------

/// The kinds of file that a GRUB directory holds.
#[derive(Debug, Clone, Copy, PartialEq, Eq, Structural)]
pub enum GrubFileKind {
    /// The GRUB binary, `grubx64.efi`.
    Grub,
    /// The shim binary, `shimx64.efi` or `shim.efi`.
    Shim,
    /// The environment block, `grubenv`.
    Env,
    /// The configuration, `grub.cfg`.
    Cfg,
}

/// The lowercase form of text (`str::to_lowercase`, by the Unicode case
/// mappings).
pub uninterp spec fn lowercase(s: Seq<char>) -> Seq<char>;

/// `str::to_lowercase`.
#[verifier::external_body]
fn to_lowercase(s: &str) -> (r: String)
    ensures
        r@ == lowercase(s@),
{
    s.to_lowercase()
}

/// The kind of a file of a GRUB directory by its name, compared without case.
pub open spec fn spec_grub_file_kind(name: Seq<char>) -> Option<GrubFileKind> {
    let l = lowercase(name);
    if l == "grubx64.efi"@ {
        Some(GrubFileKind::Grub)
    } else if l == "shimx64.efi"@ || l == "shim.efi"@ {
        Some(GrubFileKind::Shim)
    } else if l == "grubenv"@ {
        Some(GrubFileKind::Env)
    } else if l == "grub.cfg"@ {
        Some(GrubFileKind::Cfg)
    } else {
        None
    }
}

/// The kind of a file of a GRUB directory by its name, compared without case;
/// `None` for files that do not matter.
pub fn grub_file_kind(file_name: &str) -> (r: Option<GrubFileKind>)
    ensures
        r == spec_grub_file_kind(file_name@),
{
    let l = to_lowercase(file_name);
    let c = chars_of(l.as_str());
    if vec_eq(&c, &chars_of("grubx64.efi")) {
        Some(GrubFileKind::Grub)
    } else if vec_eq(&c, &chars_of("shimx64.efi")) || vec_eq(&c, &chars_of("shim.efi")) {
        Some(GrubFileKind::Shim)
    } else if vec_eq(&c, &chars_of("grubenv")) {
        Some(GrubFileKind::Env)
    } else if vec_eq(&c, &chars_of("grub.cfg")) {
        Some(GrubFileKind::Cfg)
    } else {
        None
    }
}

/// The files read from a GRUB directory, where it has both binaries; a
/// directory without the GRUB or the shim binary is skipped.
pub fn assemble_grub_artifacts(
    efi_grub_dir: String,
    grub_data: Option<Vec<u8>>,
    shim_data: Option<Vec<u8>>,
    grub_env: Option<String>,
    grub_cfg: Option<String>,
) -> (r: Option<GrubArtifacts>)
    ensures
        r is Some <==> grub_data is Some && shim_data is Some,
        r matches Some(a) ==> a.efi_grub_dir == efi_grub_dir && Some(a.grub_data) == grub_data
            && Some(a.shim_data) == shim_data && a.grub_env == grub_env && a.grub_cfg == grub_cfg,
{
    match (grub_data, shim_data) {
        (Some(g), Some(s)) => Some(
            GrubArtifacts { efi_grub_dir, grub_data: g, shim_data: s, grub_env, grub_cfg },
        ),
        _ => None,
    }
}

/// The first of two optional texts that is present.
pub open spec fn first_present(a: Option<String>, b: Option<String>) -> Option<String> {
    match a {
        Some(x) => Some(x),
        None => b,
    }
}

/// The grubenv and grub.cfg texts that govern the boot from a GRUB
/// directory: those of the boot partition where present, else the
/// directory's own; `None` where either is missing, and the directory is
/// skipped.
pub fn select_grub_files(
    global_env: &Option<String>,
    global_cfg: &Option<String>,
    artifacts: &GrubArtifacts,
) -> (r: Option<(String, String)>)
    ensures
        match (
            first_present(*global_env, artifacts.grub_env),
            first_present(*global_cfg, artifacts.grub_cfg),
        ) {
            (Some(e), Some(c)) => r matches Some(p) && p.0@ == e@ && p.1@ == c@,
            _ => r is None,
        },
{
    let env = match global_env {
        Some(e) => e.clone(),
        None => match &artifacts.grub_env {
            Some(e) => e.clone(),
            None => return None,
        },
    };
    let cfg = match global_cfg {
        Some(c) => c.clone(),
        None => match &artifacts.grub_cfg {
            Some(c) => c.clone(),
            None => return None,
        },
    };
    Some((env, cfg))
}

} // verus!
