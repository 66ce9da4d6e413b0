//! Execution environments and their cache.
//!
//! An environment is a context that can run a command: the local host, a
//! long-lived Docker container, or an Android emulator reached through a
//! container and ADB. Environments are obtained through a cache keyed by
//! `(target triple, host environment tag)`: for a given key at most one
//! live environment exists within a run, so repeated checks against the
//! same target reuse one environment.

use vstd::prelude::*;
use vstd::string::StrSliceExecFns;
use vstd::string::StringExecFns;

use crate::command::Command;
use crate::command::docker;
use crate::command::spec_tool_name;
use crate::runner::Check;
use crate::RunnerError;

verus! {

// ---------------------------------------------------------------------------
// Text helpers.
// ---------------------------------------------------------------------------

/// `sub` occurs in `s` at position `i`.
pub open spec fn occurs_at(s: Seq<char>, sub: Seq<char>, i: int) -> bool {
    &&& 0 <= i
    &&& i + sub.len() <= s.len()
    &&& s.subrange(i, i + sub.len()) == sub
}

/// `sub` occurs somewhere in `s`.
pub open spec fn spec_contains(s: Seq<char>, sub: Seq<char>) -> bool {
    exists|i: int| occurs_at(s, sub, i)
}

/// `s` ends with `suffix`.
pub open spec fn spec_ends_with(s: Seq<char>, suffix: Seq<char>) -> bool {
    s.len() >= suffix.len() && s.skip(s.len() - suffix.len()) == suffix
}

/// Whether `sub` occurs in `s` at position `i`.
fn matches_at(s: &str, n: usize, sub: &str, m: usize, i: usize) -> (r: bool)
    requires
        n == s@.len(),
        m == sub@.len(),
        i + m <= n,
    ensures
        r == occurs_at(s@, sub@, i as int),
{
    let mut j: usize = 0;
    while j < m
        invariant
            n == s@.len(),
            m == sub@.len(),
            i + m <= n,
            j <= m,
            forall|k: int| 0 <= k < j ==> s@[i + k] == sub@[k],
        decreases m - j,
    {
        if s.get_char(i + j) != sub.get_char(j) {
            proof {
                assert(s@.subrange(i as int, i + m)[j as int] == s@[i + j]);
            }
            return false;
        }
        j = j + 1;
    }
    proof {
        assert(s@.subrange(i as int, i + m) =~= sub@);
    }
    true
}

/// Whether `sub` occurs anywhere in `s`.
pub fn contains_str(s: &str, sub: &str) -> (r: bool)
    ensures
        r == spec_contains(s@, sub@),
{
    let n = s.unicode_len();
    let m = sub.unicode_len();
    if m > n {
        proof {
            assert(forall|i: int| !occurs_at(s@, sub@, i));
        }
        return false;
    }
    if m == 0 {
        proof {
            assert(s@.subrange(0, 0) =~= sub@);
            assert(occurs_at(s@, sub@, 0));
        }
        return true;
    }
    let mut i: usize = 0;
    while i <= n - m
        invariant
            n == s@.len(),
            m == sub@.len(),
            0 < m <= n,
            i <= n - m + 1,
            forall|k: int| 0 <= k < i ==> !occurs_at(s@, sub@, k),
        decreases n + 1 - m - i,
    {
        if matches_at(s, n, sub, m, i) {
            return true;
        }
        i = i + 1;
    }
    proof {
        assert(forall|k: int| occurs_at(s@, sub@, k) ==> 0 <= k <= n - m);
    }
    false
}

/// Whether `s` ends with `suffix`.
pub fn ends_with_str(s: &str, suffix: &str) -> (r: bool)
    ensures
        r == spec_ends_with(s@, suffix@),
{
    let n = s.unicode_len();
    let m = suffix.unicode_len();
    if m > n {
        return false;
    }
    let r = matches_at(s, n, suffix, m, n - m);
    proof {
        assert(s@.skip(n - m) =~= s@.subrange(n - m, n - m + m));
    }
    r
}

/// The index of the first newline of `s` at or after `pos`, or the length
/// of `s` when there is none.
pub open spec fn char_nl_pos(s: Seq<char>, pos: int) -> int
    decreases s.len() - pos,
{
    if pos < 0 || pos >= s.len() {
        s.len() as int
    } else if s[pos] == '\n' {
        pos
    } else {
        char_nl_pos(s, pos + 1)
    }
}

/// `host: `, the line prefix the compiler front-end prints its own target
/// triple after.
pub open spec fn host_prefix() -> Seq<char> {
    seq!['h', 'o', 's', 't', ':', ' ']
}

/// A whitespace character at a line end.
pub open spec fn is_ws(c: char) -> bool {
    c == ' ' || c == '\t' || c == '\r' || c == '\n'
}

/// `s` with trailing whitespace removed.
pub open spec fn trim_end_ws(s: Seq<char>) -> Seq<char>
    decreases s.len(),
{
    if s.len() > 0 && is_ws(s.last()) {
        trim_end_ws(s.drop_last())
    } else {
        s
    }
}

/// `s` with leading whitespace removed.
pub open spec fn trim_start_ws(s: Seq<char>) -> Seq<char>
    decreases s.len(),
{
    if s.len() > 0 && is_ws(s.first()) {
        trim_start_ws(s.drop_first())
    } else {
        s
    }
}

/// `s` with whitespace removed from both ends.
pub open spec fn trim_ws(s: Seq<char>) -> Seq<char> {
    trim_start_ws(trim_end_ws(s))
}

/// The host target triple in tool output: the first line that starts with
/// `host: ` names it, with whitespace trimmed off both ends.
pub open spec fn spec_host_triple(s: Seq<char>) -> Option<Seq<char>>
    decreases s.len(),
{
    let k = char_nl_pos(s, 0);
    let line = s.take(
        if 0 <= k <= s.len() {
            k
        } else {
            0
        },
    );
    if line.len() >= 6 && line.take(6) == host_prefix() {
        Some(trim_ws(line.skip(6)))
    } else if 0 <= k < s.len() {
        spec_host_triple(s.skip(k + 1))
    } else {
        Option::None
    }
}

/// `char_nl_pos` lands exactly past a stretch of non-newline characters.
proof fn lemma_char_nl_pos_range(s: Seq<char>, lo: int, hi: int)
    requires
        0 <= lo <= hi <= s.len(),
        forall|j: int| lo <= j < hi ==> s[j] != '\n',
        hi == s.len() || s[hi] == '\n',
    ensures
        char_nl_pos(s, lo) == hi,
    decreases hi - lo,
{
    if lo < hi {
        lemma_char_nl_pos_range(s, lo + 1, hi);
    }
}

/// Trimming removes exactly the trailing whitespace.
proof fn lemma_trim_end(x: Seq<char>, m: int)
    requires
        0 <= m <= x.len(),
        forall|j: int| m <= j < x.len() ==> is_ws(#[trigger] x[j]),
        m == 0 || !is_ws(x[m - 1]),
    ensures
        trim_end_ws(x) == x.take(m),
    decreases x.len(),
{
    if x.len() > m {
        assert(is_ws(x.last()));
        let shorter = x.drop_last();
        assert(forall|j: int| m <= j < shorter.len() ==> shorter[j] == x[j]);
        if m > 0 {
            assert(shorter[m - 1] == x[m - 1]);
        }
        lemma_trim_end(shorter, m);
        assert(shorter.take(m) =~= x.take(m));
    } else {
        assert(x.take(m) =~= x);
    }
}

/// Trimming the start removes exactly the leading whitespace.
proof fn lemma_trim_start(x: Seq<char>, m: int)
    requires
        0 <= m <= x.len(),
        forall|j: int| 0 <= j < m ==> is_ws(#[trigger] x[j]),
        m == x.len() || !is_ws(x[m]),
    ensures
        trim_start_ws(x) == x.skip(m),
    decreases m,
{
    if m > 0 {
        assert(is_ws(x.first()));
        let shorter = x.drop_first();
        assert(forall|j: int| 0 <= j < m - 1 ==> shorter[j] == x[j + 1]);
        if m - 1 < shorter.len() {
            assert(shorter[m - 1] == x[m as int]);
        }
        lemma_trim_start(shorter, m - 1);
        assert(shorter.skip(m - 1) =~= x.skip(m));
    } else {
        assert(x.skip(0) =~= x);
    }
}

/// Find the host target triple in captured tool output, exactly as
/// [`spec_host_triple`] prescribes: the first line starting with `host: `
/// names it.
pub fn parse_host_triple(s: &str) -> (r: Option<String>)
    ensures
        match spec_host_triple(s@) {
            Option::None => r is None,
            Option::Some(t) => r matches Some(x) && x@ == t,
        },
{
    let n = s.unicode_len();
    let mut pos: usize = 0;
    proof {
        assert(s@.skip(0) =~= s@);
    }
    loop
        invariant
            pos <= n,
            n == s@.len(),
            spec_host_triple(s@) == spec_host_triple(s@.skip(pos as int)),
        decreases n - pos,
    {
        let ghost p0 = pos as int;
        let ghost suffix = s@.skip(pos as int);
        // Find the end of the current line.
        let mut e: usize = pos;
        while e < n && s.get_char(e) != '\n'
            invariant
                pos <= e <= n,
                n == s@.len(),
                forall|j: int| pos <= j < e ==> s@[j] != '\n',
            decreases n - e,
        {
            e = e + 1;
        }
        proof {
            assert(forall|j: int| 0 <= j < e - pos ==> suffix[j] == s@[pos + j]);
            if e < n {
                assert(suffix[e - pos] == s@[e as int]);
            }
            lemma_char_nl_pos_range(suffix, 0, e - pos);
            assert(char_nl_pos(suffix, 0) == e - pos);
        }
        let ghost line = suffix.take(e - pos);
        // Does the line start with `host: `?
        let has_prefix = e - pos >= 6 && s.get_char(pos) == 'h' && s.get_char(pos + 1) == 'o'
            && s.get_char(pos + 2) == 's' && s.get_char(pos + 3) == 't' && s.get_char(pos + 4)
            == ':' && s.get_char(pos + 5) == ' ';
        proof {
            if e - pos >= 6 {
                assert(forall|j: int| 0 <= j < 6 ==> line.take(6)[j] == s@[pos + j]);
                if has_prefix {
                    assert(line.take(6) =~= host_prefix());
                } else {
                    assert(line.take(6) != host_prefix()) by {
                        if line.take(6) == host_prefix() {
                            assert(line.take(6)[0] == 'h' && line.take(6)[1] == 'o' && line.take(
                                6,
                            )[2] == 's' && line.take(6)[3] == 't' && line.take(6)[4] == ':'
                                && line.take(6)[5] == ' ');
                        }
                    }
                }
            }
        }
        if has_prefix {
            // Trim whitespace off both ends of the rest of the line.
            let ghost rest = line.skip(6);
            proof {
                assert(forall|j: int| 0 <= j < rest.len() ==> rest[j] == s@[pos + 6 + j]);
            }
            let mut t: usize = e;
            while t > pos + 6 && is_ws_char(s.get_char(t - 1))
                invariant
                    pos + 6 <= t <= e,
                    e <= n,
                    n == s@.len(),
                    forall|j: int| t <= j < e ==> is_ws(#[trigger] s@[j]),
                decreases t,
            {
                t = t - 1;
            }
            let ghost kept = rest.take(t - pos - 6);
            proof {
                assert(forall|j: int| t - pos - 6 <= j < rest.len() ==> is_ws(#[trigger] rest[j]));
                if t > pos + 6 {
                    assert(rest[t - pos - 6 - 1] == s@[t - 1]);
                }
                lemma_trim_end(rest, t - pos - 6);
                assert(forall|j: int| 0 <= j < kept.len() ==> kept[j] == s@[pos + 6 + j]);
            }
            let mut b: usize = pos + 6;
            while b < t && is_ws_char(s.get_char(b))
                invariant
                    pos + 6 <= b <= t,
                    t <= n,
                    n == s@.len(),
                    forall|j: int| pos + 6 <= j < b ==> is_ws(#[trigger] s@[j]),
                decreases t - b,
            {
                b = b + 1;
            }
            proof {
                assert(forall|j: int| 0 <= j < b - pos - 6 ==> is_ws(#[trigger] kept[j]));
                if b < t {
                    assert(kept[b - pos - 6] == s@[b as int]);
                }
                lemma_trim_start(kept, b - pos - 6);
            }
            let found = s.substring_char(b, t).to_owned();
            proof {
                assert(s@.subrange(b as int, t as int) =~= kept.skip(b - pos - 6));
            }
            return Option::Some(found);
        }
        if e >= n {
            return Option::None;
        }
        pos = e + 1;
        proof {
            assert(suffix.skip(e - p0 + 1) =~= s@.skip(pos as int));
        }
    }
}

/// Whether a character is line-end whitespace.
fn is_ws_char(c: char) -> (r: bool)
    ensures
        r == is_ws(c),
{
    c == ' ' || c == '\t' || c == '\r' || c == '\n'
}

// ---------------------------------------------------------------------------
// Environment handles and their cache.
// ---------------------------------------------------------------------------

/// The three kinds of execution environment.
#[derive(Clone, Copy, Debug, PartialEq, Eq, Structural)]
pub enum EnvironmentKind {
    /// Run commands directly on the current host.
    Host,
    /// Run commands inside a long-lived Docker container.
    Docker,
    /// Run commands on an Android emulator inside a Docker container,
    /// through ADB.
    Android,
}

/// Mathematical model of an [`EnvironmentHandle`].
pub struct HandleModel {
    pub kind: EnvironmentKind,
    pub target_triple: Seq<char>,
    pub host_env: Option<Seq<char>>,
    pub serial: int,
    pub container: Option<Seq<char>>,
}

/// A live execution environment: its kind, the key it was created for, a
/// serial number identifying the live instance within the run, and the
/// container id once one has been provisioned.
#[derive(Clone, Debug, PartialEq)]
pub struct EnvironmentHandle {
    pub kind: EnvironmentKind,
    pub target_triple: String,
    pub host_env: Option<String>,
    pub serial: usize,
    pub container: Option<String>,
}

impl View for EnvironmentHandle {
    type V = HandleModel;

    open spec fn view(&self) -> HandleModel {
        HandleModel {
            kind: self.kind,
            target_triple: self.target_triple@,
            host_env: match self.host_env {
                Option::Some(ref h) => Some(h@),
                Option::None => Option::None,
            },
            serial: self.serial as int,
            container: match self.container {
                Option::Some(ref c) => Some(c@),
                Option::None => Option::None,
            },
        }
    }
}

/// The handle serves the key `(target, host_env)`.
pub open spec fn key_matches(
    h: HandleModel,
    target: Seq<char>,
    host_env: Option<Seq<char>>,
) -> bool {
    h.target_triple == target && h.host_env == host_env
}

/// The first cache entry serving the key, if any.
pub open spec fn spec_lookup(
    entries: Seq<HandleModel>,
    target: Seq<char>,
    host_env: Option<Seq<char>>,
) -> Option<int>
    decreases entries.len(),
{
    if entries.len() == 0 {
        Option::None
    } else if key_matches(entries.first(), target, host_env) {
        Some(0int)
    } else {
        match spec_lookup(entries.drop_first(), target, host_env) {
            Option::None => Option::None,
            Option::Some(i) => Some(i + 1),
        }
    }
}

/// The cache of live environments, keyed by `(target triple, host
/// environment tag)`.
pub struct EnvironmentCache {
    entries: Vec<EnvironmentHandle>,
    next_serial: usize,
}

impl EnvironmentCache {
    /// The cached handles, in creation order.
    pub closed spec fn entries(self) -> Seq<HandleModel> {
        self.entries@.map_values(|h: EnvironmentHandle| h@)
    }

    /// The serial number the next created environment will get.
    pub closed spec fn next_serial(self) -> int {
        self.next_serial as int
    }

    /// The cache invariant: no two entries serve the same key, every serial
    /// is below the next one to be handed out, and a Docker entry always
    /// carries the container it was started with.
    pub open spec fn wf(self) -> bool {
        &&& forall|i: int, j: int|
            0 <= i < j < self.entries().len() ==> !key_matches(
                #[trigger] self.entries()[i],
                (#[trigger] self.entries()[j]).target_triple,
                self.entries()[j].host_env,
            )
        &&& forall|i: int|
            0 <= i < self.entries().len() ==> (#[trigger] self.entries()[i]).serial
                < self.next_serial()
        &&& forall|i: int|
            0 <= i < self.entries().len() && (#[trigger] self.entries()[i]).kind is Docker
                ==> self.entries()[i].container is Some
        &&& forall|i: int|
            0 <= i < self.entries().len() && (#[trigger] self.entries()[i]).kind is Android
                ==> spec_contains(self.entries()[i].target_triple, "android"@)
    }

    /// Create an empty cache.
    pub fn new() -> (r: EnvironmentCache)
        ensures
            r.wf(),
            r.entries() == Seq::<HandleModel>::empty(),
            r.next_serial() == 0,
    {
        let r = EnvironmentCache { entries: Vec::new(), next_serial: 0 };
        proof {
            assert(r.entries() =~= Seq::<HandleModel>::empty());
        }
        r
    }

    /// The serial number the next created environment will get, as a
    /// machine value.
    pub fn serial_watermark(&self) -> (r: usize)
        ensures
            r == self.next_serial(),
    {
        self.next_serial
    }

    /// The number of live environments.
    pub fn len(&self) -> (r: usize)
        ensures
            r == self.entries().len(),
    {
        self.entries.len()
    }

    /// Find the cache entry serving the key of `check`, if any.
    fn lookup(&self, check: &Check) -> (r: Option<usize>)
        ensures
            match spec_lookup(self.entries(), check@.target_triple, check@.host_env) {
                Option::None => r is None,
                Option::Some(i) => r == Some(i as usize),
            },
    {
        proof {
            assert(self.entries().skip(0) =~= self.entries());
        }
        let mut i: usize = 0;
        while i < self.entries.len()
            invariant
                i <= self.entries().len(),
                spec_lookup(self.entries(), check@.target_triple, check@.host_env)
                    == (match spec_lookup(
                    self.entries().skip(i as int),
                    check@.target_triple,
                    check@.host_env,
                ) {
                    Option::None => Option::None::<int>,
                    Option::Some(k) => Some(k + i),
                }),
            decreases self.entries().len() - i,
        {
            let ghost tail = self.entries().skip(i as int);
            let entry = &self.entries[i];
            let target_same = entry.target_triple.eq(&check.target_triple);
            let host_same = match (&entry.host_env, &check.host_env) {
                (Option::Some(a), Option::Some(b)) => a.eq(b),
                (Option::None, Option::None) => true,
                _ => false,
            };
            proof {
                assert(tail.first() == self.entries()[i as int]);
                assert(tail.drop_first() =~= self.entries().skip(i + 1));
            }
            if target_same && host_same {
                assert(key_matches(tail.first(), check@.target_triple, check@.host_env));
                return Option::Some(i);
            }
            assert(!key_matches(tail.first(), check@.target_triple, check@.host_env));
            i = i + 1;
        }
        proof {
            assert(self.entries().skip(self.entries().len() as int).len() == 0);
        }
        Option::None
    }

    /// Record the container id of the entry with the given serial, once the
    /// container has been provisioned.
    pub fn set_container(&mut self, serial: usize, container: String)
        requires
            old(self).wf(),
        ensures
            final(self).wf(),
            final(self).entries().len() == old(self).entries().len(),
            final(self).next_serial() == old(self).next_serial(),
            forall|i: int|
                0 <= i < old(self).entries().len() ==> {
                    let e = #[trigger] old(self).entries()[i];
                    final(self).entries()[i] == (if e.serial == serial {
                        HandleModel { container: Some(container@), ..e }
                    } else {
                        e
                    })
                },
    {
        let mut i: usize = 0;
        while i < self.entries.len()
            invariant
                old(self).wf(),
                i <= self.entries().len(),
                self.entries().len() == old(self).entries().len(),
                self.next_serial() == old(self).next_serial(),
                forall|k: int|
                    i <= k < old(self).entries().len() ==> #[trigger] self.entries()[k] == old(
                        self,
                    ).entries()[k],
                forall|k: int|
                    0 <= k < i ==> {
                        let e = #[trigger] old(self).entries()[k];
                        self.entries()[k] == (if e.serial == serial {
                            HandleModel { container: Some(container@), ..e }
                        } else {
                            e
                        })
                    },
            decreases self.entries().len() - i,
        {
            if self.entries[i].serial == serial {
                let ghost before = self.entries@;
                let mut e = self.entries.remove(i);
                e.container = Option::Some(container.clone());
                self.entries.insert(i, e);
                proof {
                    assert(forall|k: int|
                        0 <= k < before.len() && k != i ==> #[trigger] self.entries@[k]
                            == before[k]);
                }
            }
            i = i + 1;
        }
        proof {
            assert(final(self).wf()) by {
                assert(forall|i: int|
                    0 <= i < self.entries().len() ==> (#[trigger] self.entries()[i]).serial == old(
                        self,
                    ).entries()[i].serial && self.entries()[i].target_triple == old(
                        self,
                    ).entries()[i].target_triple && self.entries()[i].host_env == old(
                        self,
                    ).entries()[i].host_env && self.entries()[i].kind == old(
                        self,
                    ).entries()[i].kind);
                assert(forall|i: int|
                    0 <= i < self.entries().len() && old(self).entries()[i].container is Some
                        ==> (#[trigger] self.entries()[i]).container is Some);
            }
        }
    }

    /// Drain the cache: every live handle is handed out exactly once, for
    /// cleanup.
    pub fn drain(self) -> (r: Vec<EnvironmentHandle>)
        ensures
            r@.map_values(|h: EnvironmentHandle| h@) == self.entries(),
    {
        let EnvironmentCache { entries, next_serial: _ } = self;
        entries
    }
}

/// A copy of an optional string with the same view.
fn dup_opt_string(o: &Option<String>) -> (r: Option<String>)
    ensures
        (match o {
            Option::Some(s) => r matches Some(t) && t@ == s@,
            Option::None => r is None,
        }),
{
    match o {
        Option::Some(s) => Option::Some(s.clone()),
        Option::None => Option::None,
    }
}

/// A copy of a handle with the same model.
fn dup_handle(h: &EnvironmentHandle) -> (r: EnvironmentHandle)
    ensures
        r@ == h@,
{
    EnvironmentHandle {
        kind: h.kind,
        target_triple: h.target_triple.clone(),
        host_env: dup_opt_string(&h.host_env),
        serial: h.serial,
        container: dup_opt_string(&h.container),
    }
}

/// A check's environment can be selected for the given host triple: the
/// host serves its own triple, and a Linux host serves Android targets.
pub open spec fn spec_selectable(host: Seq<char>, c: crate::runner::CheckModel) -> bool {
    ||| host == c.target_triple
    ||| (spec_contains(host, "linux"@) && spec_contains(c.target_triple, "android"@))
}

/// Choose the environment for a check: a cached handle when one serves the
/// check's key; otherwise the host environment when the host's own target
/// triple equals the check's, the Android-over-Docker environment when the
/// host is Linux and the target is Android, and no environment at all
/// otherwise. A created handle is cached under the check's key, with a
/// fresh serial and no container.
pub fn choose_environment(cache: &mut EnvironmentCache, host_target: &String, check: &Check) -> (r: Result<
    EnvironmentHandle,
    RunnerError,
>)
    requires
        old(cache).wf(),
        old(cache).next_serial() < usize::MAX,
    ensures
        final(cache).wf(),
        match spec_lookup(old(cache).entries(), check@.target_triple, check@.host_env) {
            Option::Some(i) => {
                &&& *final(cache) == *old(cache)
                &&& r matches Ok(h) && h@ == old(cache).entries()[i] && key_matches(
                    h@,
                    check@.target_triple,
                    check@.host_env,
                )
            },
            Option::None => {
                if host_target@ == check@.target_triple {
                    let hm = HandleModel {
                        kind: EnvironmentKind::Host,
                        target_triple: check@.target_triple,
                        host_env: check@.host_env,
                        serial: old(cache).next_serial(),
                        container: Option::None,
                    };
                    &&& r matches Ok(h) && h@ == hm
                    &&& final(cache).entries() == old(cache).entries().push(hm)
                    &&& final(cache).next_serial() == old(cache).next_serial() + 1
                } else if spec_contains(host_target@, "linux"@) && spec_contains(
                    check@.target_triple,
                    "android"@,
                ) {
                    let hm = HandleModel {
                        kind: EnvironmentKind::Android,
                        target_triple: check@.target_triple,
                        host_env: check@.host_env,
                        serial: old(cache).next_serial(),
                        container: Option::None,
                    };
                    &&& r matches Ok(h) && h@ == hm
                    &&& final(cache).entries() == old(cache).entries().push(hm)
                    &&& final(cache).next_serial() == old(cache).next_serial() + 1
                } else {
                    &&& *final(cache) == *old(cache)
                    &&& r matches Err(e) && e is EnvironmentUnavailable
                }
            },
        },
{
    match cache.lookup(check) {
        Option::Some(i) => {
            let n = cache.entries.len();
            proof {
                assert(cache.entries().len() == n);
                lemma_lookup_in_range(cache.entries(), check@.target_triple, check@.host_env);
                assert(cache.entries()[i as int] == cache.entries@[i as int]@);
            }
            let h = dup_handle(&cache.entries[i]);
            Result::Ok(h)
        },
        Option::None => {
            let kind: EnvironmentKind;
            if host_target.eq(&check.target_triple) {
                kind = EnvironmentKind::Host;
            } else if contains_str(host_target.as_str(), "linux") && contains_str(
                check.target_triple.as_str(),
                "android",
            ) {
                kind = EnvironmentKind::Android;
            } else {
                let mut msg = ("no compatible environment for host ").to_owned();
                msg.append(host_target.as_str());
                msg.append(" and target ");
                msg.append(check.target_triple.as_str());
                return Result::Err(RunnerError::EnvironmentUnavailable(msg));
            }
            let handle = EnvironmentHandle {
                kind,
                target_triple: check.target_triple.clone(),
                host_env: dup_opt_string(&check.host_env),
                serial: cache.next_serial,
                container: Option::None,
            };
            let stored = dup_handle(&handle);
            let ghost before = cache.entries();
            cache.next_serial = cache.next_serial + 1;
            cache.entries.push(stored);
            proof {
                assert(cache.entries() =~= before.push(handle@));
                assert(forall|i: int|
                    0 <= i < before.len() ==> #[trigger] cache.entries()[i] == before[i]);
                lemma_lookup_none_no_match(before, check@.target_triple, check@.host_env);
                let e2 = cache.entries();
                assert(handle@.target_triple == check@.target_triple);
                assert(handle@.host_env == check@.host_env);
                assert forall|i: int, j: int| 0 <= i < j < e2.len() implies !key_matches(
                    #[trigger] e2[i],
                    (#[trigger] e2[j]).target_triple,
                    e2[j].host_env,
                ) by {
                    if j < before.len() {
                        assert(!key_matches(
                            before[i],
                            before[j].target_triple,
                            before[j].host_env,
                        ));
                    } else {
                        assert(e2[j] == handle@);
                        assert(!key_matches(before[i], check@.target_triple, check@.host_env));
                    }
                }
                assert forall|i: int| 0 <= i < e2.len() implies (#[trigger] e2[i]).serial
                    < cache.next_serial() by {
                    if i < before.len() {
                        assert(before[i].serial < old(cache).next_serial());
                    }
                }
                assert forall|i: int| 0 <= i < e2.len() && (#[trigger] e2[i]).kind is Docker
                    implies e2[i].container is Some by {
                    if i < before.len() {
                        assert(before[i].kind is Docker ==> before[i].container is Some);
                    } else {
                        assert(e2[i] == handle@);
                    }
                }
                assert forall|i: int| 0 <= i < e2.len() && (#[trigger] e2[i]).kind is Android
                    implies spec_contains(e2[i].target_triple, "android"@) by {
                    if i < before.len() {
                        assert(before[i].kind is Android ==> spec_contains(
                            before[i].target_triple,
                            "android"@,
                        ));
                    } else {
                        assert(e2[i] == handle@);
                    }
                }
            }
            Result::Ok(handle)
        },
    }
}

/// A found cache entry lies inside the cache.
pub proof fn lemma_lookup_in_range(
    entries: Seq<HandleModel>,
    target: Seq<char>,
    host_env: Option<Seq<char>>,
)
    ensures
        spec_lookup(entries, target, host_env) matches Some(i) ==> 0 <= i < entries.len()
            && key_matches(entries[i], target, host_env),
    decreases entries.len(),
{
    if entries.len() > 0 && !key_matches(entries.first(), target, host_env) {
        lemma_lookup_in_range(entries.drop_first(), target, host_env);
        assert(forall|k: int|
            0 <= k < entries.len() - 1 ==> #[trigger] entries.drop_first()[k] == entries[k + 1]);
    }
}

/// A missed lookup means no entry serves the key.
proof fn lemma_lookup_none_no_match(
    entries: Seq<HandleModel>,
    target: Seq<char>,
    host_env: Option<Seq<char>>,
)
    ensures
        spec_lookup(entries, target, host_env) is None ==> forall|i: int|
            0 <= i < entries.len() ==> !key_matches(#[trigger] entries[i], target, host_env),
    decreases entries.len(),
{
    if entries.len() > 0 && !key_matches(entries.first(), target, host_env) {
        lemma_lookup_none_no_match(entries.drop_first(), target, host_env);
        assert(forall|k: int|
            0 <= k < entries.len() - 1 ==> #[trigger] entries.drop_first()[k] == entries[k + 1]);
        if spec_lookup(entries, target, host_env) is None {
            assert forall|i: int| 0 <= i < entries.len() implies !key_matches(
                #[trigger] entries[i],
                target,
                host_env,
            ) by {
                if i > 0 {
                    assert(entries.drop_first()[i - 1] == entries[i]);
                }
            }
        }
    }
}

/// Inserting a handle for a missed key makes later lookups of that key find
/// exactly it: requesting the same key twice within one run yields handles
/// referring to the same live environment.
pub proof fn lemma_cache_idempotent(
    entries: Seq<HandleModel>,
    h: HandleModel,
    target: Seq<char>,
    host_env: Option<Seq<char>>,
)
    requires
        spec_lookup(entries, target, host_env) is None,
        key_matches(h, target, host_env),
    ensures
        spec_lookup(entries.push(h), target, host_env) == Some(entries.len() as int),
    decreases entries.len(),
{
    if entries.len() == 0 {
        assert(entries.push(h).first() == h);
    } else {
        assert(entries.push(h).first() == entries.first());
        assert(entries.push(h).drop_first() =~= entries.drop_first().push(h));
        lemma_cache_idempotent(entries.drop_first(), h, target, host_env);
    }
}


// ---------------------------------------------------------------------------
// Docker: shell-joined exec commands and target images.
// ---------------------------------------------------------------------------

/// The characters after the last `/` of a path.
pub open spec fn spec_file_name(s: Seq<char>) -> Seq<char>
    decreases s.len(),
{
    if s.len() == 0 {
        s
    } else if s.last() == '/' {
        Seq::empty()
    } else {
        spec_file_name(s.drop_last()).push(s.last())
    }
}

/// The shell command line for a Docker `exec`: the command's file name and
/// each argument, separated by single spaces.
pub open spec fn spec_shell_join(cmd: Seq<char>, args: Seq<Seq<char>>) -> Seq<char>
    decreases args.len(),
{
    if args.len() == 0 {
        spec_file_name(cmd)
    } else {
        spec_shell_join(cmd, args.drop_last()) + seq![' '] + args.last()
    }
}

/// `spec_file_name` is the suffix after the last slash.
proof fn lemma_file_name(s: Seq<char>, k: int)
    requires
        0 <= k <= s.len(),
        k == 0 || s[k - 1] == '/',
        forall|j: int| k <= j < s.len() ==> s[j] != '/',
    ensures
        spec_file_name(s) == s.skip(k),
    decreases s.len(),
{
    if s.len() == 0 {
        assert(s.skip(0) =~= s);
    } else if s.last() == '/' {
        assert(k == s.len());
        assert(s.skip(k) =~= Seq::<char>::empty());
    } else {
        assert(k < s.len());
        let shorter = s.drop_last();
        assert(forall|j: int| k <= j < shorter.len() ==> shorter[j] == s[j]);
        if k > 0 {
            assert(shorter[k - 1] == s[k - 1]);
        }
        lemma_file_name(shorter, k);
        assert(spec_file_name(s) =~= s.skip(k));
    }
}

/// The file name of a path: the part after its last `/`.
pub fn file_name(s: &str) -> (r: String)
    ensures
        r@ == spec_file_name(s@),
{
    let n = s.unicode_len();
    let mut k: usize = n;
    while k > 0 && s.get_char(k - 1) != '/'
        invariant
            k <= n,
            n == s@.len(),
            forall|j: int| k <= j < n ==> s@[j] != '/',
        decreases k,
    {
        k = k - 1;
    }
    proof {
        lemma_file_name(s@, k as int);
    }
    let r = s.substring_char(k, n).to_owned();
    proof {
        assert(s@.subrange(k as int, n as int) =~= s@.skip(k as int));
    }
    r
}

/// Join a command and its arguments into one shell command line.
pub fn shell_join(cmd: &str, args: &Vec<String>) -> (r: String)
    ensures
        r@ == spec_shell_join(cmd@, crate::runner::str_views(args@)),
{
    let ghost views = crate::runner::str_views(args@);
    let mut out = file_name(cmd);
    let mut i: usize = 0;
    while i < args.len()
        invariant
            i <= args@.len(),
            views == crate::runner::str_views(args@),
            out@ == spec_shell_join(cmd@, views.take(i as int)),
        decreases args@.len() - i,
    {
        out.append(" ");
        out.append(args[i].as_str());
        i = i + 1;
        proof {
            reveal_strlit(" ");
            let upto = views.take(i as int);
            assert(upto.drop_last() =~= views.take(i - 1));
            assert(upto.last() == args@[i - 1]@);
            assert(out@ =~= spec_shell_join(cmd@, upto.drop_last()) + seq![' '] + upto.last());
        }
    }
    proof {
        assert(views.take(views.len() as int) =~= views);
    }
    out
}

/// The `docker exec` invocation that runs a command inside the container:
/// the command and its arguments are shell-joined, so they must be text —
/// which the engine's command type guarantees by construction.
pub fn docker_exec_command(
    container: &String,
    cmd: &str,
    args: &Vec<String>,
    docker_name: Option<String>,
) -> (r: Command)
    ensures
        r@.program == spec_tool_name(
            match docker_name {
                Option::Some(o) => Some(o@),
                Option::None => Option::None,
            },
            "docker"@,
        ),
        r@.args == seq![
            "exec"@,
            container@,
            "sh"@,
            "-c"@,
            spec_shell_join(cmd@, crate::runner::str_views(args@)),
        ],
{
    let mut command = docker(docker_name);
    command.arg("exec".to_owned());
    command.arg(container.clone());
    command.arg("sh".to_owned());
    command.arg("-c".to_owned());
    command.arg(shell_join(cmd, args));
    proof {
        assert(command@.args =~= seq![
            "exec"@,
            container@,
            "sh"@,
            "-c"@,
            spec_shell_join(cmd@, crate::runner::str_views(args@)),
        ]);
    }
    command
}

/// The container image that serves a target triple: one base image for GNU
/// Linux targets, another for musl ones, none for anything else.
pub open spec fn spec_target_container(t: Seq<char>) -> Option<Seq<char>> {
    if spec_contains(t, "linux"@) {
        if spec_ends_with(t, "gnu"@) {
            Some("ghcr.io/notgull/keter:ubuntu"@)
        } else if spec_ends_with(t, "musl"@) {
            Some("ghcr.io/notgull/keter:alpine"@)
        } else {
            Option::None
        }
    } else {
        Option::None
    }
}

/// Map a target triple to the container image to start for it. Unrecognized
/// triples are a hard failure, and host options are not supported.
pub fn get_target_container(target_triple: &str, options: &Option<String>) -> (r: Result<
    String,
    RunnerError,
>)
    ensures
        match options {
            Option::Some(_) => r matches Err(e) && e is EnvironmentUnavailable,
            Option::None => {
                match spec_target_container(target_triple@) {
                    Option::Some(image) => r matches Ok(s) && s@ == image,
                    Option::None => r matches Err(e) && e is EnvironmentUnavailable,
                }
            },
        },
{
    if options.is_some() {
        return Result::Err(
            RunnerError::EnvironmentUnavailable(("cannot handle host options yet").to_owned()),
        );
    }
    if contains_str(target_triple, "linux") {
        if ends_with_str(target_triple, "gnu") {
            Result::Ok(("ghcr.io/notgull/keter:ubuntu").to_owned())
        } else if ends_with_str(target_triple, "musl") {
            Result::Ok(("ghcr.io/notgull/keter:alpine").to_owned())
        } else {
            let mut msg = ("unrecognized linux version ").to_owned();
            msg.append(target_triple);
            Result::Err(RunnerError::EnvironmentUnavailable(msg))
        }
    } else {
        let mut msg = ("no tag for target triple ").to_owned();
        msg.append(target_triple);
        Result::Err(RunnerError::EnvironmentUnavailable(msg))
    }
}

// ---------------------------------------------------------------------------
// Android: command classification.
// ---------------------------------------------------------------------------

/// What the Android environment does with a command.
#[derive(Clone, Copy, Debug, PartialEq, Eq, Structural)]
pub enum AndroidCommandKind {
    /// A `cargo test` invocation: deliberately skipped, since tests cannot
    /// run on the device.
    SkipCargoTest,
    /// A `cargo run` invocation: the example is cross-compiled and deployed
    /// through the device-deployment tool instead.
    DeployExample,
    /// Anything else cannot run on the device.
    Unsupported,
}

/// How the Android environment treats a command: `cargo test` is skipped,
/// `cargo run` is deployed through the device tool, everything else is
/// unsupported.
pub open spec fn spec_classify_android(cmd: Seq<char>, args: Seq<Seq<char>>) -> AndroidCommandKind {
    if spec_ends_with(cmd, "cargo"@) && args.len() > 0 && args.first() == "test"@ {
        AndroidCommandKind::SkipCargoTest
    } else if spec_ends_with(cmd, "cargo"@) && args.len() > 0 && args.first() == "run"@ {
        AndroidCommandKind::DeployExample
    } else {
        AndroidCommandKind::Unsupported
    }
}

/// Classify a command for the Android environment.
pub fn classify_android_command(cmd: &str, args: &Vec<String>) -> (r: AndroidCommandKind)
    ensures
        r == spec_classify_android(cmd@, crate::runner::str_views(args@)),
{
    let ghost views = crate::runner::str_views(args@);
    if args.len() == 0 {
        return AndroidCommandKind::Unsupported;
    }
    proof {
        assert(views.first() == args@[0]@);
    }
    if !ends_with_str(cmd, "cargo") {
        return AndroidCommandKind::Unsupported;
    }
    let first = &args[0];
    let test_word = ("test").to_owned();
    let run_word = ("run").to_owned();
    if first.eq(&test_word) {
        AndroidCommandKind::SkipCargoTest
    } else if first.eq(&run_word) {
        AndroidCommandKind::DeployExample
    } else {
        AndroidCommandKind::Unsupported
    }
}

} // verus!
