//! What `mlang get` and the Go builds decide without touching the system:
//! the refs asked of `git ls-remote`, the cache directory of a commit, the
//! lock file's entries, the Go names of the host platform, and whether a Go
//! workspace needs `go mod tidy`.
use vstd::prelude::*;

use crate::text::{chars_of, lowercase, push_str, push_string, str_eq, str_to_lowercase, string_of};

verus! {

// ----------------------------------------------------------------------
// Refs and cache directories

/// The refs tried, in order, when resolving a git ref: the ref itself, then
/// as a branch, as a tag, and as a peeled tag.
pub open spec fn ref_candidates(r: Seq<char>) -> Seq<Seq<char>> {
    seq![r, "refs/heads/"@ + r, "refs/tags/"@ + r, "refs/tags/"@ + r + "^{}"@]
}

/// The refs tried, in order, when resolving a git ref.
pub fn ls_remote_candidates(git_ref: &str) -> (r: Vec<String>)
    ensures
        Seq::new(r@.len(), |i: int| r@[i]@) == ref_candidates(git_ref@),
{
    let mut out: Vec<String> = Vec::new();
    out.push(git_ref.to_owned());
    let mut b: Vec<char> = Vec::new();
    push_str(&mut b, "refs/heads/");
    push_str(&mut b, git_ref);
    out.push(string_of(b.as_slice()));
    let mut t: Vec<char> = Vec::new();
    push_str(&mut t, "refs/tags/");
    push_str(&mut t, git_ref);
    out.push(string_of(t.as_slice()));
    let mut p: Vec<char> = Vec::new();
    push_str(&mut p, "refs/tags/");
    push_str(&mut p, git_ref);
    push_str(&mut p, "^{}");
    out.push(string_of(p.as_slice()));
    assert(Seq::new(out@.len(), |i: int| out@[i]@) =~= ref_candidates(git_ref@));
    out
}

/// The directory, relative to the project root, that caches a commit's
/// checkout: `.mlang/deps/` and the commit in lower case.
pub open spec fn cache_dir_text(commit: Seq<char>) -> Seq<char> {
    ".mlang/deps/"@ + lowercase(commit)
}

/// The directory, relative to the project root, that caches a commit's
/// checkout.
pub fn cache_dir_for(commit: &str) -> (r: String)
    ensures
        r@ == cache_dir_text(commit@),
{
    let lower = str_to_lowercase(commit);
    let mut out: Vec<char> = Vec::new();
    push_str(&mut out, ".mlang/deps/");
    push_string(&mut out, &lower);
    string_of(out.as_slice())
}

// ----------------------------------------------------------------------
// Lock file entries

/// A dependency as the lock file records it.
pub struct LockEntry {
    pub import: String,
    pub git: String,
    pub git_ref: String,
    pub commit: String,
    pub entry: String,
    pub cache_dir: String,
}

/// A lock entry as plain values.
pub type EntryModel = (Seq<char>, Seq<char>, Seq<char>, Seq<char>, Seq<char>, Seq<char>);

impl LockEntry {
    pub open spec fn model(&self) -> EntryModel {
        (self.import@, self.git@, self.git_ref@, self.commit@, self.entry@, self.cache_dir@)
    }
}

pub open spec fn entries_model(v: Seq<LockEntry>) -> Seq<EntryModel> {
    Seq::new(v.len(), |i: int| v[i].model())
}

/// Whether `a` comes before `b` or equals it in the order of strings:
/// character by character, a prefix first.
pub open spec fn text_le(a: Seq<char>, b: Seq<char>) -> bool
    decreases a.len(),
{
    if a.len() == 0 {
        true
    } else if b.len() == 0 {
        false
    } else if a[0] != b[0] {
        a[0] < b[0]
    } else {
        text_le(a.drop_first(), b.drop_first())
    }
}

/// `sorted` with `x` placed after every entry whose import is not after
/// its own.
pub open spec fn insert_by_import(sorted: Seq<EntryModel>, x: EntryModel) -> Seq<EntryModel>
    decreases sorted.len(),
{
    if sorted.len() == 0 {
        seq![x]
    } else if text_le(sorted.last().0, x.0) {
        sorted.push(x)
    } else {
        insert_by_import(sorted.drop_last(), x).push(sorted.last())
    }
}

/// The entries sorted by import, entries with equal imports keeping their
/// order (a stable sort).
pub open spec fn sort_by_import(v: Seq<EntryModel>) -> Seq<EntryModel>
    decreases v.len(),
{
    if v.len() == 0 {
        Seq::empty()
    } else {
        insert_by_import(sort_by_import(v.drop_last()), v.last())
    }
}

/// The entries with `x` in place of the first entry of the same import, or
/// after them all when there is none.
pub open spec fn upsert(v: Seq<EntryModel>, x: EntryModel) -> Seq<EntryModel> {
    if exists|i: int| 0 <= i < v.len() && (#[trigger] v[i]).0 == x.0 {
        let i = choose|i: int| 0 <= i < v.len() && (#[trigger] v[i]).0 == x.0 && (forall|j: int| 0 <= j < i ==> v[j].0 != x.0);
        v.update(i, x)
    } else {
        v.push(x)
    }
}

fn text_le_exec(a: &String, b: &String) -> (r: bool)
    ensures
        r == text_le(a@, b@),
{
    let x = chars_of(a.as_str());
    let y = chars_of(b.as_str());
    let mut i: usize = 0;
    assert(x@.subrange(0, x.len() as int) =~= x@);
    assert(y@.subrange(0, y.len() as int) =~= y@);
    while i < x.len()
        invariant
            i <= x.len(),
            x@ == a@,
            y@ == b@,
            i <= y.len(),
            text_le(a@, b@) == text_le(x@.subrange(i as int, x.len() as int), y@.subrange(i as int, y.len() as int)),
        decreases x.len() - i,
    {
        let ghost xs = x@.subrange(i as int, x.len() as int);
        let ghost ys = y@.subrange(i as int, y.len() as int);
        if i >= y.len() {
            return false;
        }
        assert(xs[0] == x@[i as int] && ys[0] == y@[i as int]);
        if x[i] != y[i] {
            return x[i] < y[i];
        }
        assert(xs.drop_first() =~= x@.subrange(i + 1, x.len() as int));
        assert(ys.drop_first() =~= y@.subrange(i + 1, y.len() as int));
        i = i + 1;
    }
    true
}

fn insert_entry(sorted: &mut Vec<LockEntry>, x: LockEntry)
    ensures
        entries_model(final(sorted)@) == insert_by_import(entries_model(old(sorted)@), x.model()),
{
    let ghost s0 = entries_model(sorted@);
    let mut k: usize = sorted.len();
    assert(s0.subrange(0, k as int) =~= s0);
    assert(s0.subrange(k as int, s0.len() as int) =~= Seq::<EntryModel>::empty());
    assert(insert_by_import(s0, x.model()) + Seq::<EntryModel>::empty() =~= insert_by_import(s0, x.model()));
    while k > 0 && !text_le_exec(&sorted[k - 1].import, &x.import)
        invariant
            k <= sorted.len(),
            sorted@ == old(sorted)@,
            s0 == entries_model(sorted@),
            insert_by_import(s0, x.model()) == insert_by_import(s0.subrange(0, k as int), x.model()) + s0.subrange(
                k as int,
                s0.len() as int,
            ),
        decreases k,
    {
        proof {
            let a = s0.subrange(0, k as int);
            assert(a.drop_last() =~= s0.subrange(0, k - 1));
            assert(a.last() == s0[k - 1]);
            assert(s0.subrange(k - 1, s0.len() as int) =~= seq![s0[k - 1]] + s0.subrange(k as int, s0.len() as int));
            assert(insert_by_import(a, x.model()) == insert_by_import(s0.subrange(0, k - 1), x.model()).push(s0[k - 1]));
            assert(insert_by_import(s0.subrange(0, k - 1), x.model()).push(s0[k - 1]) + s0.subrange(k as int, s0.len() as int)
                =~= insert_by_import(s0.subrange(0, k - 1), x.model()) + s0.subrange(k - 1, s0.len() as int));
        }
        k = k - 1;
    }
    proof {
        let a = s0.subrange(0, k as int);
        if k > 0 {
            assert(a.last() == s0[k - 1]);
            assert(insert_by_import(a, x.model()) == a.push(x.model()));
        } else {
            assert(insert_by_import(a, x.model()) == seq![x.model()]);
        }
    }
    let ghost xm = x.model();
    sorted.insert(k, x);
    assert(entries_model(sorted@) =~= s0.subrange(0, k as int).push(xm) + s0.subrange(k as int, s0.len() as int));
}

/// The lock entries sorted by import; entries of the same import keep
/// their order.
pub fn sort_entries(v: Vec<LockEntry>) -> (r: Vec<LockEntry>)
    ensures
        entries_model(r@) == sort_by_import(entries_model(v@)),
{
    let ghost m = entries_model(v@);
    let mut rest = v;
    let mut out: Vec<LockEntry> = Vec::new();
    let mut i: usize = 0;
    let n = rest.len();
    while i < n
        invariant
            i <= n == m.len(),
            entries_model(rest@) == m.subrange(i as int, n as int),
            entries_model(out@) == sort_by_import(m.subrange(0, i as int)),
        decreases n - i,
    {
        assert(m.subrange(0, i + 1).drop_last() =~= m.subrange(0, i as int));
        let ghost r0 = rest@;
        assert(entries_model(r0).len() == r0.len());
        let x = rest.remove(0);
        assert(x.model() == entries_model(r0)[0]);
        assert forall|j: int| 0 <= j < rest@.len() implies #[trigger] entries_model(rest@)[j] == m.subrange(
            i + 1,
            n as int,
        )[j] by {
            assert(rest@[j] == r0[j + 1]);
            assert(entries_model(r0)[j + 1] == m.subrange(i as int, n as int)[j + 1]);
        }
        assert(entries_model(rest@) =~= m.subrange(i + 1, n as int));
        insert_entry(&mut out, x);
        i = i + 1;
    }
    assert(m.subrange(0, n as int) =~= m);
    out
}

/// The lock entries with a dependency recorded: in place of the first
/// entry of the same import, or after them all; then sorted by import.
pub fn record_dependency(deps: Vec<LockEntry>, dep: LockEntry) -> (r: Vec<LockEntry>)
    ensures
        entries_model(r@) == sort_by_import(upsert(entries_model(deps@), dep.model())),
{
    let ghost m = entries_model(deps@);
    let ghost dm = dep.model();
    let mut list = deps;
    let mut i: usize = 0;
    while i < list.len()
        invariant
            i <= list.len(),
            entries_model(list@) == m,
            m == entries_model(deps@),
            dm == dep.model(),
            forall|j: int| 0 <= j < i ==> m[j].0 != dm.0,
        decreases list.len() - i,
    {
        assert(m[i as int] == list@[i as int].model());
        if str_eq(list[i].import.as_str(), dep.import.as_str()) {
            proof {
                assert(m[i as int].0 == dm.0);
                assert(0 <= i < m.len() && m[i as int].0 == dm.0 && (forall|j: int| 0 <= j < i ==> m[j].0 != dm.0));
                let w = choose|w: int| 0 <= w < m.len() && (#[trigger] m[w]).0 == dm.0 && (forall|j: int| 0 <= j < w ==> m[j].0 != dm.0);
                if w < i {
                } else if w > i {
                    assert(m[i as int].0 == dm.0);
                }
                assert(w == i);
            }
            list.set(i, dep);
            assert(entries_model(list@) =~= upsert(m, dm));
            return sort_entries(list);
        }
        i = i + 1;
    }
    list.push(dep);
    assert(entries_model(list@) =~= upsert(m, dm));
    sort_entries(list)
}

/// Whether entries are in order of their imports.
pub open spec fn sorted_by_import(s: Seq<EntryModel>) -> bool {
    forall|i: int, j: int| 0 <= i < j < s.len() ==> text_le((#[trigger] s[i]).0, (#[trigger] s[j]).0)
}

proof fn lemma_text_le_total(a: Seq<char>, b: Seq<char>)
    ensures
        text_le(a, b) || text_le(b, a),
    decreases a.len(),
{
    if a.len() > 0 && b.len() > 0 {
        if a[0] == b[0] {
            lemma_text_le_total(a.drop_first(), b.drop_first());
        }
    }
}

proof fn lemma_text_le_trans(a: Seq<char>, b: Seq<char>, c: Seq<char>)
    requires
        text_le(a, b),
        text_le(b, c),
    ensures
        text_le(a, c),
    decreases a.len(),
{
    if a.len() > 0 && b.len() > 0 && c.len() > 0 && a[0] == b[0] && b[0] == c[0] {
        lemma_text_le_trans(a.drop_first(), b.drop_first(), c.drop_first());
    }
}

proof fn lemma_insert_elems(t: Seq<EntryModel>, x: EntryModel)
    ensures
        insert_by_import(t, x).len() == t.len() + 1,
        forall|k: int|
            0 <= k < insert_by_import(t, x).len() ==> #[trigger] insert_by_import(t, x)[k] == x || exists|m: int|
                0 <= m < t.len() && insert_by_import(t, x)[k] == #[trigger] t[m],
    decreases t.len(),
{
    if t.len() > 0 && !text_le(t.last().0, x.0) {
        lemma_insert_elems(t.drop_last(), x);
        let r = insert_by_import(t, x);
        let r0 = insert_by_import(t.drop_last(), x);
        assert forall|k: int| 0 <= k < r.len() implies #[trigger] r[k] == x || exists|m: int|
            0 <= m < t.len() && r[k] == #[trigger] t[m] by {
            if k < r0.len() {
                if r0[k] != x {
                    let m = choose|m: int| 0 <= m < t.drop_last().len() && r0[k] == #[trigger] t.drop_last()[m];
                    assert(t[m] == t.drop_last()[m]);
                }
            } else {
                assert(r[k] == t[t.len() - 1]);
            }
        }
    } else if t.len() > 0 {
        let r = insert_by_import(t, x);
        assert forall|k: int| 0 <= k < r.len() implies #[trigger] r[k] == x || exists|m: int|
            0 <= m < t.len() && r[k] == #[trigger] t[m] by {
            if k < t.len() {
                assert(r[k] == t[k]);
            }
        }
    }
}

proof fn lemma_insert_sorted(t: Seq<EntryModel>, x: EntryModel)
    requires
        sorted_by_import(t),
    ensures
        sorted_by_import(insert_by_import(t, x)),
    decreases t.len(),
{
    if t.len() == 0 {
    } else if text_le(t.last().0, x.0) {
        let r = t.push(x);
        assert forall|i: int, j: int| 0 <= i < j < r.len() implies text_le((#[trigger] r[i]).0, (#[trigger] r[j]).0) by {
            if j == t.len() {
                if i < t.len() - 1 {
                    assert(text_le(t[i].0, t[t.len() - 1].0));
                    lemma_text_le_trans(t[i].0, t.last().0, x.0);
                }
            } else {
                assert(text_le(t[i].0, t[j].0));
            }
        }
    } else {
        let t0 = t.drop_last();
        assert(sorted_by_import(t0)) by {
            assert forall|i: int, j: int| 0 <= i < j < t0.len() implies text_le((#[trigger] t0[i]).0, (#[trigger] t0[j]).0) by {
                assert(text_le(t[i].0, t[j].0));
            }
        }
        lemma_insert_sorted(t0, x);
        lemma_insert_elems(t0, x);
        lemma_text_le_total(t.last().0, x.0);
        let r0 = insert_by_import(t0, x);
        let r = r0.push(t.last());
        assert forall|i: int, j: int| 0 <= i < j < r.len() implies text_le((#[trigger] r[i]).0, (#[trigger] r[j]).0) by {
            if j == r0.len() {
                assert(r[j] == t.last());
                if r0[i] == x {
                } else {
                    let m = choose|m: int| 0 <= m < t0.len() && r0[i] == #[trigger] t0[m];
                    assert(t0[m] == t[m]);
                    assert(text_le(t[m].0, t[t.len() - 1].0));
                }
            } else {
                assert(r[i] == r0[i] && r[j] == r0[j]);
            }
        }
    }
}

/// The lock file lists its entries in order of their imports, whatever
/// they were before a dependency was recorded.
pub proof fn law_lock_entries_sorted(v: Seq<EntryModel>)
    ensures
        sorted_by_import(sort_by_import(v)),
        sort_by_import(v).len() == v.len(),
    decreases v.len(),
{
    if v.len() > 0 {
        law_lock_entries_sorted(v.drop_last());
        lemma_insert_sorted(sort_by_import(v.drop_last()), v.last());
        lemma_insert_elems(sort_by_import(v.drop_last()), v.last());
    }
}

// ----------------------------------------------------------------------
// Go's names of the host platform, and Go workspaces

/// Go's name of an operating system as Rust names it: `darwin` for
/// `macos`, else the same.
pub open spec fn go_os_text(os: Seq<char>) -> Seq<char> {
    if os == "macos"@ {
        "darwin"@
    } else {
        os
    }
}

/// Go's name of an architecture as Rust names it: `amd64`, `arm64` and
/// `386` for `x86_64`, `aarch64` and `x86`, else the same.
pub open spec fn go_arch_text(arch: Seq<char>) -> Seq<char> {
    if arch == "x86_64"@ {
        "amd64"@
    } else if arch == "aarch64"@ {
        "arm64"@
    } else if arch == "x86"@ {
        "386"@
    } else {
        arch
    }
}

/// Go's operating system and architecture names for the ones Rust reports.
pub fn go_platform(os: &str, arch: &str) -> (r: (String, String))
    ensures
        r.0@ == go_os_text(os@),
        r.1@ == go_arch_text(arch@),
{
    let goos = if str_eq(os, "macos") {
        "darwin"
    } else {
        os
    };
    let goarch = if str_eq(arch, "x86_64") {
        "amd64"
    } else if str_eq(arch, "aarch64") {
        "arm64"
    } else if str_eq(arch, "x86") {
        "386"
    } else {
        arch
    };
    (goos.to_owned(), goarch.to_owned())
}

/// Whether `needle` occurs in `text`.
pub open spec fn occurs_in(text: Seq<char>, needle: Seq<char>) -> bool {
    exists|i: int| 0 <= i && i + needle.len() <= text.len() && #[trigger] text.subrange(i, i + needle.len()) == needle
}

/// The import of the PostgreSQL driver, whose module a Go workspace must
/// fetch with `go mod tidy`.
pub open spec fn pq_import() -> Seq<char> {
    "\"github.com/lib/pq\""@
}

/// Whether one of the Go sources of a workspace imports the PostgreSQL
/// driver, so that `go mod tidy` must run.
pub fn sources_need_tidy(sources: &Vec<String>) -> (r: bool)
    ensures
        r == exists|k: int| 0 <= k < sources@.len() && occurs_in(#[trigger] sources@[k]@, pq_import()),
{
    let needle = chars_of("\"github.com/lib/pq\"");
    let mut k: usize = 0;
    while k < sources.len()
        invariant
            k <= sources.len(),
            needle@ == pq_import(),
            forall|j: int| 0 <= j < k ==> !occurs_in(#[trigger] sources@[j]@, pq_import()),
        decreases sources.len() - k,
    {
        if contains_chars(&chars_of(sources[k].as_str()), &needle) {
            return true;
        }
        k = k + 1;
    }
    false
}

fn contains_chars(text: &Vec<char>, needle: &Vec<char>) -> (r: bool)
    ensures
        r == occurs_in(text@, needle@),
{
    if needle.len() > text.len() {
        return false;
    }
    let mut i: usize = 0;
    let last = text.len() - needle.len();
    while i <= last
        invariant
            needle.len() <= text.len(),
            last == text.len() - needle.len(),
            i <= last + 1,
            forall|j: int| 0 <= j < i ==> #[trigger] text@.subrange(j, j + needle.len()) != needle@,
        decreases text.len() + 1 - i,
    {
        let mut k: usize = 0;
        let mut same = true;
        while k < needle.len()
            invariant
                k <= needle.len(),
                i + needle.len() <= text.len(),
                same == (forall|t: int| 0 <= t < k ==> text@[i + t] == needle@[t]),
            decreases needle.len() - k,
        {
            if text[i + k] != needle[k] {
                same = false;
            }
            k = k + 1;
        }
        if same {
            assert(text@.subrange(i as int, i + needle.len()) =~= needle@);
            return true;
        }
        proof {
            let t = choose|t: int| 0 <= t < needle.len() && text@[i + t] != needle@[t];
            assert(text@.subrange(i as int, i + needle.len())[t] != needle@[t]);
        }
        i = i + 1;
    }
    false
}

} // verus!
