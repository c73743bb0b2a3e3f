//! System maintenance: mirror benchmarking and ranking, cache cleaning and
//! conflict detection.
//!
//! The mirror selector ranks candidate mirrors by measured transfer rate,
//! fastest first; measuring itself is a network probe done by the caller,
//! which hands the speeds in. Every input mirror yields exactly one ranked
//! entry, a failed probe counting as speed zero rather than being dropped,
//! and mirrors with equal speed keep their input order.

use vstd::prelude::*;
use crate::models::{RepoInfo, RepoModel};
use crate::text::{match_at, matches_at, spec_lines, split_lines, str_eq};

verus! {

/// The measured speed of a ranked entry; an unmeasured entry counts as zero.
pub open spec fn entry_speed(e: RepoModel) -> int {
    match e.speed_bps {
        Some(s) => s as int,
        None => 0,
    }
}

/// Selects the entries at one speed, for stating that ranking keeps their
/// order.
pub open spec fn speed_is(v: int) -> spec_fn(RepoModel) -> bool {
    |e: RepoModel| entry_speed(e) == v
}

/// Inserts `x` into the descending list `t`, after every entry at least as
/// fast: a later-measured mirror never overtakes an equally fast earlier one.
pub open spec fn insert_desc(t: Seq<RepoModel>, x: RepoModel) -> Seq<RepoModel>
    decreases t.len(),
{
    if t.len() == 0 {
        seq![x]
    } else if entry_speed(t.last()) >= entry_speed(x) {
        t.push(x)
    } else {
        insert_desc(t.drop_last(), x).push(t.last())
    }
}

/// The ranking of `s`: descending by speed, stable on ties.
pub open spec fn rank(s: Seq<RepoModel>) -> Seq<RepoModel>
    decreases s.len(),
{
    if s.len() == 0 {
        Seq::empty()
    } else {
        insert_desc(rank(s.drop_last()), s.last())
    }
}

/// Non-increasing speed from front to back.
pub open spec fn sorted_desc(s: Seq<RepoModel>) -> bool {
    forall|i: int, j: int| 0 <= i < j < s.len() ==> entry_speed(s[i]) >= entry_speed(s[j])
}

/// One unranked entry per candidate mirror: named after its URL, enabled,
/// with its measured speed.
pub open spec fn mirror_entries(names: Seq<Seq<char>>, speeds: Seq<u64>) -> Seq<RepoModel> {
    Seq::new(
        names.len(),
        |i: int| RepoModel { name: names[i], url: names[i], enabled: true, speed_bps: Some(speeds[i]) },
    )
}

proof fn lemma_insert_desc_props(t: Seq<RepoModel>, x: RepoModel)
    requires
        sorted_desc(t),
    ensures
        insert_desc(t, x).len() == t.len() + 1,
        sorted_desc(insert_desc(t, x)),
        forall|i: int|
            0 <= i < insert_desc(t, x).len() ==> (insert_desc(t, x)[i] == x || t.contains(
                insert_desc(t, x)[i],
            )),
    decreases t.len(),
{
    let r = insert_desc(t, x);
    if t.len() == 0 {
        assert(r =~= seq![x]);
    } else if entry_speed(t.last()) >= entry_speed(x) {
        assert(r == t.push(x));
        assert forall|i: int, j: int| 0 <= i < j < r.len() implies entry_speed(r[i])
            >= entry_speed(r[j]) by {
            if j < t.len() {
            } else {
                assert(r[j] == x);
                if i < t.len() - 1 {
                    assert(entry_speed(t[i]) >= entry_speed(t[t.len() - 1]));
                }
            }
        }
        assert forall|i: int| 0 <= i < r.len() implies (r[i] == x || t.contains(r[i])) by {
            if i < t.len() {
                assert(t[i] == r[i]);
            }
        }
    } else {
        let dl = t.drop_last();
        assert(sorted_desc(dl)) by {
            assert forall|i: int, j: int| 0 <= i < j < dl.len() implies entry_speed(dl[i])
                >= entry_speed(dl[j]) by {
                assert(dl[i] == t[i]);
                assert(dl[j] == t[j]);
            }
        }
        lemma_insert_desc_props(dl, x);
        let inner = insert_desc(dl, x);
        assert(r == inner.push(t.last()));
        assert forall|i: int, j: int| 0 <= i < j < r.len() implies entry_speed(r[i])
            >= entry_speed(r[j]) by {
            if j < inner.len() {
            } else {
                assert(r[j] == t.last());
                assert(r[i] == inner[i]);
                if inner[i] == x {
                } else {
                    assert(dl.contains(inner[i]));
                    let k = choose|k: int| 0 <= k < dl.len() && dl[k] == inner[i];
                    assert(entry_speed(t[k]) >= entry_speed(t[t.len() - 1]));
                    assert(dl[k] == t[k]);
                }
            }
        }
        assert forall|i: int| 0 <= i < r.len() implies (r[i] == x || t.contains(r[i])) by {
            if i < inner.len() {
                if inner[i] == x {
                } else {
                    assert(dl.contains(inner[i]));
                    let k = choose|k: int| 0 <= k < dl.len() && dl[k] == inner[i];
                    assert(t[k] == dl[k]);
                }
            } else {
                assert(r[i] == t.last());
                assert(t[t.len() - 1] == t.last());
            }
        }
    }
}

proof fn lemma_insert_desc_stable(t: Seq<RepoModel>, x: RepoModel, v: int)
    requires
        sorted_desc(t),
    ensures
        entry_speed(x) == v ==> insert_desc(t, x).filter(speed_is(v)) == t.filter(
            speed_is(v),
        ).push(x),
        entry_speed(x) != v ==> insert_desc(t, x).filter(speed_is(v)) == t.filter(speed_is(v)),
    decreases t.len(),
{
    reveal(Seq::filter);
    let p = speed_is(v);
    let r = insert_desc(t, x);
    if t.len() == 0 {
        assert(r == seq![x]);
        assert(r.drop_last() =~= t);
        assert(r.last() == x);
        assert(t.filter(p) == t);
        if !p(x) {
            assert(r.filter(p) == r.drop_last().filter(p));
        }
    } else if entry_speed(t.last()) >= entry_speed(x) {
        assert(r == t.push(x));
        assert(r.drop_last() =~= t);
        assert(r.last() == x);
    } else {
        let dl = t.drop_last();
        assert(sorted_desc(dl)) by {
            assert forall|i: int, j: int| 0 <= i < j < dl.len() implies entry_speed(dl[i])
                >= entry_speed(dl[j]) by {
                assert(dl[i] == t[i]);
                assert(dl[j] == t[j]);
            }
        }
        lemma_insert_desc_stable(dl, x, v);
        let inner = insert_desc(dl, x);
        assert(r == inner.push(t.last()));
        assert(r.drop_last() =~= inner);
        assert(r.last() == t.last());
        if entry_speed(x) == v {
            // the displaced entries are strictly slower than `x`, so none of
            // them is at speed `v`
            assert(!p(t.last()));
            assert(r.filter(p) == inner.filter(p));
            assert(t.filter(p) == dl.filter(p));
        } else {
            if p(t.last()) {
                assert(r.filter(p) == inner.filter(p).push(t.last()));
                assert(t.filter(p) == dl.filter(p).push(t.last()));
            } else {
                assert(r.filter(p) == inner.filter(p));
                assert(t.filter(p) == dl.filter(p));
            }
        }
    }
}

/// Ranking returns exactly one entry per input, in non-increasing speed
/// order.
pub proof fn lemma_rank_sorted(s: Seq<RepoModel>)
    ensures
        rank(s).len() == s.len(),
        sorted_desc(rank(s)),
    decreases s.len(),
{
    if s.len() > 0 {
        lemma_rank_sorted(s.drop_last());
        lemma_insert_desc_props(rank(s.drop_last()), s.last());
    }
}

/// Every ranked entry is one of the input entries.
pub proof fn lemma_rank_members(s: Seq<RepoModel>)
    ensures
        forall|i: int| 0 <= i < rank(s).len() ==> s.contains(rank(s)[i]),
    decreases s.len(),
{
    if s.len() > 0 {
        let dl = s.drop_last();
        lemma_rank_members(dl);
        lemma_rank_sorted(dl);
        lemma_insert_desc_props(rank(dl), s.last());
        let r = rank(s);
        assert forall|i: int| 0 <= i < r.len() implies s.contains(r[i]) by {
            if r[i] == s.last() {
                assert(s[s.len() - 1] == s.last());
            } else {
                assert(rank(dl).contains(r[i]));
                let k = choose|k: int| 0 <= k < rank(dl).len() && rank(dl)[k] == r[i];
                assert(dl.contains(rank(dl)[k]));
                let m = choose|m: int| 0 <= m < dl.len() && dl[m] == rank(dl)[k];
                assert(s[m] == dl[m]);
            }
        }
    }
}

/// Ties keep input order: for every speed, the ranked entries at that speed
/// are exactly the input entries at that speed, in input order.
pub proof fn lemma_rank_stable(s: Seq<RepoModel>, v: int)
    ensures
        rank(s).filter(speed_is(v)) == s.filter(speed_is(v)),
    decreases s.len(),
{
    reveal(Seq::filter);
    let p = speed_is(v);
    if s.len() == 0 {
        assert(rank(s) =~= Seq::<RepoModel>::empty());
    } else {
        let dl = s.drop_last();
        lemma_rank_stable(dl, v);
        lemma_rank_sorted(dl);
        lemma_insert_desc_stable(rank(dl), s.last(), v);
        if p(s.last()) {
            assert(s.filter(p) == dl.filter(p).push(s.last()));
        } else {
            assert(s.filter(p) == dl.filter(p));
        }
    }
}

proof fn lemma_insert_desc_at(t: Seq<RepoModel>, x: RepoModel, j: int)
    requires
        0 <= j <= t.len(),
        forall|k: int| j <= k < t.len() ==> entry_speed(t[k]) < entry_speed(x),
        j > 0 ==> entry_speed(t[j - 1]) >= entry_speed(x),
    ensures
        insert_desc(t, x) == t.subrange(0, j) + seq![x] + t.subrange(j, t.len() as int),
    decreases t.len(),
{
    if t.len() == 0 {
        assert(insert_desc(t, x) =~= t.subrange(0, 0) + seq![x] + t.subrange(0, 0));
    } else if entry_speed(t.last()) >= entry_speed(x) {
        assert(t[t.len() - 1] == t.last());
        assert(j == t.len());
        assert(t.push(x) =~= t.subrange(0, j) + seq![x] + t.subrange(j, t.len() as int));
    } else {
        let dl = t.drop_last();
        assert(j < t.len());
        assert forall|k: int| j <= k < dl.len() implies entry_speed(dl[k]) < entry_speed(x) by {
            assert(dl[k] == t[k]);
        }
        if j > 0 {
            assert(dl[j - 1] == t[j - 1]);
        }
        lemma_insert_desc_at(dl, x, j);
        assert(insert_desc(dl, x).push(t.last()) =~= t.subrange(0, j) + seq![x] + t.subrange(
            j,
            t.len() as int,
        )) by {
            assert(dl.subrange(0, j) =~= t.subrange(0, j));
            assert(dl.subrange(j, dl.len() as int) =~= t.subrange(j, t.len() - 1));
        }
    }
}

/// The candidate mirrors configured for a distribution family; empty for an
/// unrecognized distribution.
pub open spec fn spec_mirror_candidates(d: Seq<char>) -> Seq<Seq<char>> {
    if d == "ubuntu"@ || d == "debian"@ {
        seq!["http://archive.ubuntu.com/ubuntu/"@, "http://us.archive.ubuntu.com/ubuntu/"@]
    } else if d == "arch"@ || d == "manjaro"@ {
        seq![
            "https://mirror.rackspace.com/archlinux/"@,
            "https://mirrors.kernel.org/archlinux/"@,
        ]
    } else {
        Seq::empty()
    }
}

/// The first line of the release metadata carrying the distribution
/// identifier.
pub open spec fn spec_find_id_line(ls: Seq<Seq<char>>) -> Option<Seq<char>>
    decreases ls.len(),
{
    if ls.len() == 0 {
        None
    } else if matches_at(ls[0], "ID="@, 0) {
        Some(ls[0])
    } else {
        spec_find_id_line(ls.drop_first())
    }
}

pub open spec fn strip_trailing_quotes(h: Seq<char>) -> Seq<char>
    decreases h.len(),
{
    if h.len() > 0 && h.last() == '"' {
        strip_trailing_quotes(h.drop_last())
    } else {
        h
    }
}

pub open spec fn strip_leading_quotes(h: Seq<char>) -> Seq<char>
    decreases h.len(),
{
    if h.len() > 0 && h[0] == '"' {
        strip_leading_quotes(h.drop_first())
    } else {
        h
    }
}

/// The value of an identifier line: what follows the marker, unquoted.
pub open spec fn spec_id_value(l: Seq<char>) -> Seq<char> {
    strip_leading_quotes(strip_trailing_quotes(l.subrange(3, l.len() as int)))
}

/// The distribution identifier carried by the release metadata, or
/// `unknown` when none is found.
pub open spec fn spec_distro(os: Seq<char>) -> Seq<char> {
    match spec_find_id_line(spec_lines(os)) {
        Some(l) => spec_id_value(l),
        None => "unknown"@,
    }
}

proof fn lemma_strip_trailing_char(h: Seq<char>, e: int)
    requires
        0 <= e <= h.len(),
        forall|k: int| e <= k < h.len() ==> h[k] == '"',
        e > 0 ==> h[e - 1] != '"',
    ensures
        strip_trailing_quotes(h) =~= h.subrange(0, e),
    decreases h.len(),
{
    if h.len() > 0 && h.last() == '"' {
        assert(e < h.len());
        lemma_strip_trailing_char(h.drop_last(), e);
        assert(h.drop_last().subrange(0, e) =~= h.subrange(0, e));
    } else {
        assert(e == h.len());
    }
}

proof fn lemma_strip_leading_char(h: Seq<char>, b: int)
    requires
        0 <= b <= h.len(),
        forall|k: int| 0 <= k < b ==> h[k] == '"',
        b < h.len() ==> h[b] != '"',
    ensures
        strip_leading_quotes(h) =~= h.subrange(b, h.len() as int),
    decreases h.len(),
{
    if h.len() > 0 && h[0] == '"' {
        assert(b > 0);
        let d = h.drop_first();
        assert forall|k: int| 0 <= k < b - 1 implies d[k] == '"' by {
            assert(d[k] == h[k + 1]);
        }
        lemma_strip_leading_char(d, b - 1);
        assert(d.subrange(b - 1, d.len() as int) =~= h.subrange(b, h.len() as int));
    } else {
        assert(b == 0);
        assert(h.subrange(0, h.len() as int) =~= h);
    }
}

/// Position after the last character of `s` that is not part of a trailing
/// run of quotes, scanning no further left than `from`.
fn scan_quotes_end(s: &str, from: usize) -> (e: usize)
    requires
        from <= s@.len(),
    ensures
        from <= e <= s@.len(),
        forall|k: int| e <= k < s@.len() ==> s@[k] == '"',
        e > from ==> s@[e - 1] != '"',
{
    let sl = s.unicode_len();
    let mut j: usize = sl;
    while j > from
        invariant
            from <= j <= sl,
            sl == s@.len(),
            forall|k: int| j <= k < sl ==> s@[k] == '"',
        decreases j,
    {
        if s.get_char(j - 1) != '"' {
            return j;
        }
        j = j - 1;
    }
    j
}

/// Position of the first character in `[from, to)` that is not a quote.
fn scan_quotes_start(s: &str, from: usize, to: usize) -> (b: usize)
    requires
        from <= to <= s@.len(),
    ensures
        from <= b <= to,
        forall|k: int| from <= k < b ==> s@[k] == '"',
        b < to ==> s@[b as int] != '"',
{
    let mut j: usize = from;
    while j < to
        invariant
            from <= j <= to,
            to <= s@.len(),
            forall|k: int| from <= k < j ==> s@[k] == '"',
        decreases to - j,
    {
        if s.get_char(j) != '"' {
            return j;
        }
        j = j + 1;
    }
    j
}

/// The value of an identifier line, as the release metadata writes it:
/// what follows the marker, with surrounding quotes removed.
fn id_line_value(s: &str) -> (r: String)
    requires
        matches_at(s@, "ID="@, 0),
    ensures
        r@ == spec_id_value(s@),
{
    proof {
        reveal_strlit("ID=");
    }
    let e = scan_quotes_end(s, 3);
    let b = scan_quotes_start(s, 3, e);
    proof {
        let t = s@.subrange(3, s@.len() as int);
        assert forall|k: int| e - 3 <= k < t.len() implies t[k] == '"' by {
            assert(t[k] == s@[k + 3]);
        }
        if e > 3 {
            assert(t[e - 4] == s@[e - 1]);
        }
        lemma_strip_trailing_char(t, e - 3);
        let u = strip_trailing_quotes(t);
        assert(u =~= s@.subrange(3, e as int));
        assert forall|k: int| 0 <= k < b - 3 implies u[k] == '"' by {
            assert(u[k] == s@[k + 3]);
        }
        if b < e {
            assert(u[b - 3] == s@[b as int]);
        }
        lemma_strip_leading_char(u, b - 3);
        assert(strip_leading_quotes(u) =~= s@.subrange(b as int, e as int));
    }
    s.substring_char(b, e).to_owned()
}

fn speed_value(e: &RepoInfo) -> (r: u64)
    ensures
        r as int == entry_speed(e.deep_view()),
{
    match e.speed_bps {
        Some(s) => s,
        None => 0,
    }
}

/// Position where `x` belongs in the descending list `out`: after every
/// entry at least as fast.
fn find_slot(out: &Vec<RepoInfo>, x: &RepoInfo) -> (j: usize)
    ensures
        j <= out@.len(),
        forall|k: int|
            j <= k < out@.len() ==> entry_speed(out.deep_view()[k]) < entry_speed(x.deep_view()),
        j > 0 ==> entry_speed(out.deep_view()[j - 1]) >= entry_speed(x.deep_view()),
{
    let xs = speed_value(x);
    let mut j: usize = out.len();
    while j > 0
        invariant
            j <= out@.len(),
            xs as int == entry_speed(x.deep_view()),
            forall|k: int|
                j <= k < out@.len() ==> entry_speed(out.deep_view()[k]) < entry_speed(
                    x.deep_view(),
                ),
        decreases j,
    {
        if speed_value(&out[j - 1]) >= xs {
            return j;
        }
        proof {
            assert(out.deep_view()[j - 1] == out@[j - 1].deep_view());
        }
        j = j - 1;
    }
    j
}

fn insert_ranked(out: &mut Vec<RepoInfo>, x: RepoInfo)
    requires
        sorted_desc(old(out).deep_view()),
    ensures
        final(out).deep_view() == insert_desc(old(out).deep_view(), x.deep_view()),
{
    let ghost t = out.deep_view();
    let ghost xm = x.deep_view();
    let j = find_slot(out, &x);
    out.insert(j, x);
    proof {
        lemma_insert_desc_at(t, xm, j as int);
        assert(out.deep_view() =~~= t.subrange(0, j as int) + seq![xm] + t.subrange(
            j as int,
            t.len() as int,
        )) by {
            assert(out@ == old(out)@.insert(j as int, x));
            assert forall|i: int| 0 <= i < out@.len() implies out.deep_view()[i] == (t.subrange(
                0,
                j as int,
            ) + seq![xm] + t.subrange(j as int, t.len() as int))[i] by {
                assert(out.deep_view()[i] == out@[i].deep_view());
                if i < j {
                    assert(out@[i] == old(out)@[i]);
                } else if i == j {
                    assert(out@[i] == x);
                } else {
                    assert(out@[i] == old(out)@[i - 1]);
                }
            }
        }
    }
}

/// One advisory conflict between two packages; it never blocks an operation
/// by itself.
#[derive(Debug, Clone)]
pub struct PackageConflict {
    pub package1: String,
    pub package2: String,
    pub reason: String,
}

pub struct MaintenanceManager;

impl Default for MaintenanceManager {
    fn default() -> MaintenanceManager {
        MaintenanceManager::new()
    }
}

impl MaintenanceManager {
    pub fn new() -> MaintenanceManager {
        MaintenanceManager
    }

    /// Ranks the candidate mirrors by their measured speeds, fastest first.
    /// Every input mirror yields exactly one entry, each with its measured
    /// speed recorded; ties keep input order (see `lemma_rank_stable`).
    pub fn test_mirror_speeds(&self, mirrors: Vec<String>, speeds: Vec<u64>) -> (r: Vec<RepoInfo>)
        requires
            mirrors@.len() == speeds@.len(),
        ensures
            r.deep_view() == rank(mirror_entries(mirrors.deep_view(), speeds@)),
            r@.len() == mirrors@.len(),
            sorted_desc(r.deep_view()),
            forall|i: int| 0 <= i < r@.len() ==> r.deep_view()[i].speed_bps is Some,
    {
        let ghost target = mirror_entries(mirrors.deep_view(), speeds@);
        let mut out: Vec<RepoInfo> = Vec::new();
        let mut i: usize = 0;
        proof {
            assert(out.deep_view() =~= Seq::<RepoModel>::empty());
            assert(target.subrange(0, 0) =~= Seq::<RepoModel>::empty());
            assert(rank(target.subrange(0, 0)) == Seq::<RepoModel>::empty());
        }
        while i < mirrors.len()
            invariant
                i <= mirrors@.len(),
                mirrors@.len() == speeds@.len(),
                target == mirror_entries(mirrors.deep_view(), speeds@),
                out.deep_view() == rank(target.subrange(0, i as int)),
                sorted_desc(out.deep_view()),
            decreases mirrors@.len() - i,
        {
            let entry = RepoInfo {
                name: mirrors[i].clone(),
                url: mirrors[i].clone(),
                enabled: true,
                speed_bps: Some(speeds[i]),
            };
            let ghost em = entry.deep_view();
            let ghost prev = rank(target.subrange(0, i as int));
            proof {
                assert(em =~~= target[i as int]);
                assert(target.subrange(0, i + 1).drop_last() =~= target.subrange(0, i as int));
                assert(target.subrange(0, i + 1).last() == target[i as int]);
                lemma_insert_desc_props(prev, em);
            }
            insert_ranked(&mut out, entry);
            i = i + 1;
        }
        proof {
            assert(target.subrange(0, i as int) =~= target);
            lemma_rank_sorted(target);
            lemma_rank_members(target);
            assert forall|k: int| 0 <= k < out@.len() implies out.deep_view()[k].speed_bps
                is Some by {
                assert(target.contains(rank(target)[k]));
                let m = choose|m: int| 0 <= m < target.len() && target[m] == rank(target)[k];
                assert(target[m].speed_bps is Some);
            }
        }
        out
    }

    /// The candidate mirrors configured for a distribution family.
    pub fn mirror_candidates(distro: &str) -> (r: Vec<String>)
        ensures
            r.deep_view() == spec_mirror_candidates(distro@),
    {
        let mut v: Vec<String> = Vec::new();
        if str_eq(distro, "ubuntu") || str_eq(distro, "debian") {
            v.push(String::from_str("http://archive.ubuntu.com/ubuntu/"));
            v.push(String::from_str("http://us.archive.ubuntu.com/ubuntu/"));
        } else if str_eq(distro, "arch") || str_eq(distro, "manjaro") {
            v.push(String::from_str("https://mirror.rackspace.com/archlinux/"));
            v.push(String::from_str("https://mirrors.kernel.org/archlinux/"));
        }
        proof {
            assert(v.deep_view() =~= spec_mirror_candidates(distro@));
        }
        v
    }

    /// Picks the fastest candidate mirror for the detected distribution,
    /// given the measured speed of each candidate. An unrecognized
    /// distribution, which has no candidates, yields the fixed sentinel
    /// text rather than a failure: mirror selection is advisory.
    pub fn select_best_mirror(&self, distro: &str, speeds: Vec<u64>) -> (r: String)
        requires
            speeds@.len() == spec_mirror_candidates(distro@).len(),
        ensures
            spec_mirror_candidates(distro@).len() == 0 ==> r@ == "No mirrors configured"@,
            spec_mirror_candidates(distro@).len() > 0 ==> r@ == rank(
                mirror_entries(spec_mirror_candidates(distro@), speeds@),
            )[0].url,
    {
        let mirrors = Self::mirror_candidates(distro);
        if mirrors.len() == 0 {
            return String::from_str("No mirrors configured");
        }
        let ranked = self.test_mirror_speeds(mirrors, speeds);
        proof {
            assert(ranked.deep_view()[0] == ranked@[0].deep_view());
        }
        ranked[0].url.clone()
    }

    /// Reads the distribution identifier out of the system release
    /// metadata handed in by the caller; `unknown` when none is present.
    pub fn detect_distro(&self, os_release: &str) -> (r: String)
        ensures
            r@ == spec_distro(os_release@),
    {
        let lines = split_lines(os_release);
        let ghost full = lines.deep_view();
        let mut i: usize = 0;
        proof {
            assert(full.subrange(0, full.len() as int) =~= full);
        }
        while i < lines.len()
            invariant
                i <= lines@.len(),
                full == lines.deep_view(),
                full == spec_lines(os_release@),
                spec_find_id_line(full) == spec_find_id_line(
                    full.subrange(i as int, full.len() as int),
                ),
            decreases lines@.len() - i,
        {
            let ghost rem = full.subrange(i as int, full.len() as int);
            proof {
                assert(rem[0] == full[i as int]);
                assert(full[i as int] == lines@[i as int]@);
            }
            if match_at(lines[i].as_str(), "ID=", 0) {
                let value = id_line_value(lines[i].as_str());
                proof {
                    assert(spec_find_id_line(rem) == Some(full[i as int]));
                }
                return value;
            }
            proof {
                assert(rem.drop_first() =~= full.subrange(i + 1, full.len() as int));
            }
            i = i + 1;
        }
        proof {
            assert(full.subrange(i as int, full.len() as int).len() == 0);
        }
        String::from_str("unknown")
    }

    /// Cleans the package caches; reports the number of bytes freed.
    pub fn clean_cache(&self) -> (r: u64)
        ensures
            r == 0,
    {
        0
    }

    /// Detects and removes orphaned packages; reports what was removed.
    pub fn remove_orphans(&self) -> (r: Vec<String>)
        ensures
            r@.len() == 0,
    {
        Vec::new()
    }

    /// Detects package conflicts between the configured backends.
    pub fn detect_conflicts(&self) -> (r: Vec<PackageConflict>)
        ensures
            r@.len() == 0,
    {
        Vec::new()
    }
}

} // verus!
