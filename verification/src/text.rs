//! Text utilities shared by the backend output parsers: character classes,
//! exact and case-insensitive subsequence matching, line and token splitting,
//! trimming, and decimal rendering of counters.
//!
//! All external tools speak plain line-oriented text, so every parser in this
//! crate is built from the functions of this module. Whitespace here means
//! ASCII blanks (space, tab, carriage return), which is what the wrapped
//! command-line tools emit.

use vstd::prelude::*;

verus! {

/// ASCII blank characters, the separators of tool output columns.
pub open spec fn is_space_char(c: char) -> bool {
    c == ' ' || c == '\t' || c == '\r'
}

/// Case folding for comparisons: the code of `c` with ASCII upper-case
/// letters mapped to their lower-case counterparts.
pub open spec fn fold_code(c: char) -> int {
    if 65 <= c as int && c as int <= 90 {
        c as int + 32
    } else {
        c as int
    }
}

/// `n` occurs in `h` starting at position `i`.
pub open spec fn matches_at(h: Seq<char>, n: Seq<char>, i: int) -> bool {
    0 <= i && i + n.len() <= h.len() && (forall|j: int| 0 <= j < n.len() ==> h[i + j] == n[j])
}

/// `n` occurs in `h` starting at position `i`, compared case-insensitively.
pub open spec fn matches_ci_at(h: Seq<char>, n: Seq<char>, i: int) -> bool {
    0 <= i && i + n.len() <= h.len() && (forall|j: int|
        0 <= j < n.len() ==> fold_code(h[i + j]) == fold_code(n[j]))
}

/// `h` contains `n` as a contiguous subsequence, case-insensitively.
pub open spec fn contains_ci(h: Seq<char>, n: Seq<char>) -> bool {
    exists|i: int| matches_ci_at(h, n, i)
}

/// `h` contains `n` as a contiguous subsequence.
pub open spec fn contains_seq(h: Seq<char>, n: Seq<char>) -> bool {
    exists|i: int| matches_at(h, n, i)
}

/// Position of the first occurrence of `n` in `h` at or after `from`.
pub open spec fn first_match_from(h: Seq<char>, n: Seq<char>, from: nat) -> Option<int>
    decreases h.len() + 1 - from,
{
    if from + n.len() > h.len() {
        None
    } else if matches_at(h, n, from as int) {
        Some(from as int)
    } else {
        first_match_from(h, n, (from + 1) as nat)
    }
}

pub fn fold_char(c: char) -> (r: u32)
    ensures
        r == fold_code(c),
{
    let u = c as u32;
    if 65 <= u && u <= 90 {
        u + 32
    } else {
        u
    }
}

pub fn space_char(c: char) -> (r: bool)
    ensures
        r == is_space_char(c),
{
    c == ' ' || c == '\t' || c == '\r'
}

pub fn match_at(s: &str, pat: &str, i: usize) -> (r: bool)
    ensures
        r == matches_at(s@, pat@, i as int),
{
    let sl = s.unicode_len();
    let pl = pat.unicode_len();
    if pl > sl || i > sl - pl {
        return false;
    }
    let mut j: usize = 0;
    while j < pl
        invariant
            i + pl <= sl,
            sl == s@.len(),
            pl == pat@.len(),
            j <= pl,
            forall|k: int| 0 <= k < j ==> s@[i + k] == pat@[k],
        decreases pl - j,
    {
        if s.get_char(i + j) != pat.get_char(j) {
            return false;
        }
        j = j + 1;
    }
    true
}

pub fn match_ci_at(s: &str, pat: &str, i: usize) -> (r: bool)
    ensures
        r == matches_ci_at(s@, pat@, i as int),
{
    let sl = s.unicode_len();
    let pl = pat.unicode_len();
    if pl > sl || i > sl - pl {
        return false;
    }
    let mut j: usize = 0;
    while j < pl
        invariant
            i + pl <= sl,
            sl == s@.len(),
            pl == pat@.len(),
            j <= pl,
            forall|k: int| 0 <= k < j ==> fold_code(s@[i + k]) == fold_code(pat@[k]),
        decreases pl - j,
    {
        if fold_char(s.get_char(i + j)) != fold_char(pat.get_char(j)) {
            return false;
        }
        j = j + 1;
    }
    true
}

/// Case-insensitive containment check, the basis of the conversion denylist
/// gate and of hardware detection on tool output.
pub fn contains_ci_str(s: &str, pat: &str) -> (r: bool)
    ensures
        r == contains_ci(s@, pat@),
{
    let sl = s.unicode_len();
    let pl = pat.unicode_len();
    if pl > sl {
        return false;
    }
    let mut i: usize = 0;
    while i <= sl - pl
        invariant
            pl <= sl,
            sl == s@.len(),
            pl == pat@.len(),
            i <= sl - pl + 1,
            forall|k: int| 0 <= k < i ==> !matches_ci_at(s@, pat@, k),
        decreases sl - pl - i + 1,
    {
        if match_ci_at(s, pat, i) {
            return true;
        }
        i = i + 1;
    }
    assert forall|k: int| !matches_ci_at(s@, pat@, k) by {
        if 0 <= k < i {
            // scanned and rejected
        }  // otherwise out of range for a match of this length
    }
    false
}

/// Equality of two strings by their characters.
pub fn str_eq(a: &str, b: &str) -> (r: bool)
    ensures
        r == (a@ == b@),
{
    let al = a.unicode_len();
    let bl = b.unicode_len();
    if al != bl {
        return false;
    }
    let r = match_at(a, b, 0);
    proof {
        if r {
            assert(a@ =~= b@);
        } else {
            if a@ == b@ {
                assert(matches_at(a@, b@, 0));
            }
        }
    }
    r
}

/// Exact containment check.
pub fn contains_str(s: &str, pat: &str) -> (r: bool)
    ensures
        r == contains_seq(s@, pat@),
{
    let sl = s.unicode_len();
    let pl = pat.unicode_len();
    if pl > sl {
        return false;
    }
    let mut i: usize = 0;
    while i <= sl - pl
        invariant
            pl <= sl,
            sl == s@.len(),
            pl == pat@.len(),
            i <= sl - pl + 1,
            forall|k: int| 0 <= k < i ==> !matches_at(s@, pat@, k),
        decreases sl - pl - i + 1,
    {
        if match_at(s, pat, i) {
            return true;
        }
        i = i + 1;
    }
    assert forall|k: int| !matches_at(s@, pat@, k) by {
        if 0 <= k < i {
            // scanned and rejected
        }  // otherwise out of range for a match of this length
    }
    false
}

/// First occurrence of `pat` in `s`, scanning left to right.
pub fn find_first(s: &str, pat: &str) -> (r: Option<usize>)
    ensures
        match r {
            Some(i) => first_match_from(s@, pat@, 0) == Some(i as int),
            None => first_match_from(s@, pat@, 0) is None,
        },
{
    let sl = s.unicode_len();
    let pl = pat.unicode_len();
    if pl > sl {
        return None;
    }
    let mut i: usize = 0;
    while i <= sl - pl
        invariant
            pl <= sl,
            sl == s@.len(),
            pl == pat@.len(),
            i <= sl - pl + 1,
            first_match_from(s@, pat@, 0) == first_match_from(s@, pat@, i as nat),
        decreases sl - pl - i + 1,
    {
        if match_at(s, pat, i) {
            return Some(i);
        }
        i = i + 1;
    }
    None
}

/// First position at or after `from` whose character satisfies
/// `is_space_char == want_space`, or the length of `h` if there is none.
pub open spec fn scan_to(h: Seq<char>, from: nat, want_space: bool) -> nat
    decreases h.len() + 1 - from,
{
    if from >= h.len() {
        h.len()
    } else if is_space_char(h[from as int]) == want_space {
        from
    } else {
        scan_to(h, (from + 1) as nat, want_space)
    }
}

pub proof fn lemma_scan_to_bounds(h: Seq<char>, from: nat, want_space: bool)
    requires
        from <= h.len(),
    ensures
        from <= scan_to(h, from, want_space) <= h.len(),
        forall|k: int|
            from <= k < scan_to(h, from, want_space) ==> is_space_char(h[k]) != want_space,
        scan_to(h, from, want_space) < h.len() ==> is_space_char(
            h[scan_to(h, from, want_space) as int],
        ) == want_space,
    decreases h.len() - from,
{
    if from >= h.len() {
    } else if is_space_char(h[from as int]) == want_space {
    } else {
        lemma_scan_to_bounds(h, (from + 1) as nat, want_space);
    }
}

pub proof fn lemma_first_match_bounds(h: Seq<char>, n: Seq<char>, from: nat)
    ensures
        match first_match_from(h, n, from) {
            Some(i) => from <= i && i + n.len() <= h.len() && matches_at(h, n, i),
            None => true,
        },
    decreases h.len() + 1 - from,
{
    if from + n.len() > h.len() {
    } else if matches_at(h, n, from as int) {
    } else {
        lemma_first_match_bounds(h, n, (from + 1) as nat);
    }
}

/// The lines of `h`: the pieces between newline characters, with a trailing
/// newline producing no final empty line.
pub open spec fn spec_lines(h: Seq<char>) -> Seq<Seq<char>>
    decreases h.len(),
    via spec_lines_decreases
{
    if h.len() == 0 {
        Seq::empty()
    } else {
        match first_match_from(h, seq!['\n'], 0) {
            None => seq![h],
            Some(i) => seq![h.subrange(0, i)] + spec_lines(
                h.subrange(i + 1, h.len() as int),
            ),
        }
    }
}

#[via_fn]
proof fn spec_lines_decreases(h: Seq<char>) {
    if h.len() > 0 {
        lemma_first_match_bounds(h, seq!['\n'], 0);
    }
}

proof fn lemma_first_match_single(h: Seq<char>, c: char, from: nat, i: int)
    requires
        from <= i <= h.len(),
        forall|k: int| from <= k < i ==> h[k] != c,
    ensures
        i < h.len() && h[i] == c ==> first_match_from(h, seq![c], from) == Some(i),
        i == h.len() ==> first_match_from(h, seq![c], from) is None,
    decreases h.len() - from,
{
    if from < i {
        lemma_first_match_single(h, c, (from + 1) as nat, i);
        assert(!matches_at(h, seq![c], from as int)) by {
            assert(seq![c][0] == c);
        }
    } else {
        if i < h.len() && h[i] == c {
            assert(matches_at(h, seq![c], from as int)) by {
                assert(seq![c][0] == c);
            }
        }
    }
}

/// Position of the first `c` at or after `from`, or the length of `s` if
/// there is none.
pub fn find_char(s: &str, from: usize, c: char) -> (r: usize)
    requires
        from <= s@.len(),
    ensures
        from <= r <= s@.len(),
        forall|k: int| from <= k < r ==> s@[k] != c,
        r < s@.len() ==> s@[r as int] == c,
{
    let sl = s.unicode_len();
    let mut i: usize = from;
    while i < sl
        invariant
            from <= i <= sl,
            sl == s@.len(),
            forall|k: int| from <= k < i ==> s@[k] != c,
        decreases sl - i,
    {
        if s.get_char(i) == c {
            return i;
        }
        i = i + 1;
    }
    i
}

/// Splits `s` into lines at newline characters, as the external tools'
/// output is read.
pub fn split_lines(s: &str) -> (r: Vec<String>)
    ensures
        r.deep_view() == spec_lines(s@),
{
    let sl = s.unicode_len();
    let mut r: Vec<String> = Vec::new();
    let mut start: usize = 0;
    proof {
        assert(s@.subrange(0, sl as int) =~= s@);
        assert(r.deep_view() =~= Seq::<Seq<char>>::empty());
        assert(Seq::<Seq<char>>::empty() + spec_lines(s@) =~= spec_lines(s@));
    }
    while start < sl
        invariant
            start <= sl,
            sl == s@.len(),
            spec_lines(s@) == r.deep_view() + spec_lines(s@.subrange(start as int, sl as int)),
        decreases sl - start,
    {
        let ghost prev = r.deep_view();
        let ghost rem = s@.subrange(start as int, sl as int);
        let nl = find_char(s, start, '\n');
        let piece = s.substring_char(start, nl).to_owned();
        r.push(piece);
        let next = if nl == sl {
            sl
        } else {
            nl + 1
        };
        proof {
            let ghost rem2 = s@.subrange(next as int, sl as int);
            assert forall|k: int| 0 <= k < nl - start implies rem[k] != '\n' by {
                assert(rem[k] == s@[start + k]);
            }
            lemma_first_match_single(rem, '\n', 0, nl - start);
            if nl == sl {
                assert(first_match_from(rem, seq!['\n'], 0) is None);
                assert(spec_lines(rem) == seq![rem]);
                assert(piece@ == rem);
                assert(rem2.len() == 0);
                assert(spec_lines(rem2) == Seq::<Seq<char>>::empty());
            } else {
                assert(rem[nl - start] == s@[nl as int]);
                assert(first_match_from(rem, seq!['\n'], 0) == Some(nl - start));
                assert(rem.subrange(0, nl - start) =~= piece@);
                assert(rem.subrange(nl - start + 1, rem.len() as int) =~= rem2);
                assert(spec_lines(rem) == seq![piece@] + spec_lines(rem2));
            }
            assert(r.deep_view() =~= prev + seq![piece@]);
            assert((prev + seq![piece@]) + spec_lines(rem2) =~= prev + (seq![piece@]
                + spec_lines(rem2)));
        }
        start = next;
    }
    proof {
        assert(s@.subrange(start as int, sl as int).len() == 0);
        assert(spec_lines(s@.subrange(start as int, sl as int)) == Seq::<Seq<char>>::empty());
        assert(r.deep_view() + Seq::<Seq<char>>::empty() =~= r.deep_view());
    }
    r
}

/// The whitespace-separated tokens of `h`, starting the scan at `from`.
pub open spec fn spec_tokens_from(h: Seq<char>, from: nat) -> Seq<Seq<char>>
    decreases h.len() - from,
    via spec_tokens_from_decreases
{
    if from >= h.len() {
        Seq::empty()
    } else if is_space_char(h[from as int]) {
        spec_tokens_from(h, (from + 1) as nat)
    } else {
        seq![h.subrange(from as int, scan_to(h, from + 1, true) as int)] + spec_tokens_from(
            h,
            scan_to(h, from + 1, true),
        )
    }
}

#[via_fn]
proof fn spec_tokens_from_decreases(h: Seq<char>, from: nat) {
    if from < h.len() && !is_space_char(h[from as int]) {
        lemma_scan_to_bounds(h, from + 1, true);
    }
}

/// The whitespace-separated tokens of `h`.
pub open spec fn spec_tokens(h: Seq<char>) -> Seq<Seq<char>> {
    spec_tokens_from(h, 0)
}

/// Mirror of `scan_to` on a string slice.
fn scan_str(s: &str, from: usize, want_space: bool) -> (r: usize)
    requires
        from <= s@.len(),
    ensures
        r == scan_to(s@, from as nat, want_space),
        from <= r <= s@.len(),
{
    proof {
        lemma_scan_to_bounds(s@, from as nat, want_space);
    }
    let sl = s.unicode_len();
    let mut i: usize = from;
    while i < sl
        invariant
            from <= i <= sl,
            sl == s@.len(),
            scan_to(s@, from as nat, want_space) == scan_to(s@, i as nat, want_space),
        decreases sl - i,
    {
        if space_char(s.get_char(i)) == want_space {
            return i;
        }
        i = i + 1;
    }
    i
}

/// Splits `s` into whitespace-separated tokens, as tool output columns are
/// read.
pub fn split_tokens(s: &str) -> (r: Vec<String>)
    ensures
        r.deep_view() == spec_tokens(s@),
{
    let sl = s.unicode_len();
    let mut r: Vec<String> = Vec::new();
    let mut pos: usize = 0;
    proof {
        assert(r.deep_view() =~= Seq::<Seq<char>>::empty());
        assert(Seq::<Seq<char>>::empty() + spec_tokens(s@) =~= spec_tokens(s@));
    }
    while pos < sl
        invariant
            pos <= sl,
            sl == s@.len(),
            spec_tokens(s@) == r.deep_view() + spec_tokens_from(s@, pos as nat),
        decreases sl - pos,
    {
        let ghost prev = r.deep_view();
        let c = s.get_char(pos);
        if space_char(c) {
            pos = pos + 1;
        } else {
            let e = scan_str(s, pos + 1, true);
            let tok = s.substring_char(pos, e).to_owned();
            r.push(tok);
            proof {
                assert(spec_tokens_from(s@, pos as nat) == seq![tok@] + spec_tokens_from(
                    s@,
                    e as nat,
                ));
                assert(r.deep_view() =~= prev + seq![tok@]);
                assert((prev + seq![tok@]) + spec_tokens_from(s@, e as nat) =~= prev + (seq![tok@]
                    + spec_tokens_from(s@, e as nat)));
            }
            pos = e;
        }
    }
    proof {
        assert(r.deep_view() + Seq::<Seq<char>>::empty() =~= r.deep_view());
    }
    r
}

/// When the suffix of `h` at `i` decomposes as `x + rest`, then `x` occurs
/// at `i` and the suffix after it is `rest`.
pub proof fn lemma_matches_at_concat(h: Seq<char>, x: Seq<char>, rest: Seq<char>, i: int)
    requires
        0 <= i <= h.len(),
        h.subrange(i, h.len() as int) == x + rest,
    ensures
        matches_at(h, x, i),
        h.subrange(i + x.len(), h.len() as int) =~= rest,
{
    let sub = h.subrange(i, h.len() as int);
    assert(sub.len() == h.len() - i);
    assert(sub.len() == x.len() + rest.len());
    assert forall|j: int| 0 <= j < x.len() implies h[i + j] == x[j] by {
        assert(sub[j] == h[j + i]);
        assert((x + rest)[j] == x[j]);
        assert(sub[j] == (x + rest)[j]);
    }
    assert forall|j: int| 0 <= j < rest.len() implies h.subrange(
        i + x.len(),
        h.len() as int,
    )[j] == rest[j] by {
        assert(sub[x.len() + j] == h[x.len() + j + i]);
        assert((x + rest)[x.len() + j] == rest[j]);
        assert(sub[x.len() + j] == (x + rest)[x.len() + j]);
        assert(h.subrange(i + x.len(), h.len() as int)[j] == h[j + (i + x.len())]);
    }
}

/// Consuming an occurrence of `x` at `i` extends the consumed prefix.
pub proof fn lemma_consume(h: Seq<char>, x: Seq<char>, i: int)
    requires
        matches_at(h, x, i),
    ensures
        h.subrange(0, i + x.len()) =~= h.subrange(0, i) + x,
{
}

/// The elements of `ts` joined with single spaces.
pub open spec fn spec_join_spaces(ts: Seq<Seq<char>>) -> Seq<char>
    decreases ts.len(),
{
    if ts.len() == 0 {
        Seq::empty()
    } else if ts.len() == 1 {
        ts[0]
    } else {
        spec_join_spaces(ts.drop_last()) + seq![' '] + ts.last()
    }
}

/// Joins the elements of `ts` from position `from` on with single spaces.
pub fn join_spaces(ts: &Vec<String>, from: usize) -> (r: String)
    requires
        from <= ts@.len(),
    ensures
        r@ == spec_join_spaces(ts.deep_view().subrange(from as int, ts@.len() as int)),
{
    let ghost dv = ts.deep_view();
    let mut r = String::new();
    let mut i: usize = from;
    proof {
        assert(dv.subrange(from as int, from as int) =~= Seq::<Seq<char>>::empty());
    }
    while i < ts.len()
        invariant
            from <= i <= ts@.len(),
            dv == ts.deep_view(),
            dv.len() == ts@.len(),
            r@ == spec_join_spaces(dv.subrange(from as int, i as int)),
        decreases ts@.len() - i,
    {
        if i > from {
            r.append(" ");
        }
        r.append(ts[i].as_str());
        proof {
            reveal_strlit(" ");
            let sub = dv.subrange(from as int, i + 1);
            assert(sub.drop_last() =~= dv.subrange(from as int, i as int));
            assert(sub.last() == dv[i as int]);
            assert(dv[i as int] == ts@[i as int]@);
            assert(" "@ =~= seq![' ']);
            if i == from {
                assert(sub.len() == 1);
                assert(r@ =~= sub[0]);
            } else {
                assert(r@ =~= spec_join_spaces(sub.drop_last()) + seq![' '] + sub.last());
            }
        }
        i = i + 1;
    }
    r
}

/// The suffix of `h` after the last occurrence of `c`, or all of `h` when
/// `c` does not occur.
pub open spec fn spec_after_last(h: Seq<char>, c: char) -> Seq<char>
    decreases h.len(),
{
    if h.len() == 0 {
        Seq::empty()
    } else if h.last() == c {
        Seq::empty()
    } else {
        spec_after_last(h.drop_last(), c).push(h.last())
    }
}

proof fn lemma_after_last_char(h: Seq<char>, c: char, e: int)
    requires
        0 <= e <= h.len(),
        forall|k: int| e <= k < h.len() ==> h[k] != c,
        e > 0 ==> h[e - 1] == c,
    ensures
        spec_after_last(h, c) =~= h.subrange(e, h.len() as int),
    decreases h.len(),
{
    if h.len() == 0 {
    } else if h.last() == c {
    } else {
        assert(h.drop_last() =~= h.subrange(0, h.len() - 1));
        lemma_after_last_char(h.drop_last(), c, e);
        assert(spec_after_last(h.drop_last(), c) =~= h.drop_last().subrange(
            e,
            h.len() - 1,
        ));
    }
}

/// The suffix of `s` after its last occurrence of `c`, or all of `s` when
/// `c` does not occur.
pub fn after_last(s: &str, c: char) -> (r: String)
    ensures
        r@ == spec_after_last(s@, c),
{
    let sl = s.unicode_len();
    let mut j: usize = sl;
    while j > 0
        invariant
            j <= sl,
            sl == s@.len(),
            forall|k: int| j <= k < sl ==> s@[k] != c,
        decreases j,
    {
        if s.get_char(j - 1) == c {
            proof {
                lemma_after_last_char(s@, c, j as int);
            }
            return s.substring_char(j, sl).to_owned();
        }
        j = j - 1;
    }
    proof {
        lemma_after_last_char(s@, c, 0);
        assert(s@.subrange(0, sl as int) =~= s@);
    }
    s.to_owned()
}

/// `h` with trailing whitespace removed.
pub open spec fn spec_trim_end(h: Seq<char>) -> Seq<char>
    decreases h.len(),
{
    if h.len() == 0 {
        h
    } else if is_space_char(h.last()) {
        spec_trim_end(h.drop_last())
    } else {
        h
    }
}

/// `h` with leading and trailing whitespace removed.
pub open spec fn spec_trim(h: Seq<char>) -> Seq<char> {
    let t = spec_trim_end(h);
    t.subrange(scan_to(t, 0, false) as int, t.len() as int)
}

proof fn lemma_trim_end_char(h: Seq<char>, e: int)
    requires
        0 <= e <= h.len(),
        forall|k: int| e <= k < h.len() ==> is_space_char(h[k]),
        e > 0 ==> !is_space_char(h[e - 1]),
    ensures
        spec_trim_end(h) =~= h.subrange(0, e),
    decreases h.len(),
{
    if h.len() == 0 {
    } else if is_space_char(h.last()) {
        assert(e < h.len());
        lemma_trim_end_char(h.drop_last(), e);
        assert(h.drop_last() =~= h.subrange(0, h.len() - 1));
        assert(h.drop_last().subrange(0, e) =~= h.subrange(0, e));
    } else {
        assert(e == h.len());
    }
}

/// Position after the last non-blank character of `s`.
fn scan_end(s: &str) -> (e: usize)
    ensures
        e <= s@.len(),
        forall|k: int| e <= k < s@.len() ==> is_space_char(s@[k]),
        e > 0 ==> !is_space_char(s@[e - 1]),
{
    let sl = s.unicode_len();
    let mut j: usize = sl;
    while j > 0
        invariant
            j <= sl,
            sl == s@.len(),
            forall|k: int| j <= k < sl ==> is_space_char(s@[k]),
        decreases j,
    {
        if !space_char(s.get_char(j - 1)) {
            return j;
        }
        j = j - 1;
    }
    j
}

/// `s` with leading and trailing whitespace removed.
pub fn trim(s: &str) -> (r: String)
    ensures
        r@ == spec_trim(s@),
{
    let sl = s.unicode_len();
    let e = scan_end(s);
    proof {
        lemma_trim_end_char(s@, e as int);
    }
    let ghost t = spec_trim_end(s@);
    let b = scan_str(s, 0, false);
    let b2 = if b > e {
        e
    } else {
        b
    };
    proof {
        lemma_scan_to_bounds(s@, 0, false);
        lemma_scan_to_bounds(t, 0, false);
        assert(t =~= s@.subrange(0, e as int));
        if b <= e {
            // the first non-blank of `s` is the first non-blank of the
            // trimmed-end prefix
            assert(forall|k: int| 0 <= k < b ==> is_space_char(t[k]));
            if b < e {
                assert(!is_space_char(t[b as int]));
                assert(scan_to(t, 0, false) == b) by {
                    lemma_scan_to_char(t, 0, false, b as int);
                }
            } else {
                assert(scan_to(t, 0, false) == b) by {
                    lemma_scan_to_char(t, 0, false, b as int);
                }
            }
        } else {
            // everything before `b` is blank, so the whole prefix is blank
            assert(forall|k: int| 0 <= k < t.len() ==> is_space_char(t[k]));
            assert(scan_to(t, 0, false) == e) by {
                lemma_scan_to_char(t, 0, false, e as int);
            }
        }
        assert(s@.subrange(b2 as int, e as int) =~= t.subrange(
            scan_to(t, 0, false) as int,
            t.len() as int,
        ));
    }
    s.substring_char(b2, e).to_owned()
}

proof fn lemma_scan_to_char(h: Seq<char>, from: nat, want_space: bool, e: int)
    requires
        from <= e <= h.len(),
        forall|k: int| from <= k < e ==> is_space_char(h[k]) != want_space,
        e < h.len() ==> is_space_char(h[e]) == want_space,
    ensures
        scan_to(h, from, want_space) == e,
    decreases h.len() - from,
{
    if from < e {
        lemma_scan_to_char(h, (from + 1) as nat, want_space, e);
    }
}

/// The decimal digit character for `d`.
pub open spec fn digit_char(d: int) -> char {
    if d == 0 {
        '0'
    } else if d == 1 {
        '1'
    } else if d == 2 {
        '2'
    } else if d == 3 {
        '3'
    } else if d == 4 {
        '4'
    } else if d == 5 {
        '5'
    } else if d == 6 {
        '6'
    } else if d == 7 {
        '7'
    } else if d == 8 {
        '8'
    } else {
        '9'
    }
}

/// The decimal rendering of `n`, most significant digit first, without
/// leading zeros (except for `n == 0` itself).
pub open spec fn spec_decimal(n: nat) -> Seq<char>
    decreases n,
{
    if n < 10 {
        seq![digit_char(n as int)]
    } else {
        spec_decimal(n / 10) + seq![digit_char((n % 10) as int)]
    }
}

fn digit_str(d: u64) -> (r: &'static str)
    requires
        d < 10,
    ensures
        r@ == seq![digit_char(d as int)],
{
    proof {
        reveal_strlit("0");
        reveal_strlit("1");
        reveal_strlit("2");
        reveal_strlit("3");
        reveal_strlit("4");
        reveal_strlit("5");
        reveal_strlit("6");
        reveal_strlit("7");
        reveal_strlit("8");
        reveal_strlit("9");
    }
    let r = match d {
        0 => "0",
        1 => "1",
        2 => "2",
        3 => "3",
        4 => "4",
        5 => "5",
        6 => "6",
        7 => "7",
        8 => "8",
        _ => "9",
    };
    proof {
        assert(r@ =~= seq![digit_char(d as int)]);
    }
    r
}

/// Renders `n` in decimal.
pub fn decimal_string(n: u64) -> (r: String)
    ensures
        r@ == spec_decimal(n as nat),
    decreases n,
{
    if n < 10 {
        digit_str(n).to_owned()
    } else {
        let mut r = decimal_string(n / 10);
        r.append(digit_str(n % 10));
        r
    }
}

} // verus!
