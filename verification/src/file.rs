//! File-path classification, incremental naming, and guarded append-creation.
//!
//! Paths are handled as plain text with `/` as the separator.  Nothing in
//! this module touches a filesystem: callers pass a snapshot of the paths
//! that currently exist, and get back the computed sibling path or a plan
//! describing exactly what to create.  The caller that executes a plan is
//! responsible for handing the filesystem's own answers (such as a losing
//! race on an exclusive create) back as [`PathError`] values.

use vstd::prelude::*;
use vstd::string::StrSliceExecFns;
use vstd::string::StringExecFns;

use crate::decimal::dec_rep;
use crate::decimal::is_digit_char;
use crate::decimal::lemma_dec_rep_digits;
use crate::decimal::lemma_dec_rep_len;

verus! {

/// Why a path operation was refused.
#[derive(Clone, Copy, Debug, PartialEq, Eq, Structural)]
pub enum PathError {
    /// The path holds data that cannot be represented as valid text.
    InvalidEncoding,
    /// The path structurally denotes a directory, or has no final name
    /// segment, so it cannot name a file.
    NotAFile,
    /// The exact target path already exists.
    AlreadyExists,
    /// Any other underlying filesystem failure.
    IoFailure,
}

/// The description of each error, as a character sequence.
pub open spec fn error_message(e: PathError) -> Seq<char> {
    match e {
        PathError::InvalidEncoding => "not valid unicode"@,
        PathError::NotAFile => "not a file"@,
        PathError::AlreadyExists => "entity already exists"@,
        PathError::IoFailure => "io failure"@,
    }
}

impl PathError {
    /// A short description of the error.
    pub fn message(&self) -> (m: &'static str)
        ensures
            m@ == error_message(*self),
    {
        match *self {
            PathError::InvalidEncoding => "not valid unicode",
            PathError::NotAFile => "not a file",
            PathError::AlreadyExists => "entity already exists",
            PathError::IoFailure => "io failure",
        }
    }
}

/// How an incremented sibling name is formed from a base path.
#[derive(Clone, Copy, Debug, PartialEq, Eq, Structural)]
pub enum NamingMode {
    /// Append `-N` after the whole file name, ignoring any extension:
    /// `archive.tar.gz` becomes `archive.tar.gz-0`.
    Suffix,
    /// Insert `-N` before the extension when the file name has one
    /// (`file.txt` becomes `file-0.txt`); otherwise behave as `Suffix`.
    PreserveExtension,
}

/// Index where the final name segment of `p` starts: just past the last
/// separator, or `0` when there is no separator.
pub open spec fn name_start(p: Seq<char>) -> int
    decreases p.len(),
{
    if p.len() == 0 {
        0
    } else if p.last() == '/' {
        p.len() as int
    } else {
        name_start(p.drop_last())
    }
}

/// `name_start` points past the last separator: no separator follows it,
/// and a separator immediately precedes it unless it is zero.
pub proof fn lemma_name_start(p: Seq<char>)
    ensures
        0 <= name_start(p) <= p.len(),
        forall|k: int| name_start(p) <= k < p.len() ==> p[k] != '/',
        name_start(p) > 0 ==> p[name_start(p) - 1] == '/',
    decreases p.len(),
{
    if p.len() == 0 {
    } else if p.last() == '/' {
    } else {
        lemma_name_start(p.drop_last());
        assert forall|k: int| name_start(p) <= k < p.len() implies p[k] != '/' by {
            if k < p.len() - 1 {
                assert(p[k] == p.drop_last()[k]);
            }
        }
    }
}

/// Any index with the properties of `name_start` is `name_start`.
pub proof fn lemma_name_start_unique(p: Seq<char>, i: int)
    requires
        0 <= i <= p.len(),
        i == 0 || p[i - 1] == '/',
        forall|k: int| i <= k < p.len() ==> p[k] != '/',
    ensures
        i == name_start(p),
{
    lemma_name_start(p);
    let ns = name_start(p);
    if i < ns {
        assert(p[ns - 1] == '/');
        assert(p[ns - 1] != '/');
    } else if ns < i {
        assert(p[i - 1] == '/');
        assert(p[i - 1] != '/');
    }
}

/// The final name segment of `p`: everything after the last separator.
/// It is empty when the path is empty or ends in a separator.
pub open spec fn file_name_of(p: Seq<char>) -> Seq<char> {
    p.subrange(name_start(p), p.len() as int)
}

/// The leading directory part of `p`, up to and including the last
/// separator; empty when there is no separator.
pub open spec fn parent_of(p: Seq<char>) -> Seq<char> {
    p.subrange(0, name_start(p))
}

/// A final segment that denotes an actual file name: non-empty and neither
/// the current-directory marker `.` nor the parent-directory marker `..`.
pub open spec fn is_normal_name(n: Seq<char>) -> bool {
    n.len() > 0 && n != seq!['.'] && n != seq!['.', '.']
}

/// Whether `p` can structurally denote a file.  A path that is empty, ends
/// in the separator, or whose final segment is `.` or `..` cannot.
pub open spec fn is_file_path(p: Seq<char>) -> bool {
    is_normal_name(file_name_of(p))
}

/// Index where the final name segment of `file_path` starts.
fn find_name_start(file_path: &str) -> (i: usize)
    ensures
        i == name_start(file_path@),
        i <= file_path@.len(),
{
    let n = file_path.unicode_len();
    let mut i = n;
    loop
        invariant
            i <= n,
            n == file_path@.len(),
            forall|k: int| i <= k < n ==> file_path@[k] != '/',
        ensures
            i <= n,
            i == 0 || file_path@[i - 1] == '/',
            forall|k: int| i <= k < n ==> file_path@[k] != '/',
        decreases i,
    {
        if i == 0 {
            break ;
        }
        if file_path.get_char(i - 1) == '/' {
            break ;
        }
        i = i - 1;
    }
    proof {
        lemma_name_start_unique(file_path@, i as int);
    }
    i
}

/// Whether `file_path` can structurally denote a file, as opposed to a
/// directory reference or a bare root/relative marker.  The check is
/// purely structural: the filesystem is never consulted.  Text handed to
/// this crate is always validly encoded, so the result is always `Ok`;
/// the boundary that converts platform paths to text reports
/// [`PathError::InvalidEncoding`] itself when that conversion fails.
pub fn is_file(file_path: &str) -> (r: Result<bool, PathError>)
    ensures
        r == Ok::<bool, PathError>(is_file_path(file_path@)),
{
    let n = file_path.unicode_len();
    let ns = find_name_start(file_path);
    let ghost name = file_name_of(file_path@);
    if ns == n {
        return Ok(false);
    }
    if n - ns == 1 && file_path.get_char(ns) == '.' {
        proof {
            assert(name =~= seq!['.']);
        }
        return Ok(false);
    }
    if n - ns == 2 && file_path.get_char(ns) == '.' && file_path.get_char(ns + 1) == '.' {
        proof {
            assert(name =~= seq!['.', '.']);
        }
        return Ok(false);
    }
    proof {
        assert(name.len() == n - ns);
        if name == seq!['.'] {
            assert(file_path@[ns as int] == name[0]);
        }
        if name == seq!['.', '.'] {
            assert(file_path@[ns as int] == name[0]);
            assert(file_path@[ns + 1] == name[1]);
        }
    }
    Ok(true)
}

/// Index of the last `.` in `n`, or `-1` when there is none.
pub open spec fn last_dot(n: Seq<char>) -> int
    decreases n.len(),
{
    if n.len() == 0 {
        -1
    } else if n.last() == '.' {
        n.len() - 1
    } else {
        last_dot(n.drop_last())
    }
}

/// `last_dot` points at a dot that no other dot follows, or at `-1` when
/// the segment holds no dot at all.
pub proof fn lemma_last_dot(n: Seq<char>)
    ensures
        -1 <= last_dot(n) < n.len(),
        last_dot(n) >= 0 ==> n[last_dot(n)] == '.',
        forall|k: int| last_dot(n) < k < n.len() ==> n[k] != '.',
    decreases n.len(),
{
    if n.len() == 0 {
    } else if n.last() == '.' {
    } else {
        lemma_last_dot(n.drop_last());
        assert forall|k: int| last_dot(n) < k < n.len() implies n[k] != '.' by {
            if k < n.len() - 1 {
                assert(n[k] == n.drop_last()[k]);
            }
        }
    }
}

/// Any index with the properties of `last_dot` is `last_dot`.
pub proof fn lemma_last_dot_unique(n: Seq<char>, d: int)
    requires
        -1 <= d < n.len(),
        d >= 0 ==> n[d] == '.',
        forall|k: int| d < k < n.len() ==> n[k] != '.',
    ensures
        d == last_dot(n),
{
    lemma_last_dot(n);
    let ld = last_dot(n);
    if d < ld {
        assert(n[ld] == '.');
        assert(n[ld] != '.');
    } else if ld < d {
        assert(n[d] == '.');
        assert(n[d] != '.');
    }
}

/// Whether the final name segment of `p` has an extension: a dot somewhere
/// after its first character.  A name that starts with its only dot (such
/// as `.gitignore`) has no extension.
pub open spec fn has_extension(p: Seq<char>) -> bool {
    last_dot(file_name_of(p)) > 0
}

/// Index into `p` of the extension dot of its final name segment.
/// Meaningful only when `has_extension(p)` holds.
pub open spec fn extension_dot(p: Seq<char>) -> int {
    name_start(p) + last_dot(file_name_of(p))
}

/// The suffix-mode candidate at index `i`: the whole path followed by `-`
/// and the decimal numeral of `i`.
pub open spec fn suffix_candidate(p: Seq<char>, i: nat) -> Seq<char> {
    p + seq!['-'] + dec_rep(i)
}

/// The extension-preserving candidate at index `i`: `-` and the numeral
/// are inserted before the extension dot.  Meaningful only when
/// `has_extension(p)` holds.
pub open spec fn extension_candidate(p: Seq<char>, i: nat) -> Seq<char> {
    let d = extension_dot(p);
    p.subrange(0, d) + seq!['-'] + dec_rep(i) + seq!['.'] + p.subrange(d + 1, p.len() as int)
}

/// The incremented sibling of `p` at index `i` under `mode`.
pub open spec fn candidate(p: Seq<char>, mode: NamingMode, i: nat) -> Seq<char> {
    match mode {
        NamingMode::Suffix => suffix_candidate(p, i),
        NamingMode::PreserveExtension => if has_extension(p) {
            extension_candidate(p, i)
        } else {
            suffix_candidate(p, i)
        },
    }
}

/// Index into `file_path` of the extension dot of its final name segment,
/// when the segment has one.
fn find_extension_dot(file_path: &str) -> (r: Option<usize>)
    ensures
        match r {
            Some(d) => has_extension(file_path@) && d == extension_dot(file_path@) && d
                < file_path@.len(),
            None => !has_extension(file_path@),
        },
{
    let n = file_path.unicode_len();
    let ns = find_name_start(file_path);
    let ghost name = file_name_of(file_path@);
    proof {
        assert(name.len() == n - ns);
    }
    let mut k = n;
    loop
        invariant
            ns <= k <= n,
            n == file_path@.len(),
            ns == name_start(file_path@),
            forall|j: int| k <= j < n ==> file_path@[j] != '.',
        ensures
            ns <= k <= n,
            k == ns || file_path@[k - 1] == '.',
            forall|j: int| k <= j < n ==> file_path@[j] != '.',
        decreases k,
    {
        if k == ns {
            break ;
        }
        if file_path.get_char(k - 1) == '.' {
            break ;
        }
        k = k - 1;
    }
    proof {
        // Transcribe the loop's findings from path indices to name indices.
        assert forall|j: int| (k - ns) - 1 < j < name.len() implies name[j] != '.' by {
            assert(name[j] == file_path@[ns + j]);
        }
        if k > ns {
            assert(name[(k - ns) - 1] == file_path@[k - 1]);
        }
        lemma_last_dot_unique(name, (k - ns) - 1);
    }
    if k - ns > 1 {
        Some(k - 1)
    } else {
        None
    }
}

/// Two equal sequences that embed numerals between a common head and a
/// common tail embed the same number.
proof fn lemma_embedded_numeral_injective(head: Seq<char>, tail: Seq<char>, i: nat, j: nat)
    requires
        head + dec_rep(i) + tail == head + dec_rep(j) + tail,
    ensures
        i == j,
{
    let a = head + dec_rep(i) + tail;
    let b = head + dec_rep(j) + tail;
    assert(a.len() == b.len());
    assert(dec_rep(i).len() == dec_rep(j).len());
    assert forall|k: int| 0 <= k < dec_rep(i).len() implies dec_rep(i)[k] == dec_rep(j)[k] by {
        assert(a[head.len() + k] == dec_rep(i)[k]);
        assert(b[head.len() + k] == dec_rep(j)[k]);
    }
    assert(dec_rep(i) =~= dec_rep(j));
    crate::decimal::lemma_dec_rep_injective(i, j);
}

/// Distinct indices give distinct candidates for the same path and mode.
pub proof fn lemma_candidate_injective(p: Seq<char>, mode: NamingMode, i: nat, j: nat)
    requires
        candidate(p, mode, i) == candidate(p, mode, j),
    ensures
        i == j,
{
    if mode == NamingMode::PreserveExtension && has_extension(p) {
        let d = extension_dot(p);
        let head = p.subrange(0, d) + seq!['-'];
        let tail = seq!['.'] + p.subrange(d + 1, p.len() as int);
        assert(extension_candidate(p, i) =~= head + dec_rep(i) + tail);
        assert(extension_candidate(p, j) =~= head + dec_rep(j) + tail);
        lemma_embedded_numeral_injective(head, tail, i, j);
    } else {
        let head = p + seq!['-'];
        let tail = Seq::<char>::empty();
        assert(suffix_candidate(p, i) =~= head + dec_rep(i) + tail);
        assert(suffix_candidate(p, j) =~= head + dec_rep(j) + tail);
        lemma_embedded_numeral_injective(head, tail, i, j);
    }
}

/// The views of a snapshot of existing paths.
pub open spec fn path_views(s: Seq<String>) -> Seq<Seq<char>> {
    s.map_values(|q: String| q@)
}

/// `i` is the first candidate index for `p` whose candidate is absent
/// from the snapshot `ex`.
pub open spec fn is_first_free(p: Seq<char>, mode: NamingMode, ex: Seq<Seq<char>>, i: nat) -> bool {
    &&& !ex.contains(candidate(p, mode, i))
    &&& forall|j: nat| j < i ==> ex.contains(#[trigger] candidate(p, mode, j))
}

/// The first free candidate index for `p` against snapshot `ex`.
pub open spec fn first_free_index(p: Seq<char>, mode: NamingMode, ex: Seq<Seq<char>>) -> nat {
    choose|i: nat| is_first_free(p, mode, ex, i)
}

/// The incremented path for `p` against snapshot `ex`: the candidate at
/// the first free index.
pub open spec fn incremental_path_of(p: Seq<char>, mode: NamingMode, ex: Seq<Seq<char>>) -> Seq<
    char,
> {
    candidate(p, mode, first_free_index(p, mode, ex))
}

/// A snapshot of `n` paths cannot hold all of the `n + 1` distinct
/// candidates at indices `0..=n`, so some candidate among them is free.
proof fn lemma_some_candidate_free(p: Seq<char>, mode: NamingMode, ex: Seq<Seq<char>>)
    ensures
        exists|i: nat| i <= ex.len() && !ex.contains(candidate(p, mode, i)),
{
    if forall|i: nat| i <= ex.len() ==> ex.contains(#[trigger] candidate(p, mode, i)) {
        let cands = Seq::new(ex.len() + 1, |k: int| candidate(p, mode, k as nat));
        assert forall|k1: int, k2: int| 0 <= k1 < cands.len() && 0 <= k2 < cands.len() && k1 != k2
            implies cands[k1] != cands[k2] by {
            if cands[k1] == cands[k2] {
                lemma_candidate_injective(p, mode, k1 as nat, k2 as nat);
            }
        }
        assert(cands.no_duplicates());
        cands.unique_seq_to_set();
        assert forall|c: Seq<char>| cands.to_set().contains(c) implies ex.to_set().contains(c) by {
            let k = choose|k: int| 0 <= k < cands.len() && cands[k] == c;
            assert(ex.contains(candidate(p, mode, k as nat)));
        }
        assert(cands.to_set().subset_of(ex.to_set()));
        ex.lemma_cardinality_of_set();
        vstd::set_lib::lemma_len_subset(cands.to_set(), ex.to_set());
        assert(false);
    }
}

/// Below any free candidate index there is a first free index.
proof fn lemma_first_free_below(p: Seq<char>, mode: NamingMode, ex: Seq<Seq<char>>, f: nat)
    requires
        !ex.contains(candidate(p, mode, f)),
    ensures
        exists|i: nat| i <= f && is_first_free(p, mode, ex, i),
    decreases f,
{
    if forall|j: nat| j < f ==> ex.contains(#[trigger] candidate(p, mode, j)) {
        assert(is_first_free(p, mode, ex, f));
    } else {
        let j = choose|j: nat| j < f && !ex.contains(#[trigger] candidate(p, mode, j));
        lemma_first_free_below(p, mode, ex, j);
        let i = choose|i: nat| i <= j && is_first_free(p, mode, ex, i);
        assert(i <= f && is_first_free(p, mode, ex, i));
    }
}

/// The first free index is unique: any two indices that both satisfy
/// `is_first_free` are equal.  This is why the incremental namer is a
/// repeatable pure query: probing the same snapshot twice yields the same
/// path both times.
pub proof fn lemma_first_free_unique(
    p: Seq<char>,
    mode: NamingMode,
    ex: Seq<Seq<char>>,
    i: nat,
    j: nat,
)
    requires
        is_first_free(p, mode, ex, i),
        is_first_free(p, mode, ex, j),
    ensures
        i == j,
{
    if i < j {
        assert(ex.contains(candidate(p, mode, i)));
    }
    if j < i {
        assert(ex.contains(candidate(p, mode, j)));
    }
}

/// The first free index exists, is what `first_free_index` denotes, and is
/// at most the size of the snapshot.
pub proof fn lemma_first_free_index_props(p: Seq<char>, mode: NamingMode, ex: Seq<Seq<char>>)
    ensures
        is_first_free(p, mode, ex, first_free_index(p, mode, ex)),
        first_free_index(p, mode, ex) <= ex.len(),
        !ex.contains(incremental_path_of(p, mode, ex)),
{
    lemma_some_candidate_free(p, mode, ex);
    let f = choose|i: nat| i <= ex.len() && !ex.contains(candidate(p, mode, i));
    lemma_first_free_below(p, mode, ex, f);
    let i = choose|i: nat| i <= f && is_first_free(p, mode, ex, i);
    assert(is_first_free(p, mode, ex, i));
    lemma_first_free_unique(p, mode, ex, i, first_free_index(p, mode, ex));
}

/// Whether the snapshot holds a path whose text equals `s`.
fn snapshot_contains(existing: &Vec<String>, s: &String) -> (r: bool)
    ensures
        r == path_views(existing@).contains(s@),
{
    let ghost views = path_views(existing@);
    let mut k: usize = 0;
    while k < existing.len()
        invariant
            k <= existing.len(),
            views == path_views(existing@),
            views.len() == existing@.len(),
            forall|j: int| 0 <= j < k ==> views[j] != s@,
        decreases existing.len() - k,
    {
        if existing[k].eq(s) {
            proof {
                assert(views[k as int] == existing@[k as int]@);
            }
            return true;
        }
        proof {
            assert(views[k as int] == existing@[k as int]@);
        }
        k = k + 1;
    }
    proof {
        if views.contains(s@) {
            let j = choose|j: int| 0 <= j < views.len() && views[j] == s@;
            assert(views[j] != s@);
        }
    }
    false
}

/// The first incremented sibling of `file_path` under `mode` that is
/// absent from the snapshot.
fn incremental_search(file_path: &str, mode: NamingMode, existing: &Vec<String>) -> (s: String)
    ensures
        s@ == incremental_path_of(file_path@, mode, path_views(existing@)),
        !path_views(existing@).contains(s@),
{
    let ghost ex = path_views(existing@);
    let ghost ff = first_free_index(file_path@, mode, ex);
    proof {
        lemma_first_free_index_props(file_path@, mode, ex);
        assert(ex.len() == existing@.len());
    }
    let cap = existing.len();
    let mut i: usize = 0;
    loop
        invariant
            i <= ff,
            ff == first_free_index(file_path@, mode, ex),
            ex == path_views(existing@),
            is_first_free(file_path@, mode, ex, ff),
            ff <= cap,
            cap == existing@.len(),
            forall|j: nat| j < i ==> ex.contains(#[trigger] candidate(file_path@, mode, j)),
        decreases ff - i,
    {
        let cand = make_candidate(file_path, mode, i as u64);
        if !snapshot_contains(existing, &cand) {
            proof {
                assert(is_first_free(file_path@, mode, ex, i as nat));
                lemma_first_free_unique(file_path@, mode, ex, i as nat, ff);
            }
            return cand;
        }
        proof {
            assert(i as nat != ff);
        }
        i = i + 1;
    }
}

/// The incremented sibling path: the first path of the form given by
/// `mode` (index starting at `0`) that is absent from `existing`, a
/// snapshot of the paths that currently exist next to `file_path`.
///
/// This is a pure query: nothing is created or reserved, and probing the
/// same snapshot twice returns the same path both times.  Fails with
/// [`PathError::NotAFile`] when `file_path` cannot denote a file.
pub fn incremental_path(file_path: &str, mode: NamingMode, existing: &Vec<String>) -> (r: Result<
    String,
    PathError,
>)
    ensures
        r is Ok <==> is_file_path(file_path@),
        r matches Ok(s) ==> s@ == incremental_path_of(file_path@, mode, path_views(existing@)),
        r matches Ok(s) ==> !path_views(existing@).contains(s@),
        r matches Err(e) ==> e == PathError::NotAFile,
{
    match is_file(file_path) {
        Ok(true) => Ok(incremental_search(file_path, mode, existing)),
        Ok(false) => Err(PathError::NotAFile),
        Err(e) => Err(e),
    }
}

/// The incremented sibling of `file_path` with suffix `-N`, where `N` is
/// the first index (starting at `0`) for which the resulting path is
/// absent from `existing`: the suffix ignores any extension, so
/// `somedir/somefile` yields `somedir/somefile-0`.
///
/// This only queries the snapshot; no directories or files are created.
/// Fails with [`PathError::NotAFile`] when `file_path` cannot denote a
/// file.
pub fn file_path_incremental(file_path: &str, existing: &Vec<String>) -> (r: Result<
    String,
    PathError,
>)
    ensures
        r is Ok <==> is_file_path(file_path@),
        r matches Ok(s) ==> s@ == incremental_path_of(
            file_path@,
            NamingMode::Suffix,
            path_views(existing@),
        ),
        r matches Ok(s) ==> !path_views(existing@).contains(s@),
        r matches Err(e) ==> e == PathError::NotAFile,
{
    incremental_path(file_path, NamingMode::Suffix, existing)
}

/// Like [`file_path_incremental`], but preserves the file extension if one
/// is present: `dir/file.txt` yields `dir/file-0.txt`, while a name
/// without an extension behaves exactly as in suffix mode.
pub fn file_path_incremental_with_extension(file_path: &str, existing: &Vec<String>) -> (r: Result<
    String,
    PathError,
>)
    ensures
        r is Ok <==> is_file_path(file_path@),
        r matches Ok(s) ==> s@ == incremental_path_of(
            file_path@,
            NamingMode::PreserveExtension,
            path_views(existing@),
        ),
        r matches Ok(s) ==> !path_views(existing@).contains(s@),
        r matches Err(e) ==> e == PathError::NotAFile,
{
    incremental_path(file_path, NamingMode::PreserveExtension, existing)
}

/// A candidate of a valid file path is itself a valid file path: the
/// attached numeral introduces no separator and cannot produce an empty,
/// `.`, or `..` segment, and the directory part is untouched.
pub proof fn lemma_candidate_is_file_path(p: Seq<char>, mode: NamingMode, i: nat)
    requires
        is_file_path(p),
    ensures
        is_file_path(candidate(p, mode, i)),
        parent_of(candidate(p, mode, i)) == parent_of(p),
{
    lemma_name_start(p);
    lemma_dec_rep_len(i);
    lemma_dec_rep_digits(i);
    let ns = name_start(p);
    let c = candidate(p, mode, i);
    let dl = dec_rep(i).len() as int;
    assert(file_name_of(p).len() == p.len() - ns);
    assert(ns < p.len());
    if mode == NamingMode::PreserveExtension && has_extension(p) {
        lemma_last_dot(file_name_of(p));
        let d = extension_dot(p);
        assert(file_name_of(p)[last_dot(file_name_of(p))] == p[d]);
        assert(ns < d < p.len());
        assert(c.len() == p.len() + 1 + dl);
        assert forall|k: int| ns <= k < c.len() implies c[k] != '/' by {
            if k < d {
                assert(c[k] == p[k]);
            } else if k == d {
                assert(c[k] == '-');
            } else if k < d + 1 + dl {
                assert(c[k] == dec_rep(i)[k - d - 1]);
                assert(is_digit_char(dec_rep(i)[k - d - 1]));
            } else if k == d + 1 + dl {
                assert(c[k] == '.');
            } else {
                assert(c[k] == p[k - 1 - dl]);
            }
        }
        if ns > 0 {
            assert(c[ns - 1] == p[ns - 1]) by {
                assert(ns - 1 < d);
            }
        }
        lemma_name_start_unique(c, ns);
        assert(file_name_of(c).len() == c.len() - ns >= 4);
    } else {
        assert(c =~= (p + seq!['-']) + dec_rep(i));
        assert(c.len() == p.len() + 1 + dl);
        assert forall|k: int| ns <= k < c.len() implies c[k] != '/' by {
            if k < p.len() {
                assert(c[k] == p[k]);
            } else if k == p.len() {
                assert(c[k] == '-');
            } else {
                assert(c[k] == dec_rep(i)[k - p.len() - 1]);
                assert(is_digit_char(dec_rep(i)[k - p.len() - 1]));
            }
        }
        if ns > 0 {
            assert(c[ns - 1] == p[ns - 1]);
        }
        lemma_name_start_unique(c, ns);
        assert(file_name_of(c).len() == c.len() - ns >= 3);
    }
    assert(is_normal_name(file_name_of(c)));
    assert forall|k: int| 0 <= k < ns implies c[k] == p[k] by {}
    assert(parent_of(c) =~= parent_of(p));
}

/// A creation plan: the directory chain to ensure and the file to create.
///
/// The caller that executes a plan first creates every missing directory
/// of `parent`, then creates `path` exclusively in append mode, so that an
/// existing file is never truncated or overwritten.
#[derive(Clone, Debug)]
pub struct CreatePlan {
    /// The directory part of `path`, up to and including the last
    /// separator; empty when `path` has no directory part.
    pub parent: String,
    /// The file to create exclusively, opened for appending.
    pub path: String,
}

/// What guarded creation decides for path `p` against snapshot `ex`:
/// a structurally invalid path is refused before anything is mutated, an
/// occupied path is refused rather than overwritten, and otherwise the
/// creation of exactly `p` is sanctioned.
pub open spec fn create_append_new_spec(p: Seq<char>, ex: Seq<Seq<char>>) -> Result<
    Seq<char>,
    PathError,
> {
    if !is_file_path(p) {
        Err(PathError::NotAFile)
    } else if ex.contains(p) {
        Err(PathError::AlreadyExists)
    } else {
        Ok(p)
    }
}

/// The leading directory part of `file_path`, up to and including the
/// last separator; empty when there is none.
pub fn parent_dir(file_path: &str) -> (d: String)
    ensures
        d@ == parent_of(file_path@),
{
    let ns = find_name_start(file_path);
    file_path.substring_char(0, ns).to_owned()
}

/// Plan the creation of a new append-mode file at exactly `file_path`.
///
/// Fails with [`PathError::NotAFile`] when the path cannot denote a file,
/// and with [`PathError::AlreadyExists`] when the snapshot already holds
/// it.  On success the plan names the parent directory chain to create
/// and the file itself; no existing path is ever planned over.
pub fn create_append_new(file_path: &str, existing: &Vec<String>) -> (r: Result<
    CreatePlan,
    PathError,
>)
    ensures
        match r {
            Ok(plan) => create_append_new_spec(file_path@, path_views(existing@)) == Ok::<
                Seq<char>,
                PathError,
            >(plan.path@) && plan.path@ == file_path@ && plan.parent@ == parent_of(file_path@),
            Err(e) => create_append_new_spec(file_path@, path_views(existing@)) == Err::<
                Seq<char>,
                PathError,
            >(e),
        },
{
    match is_file(file_path) {
        Ok(true) => {},
        Ok(false) => {
            return Err(PathError::NotAFile);
        },
        Err(e) => {
            return Err(e);
        },
    }
    let owned = file_path.to_owned();
    if snapshot_contains(existing, &owned) {
        return Err(PathError::AlreadyExists);
    }
    let parent = parent_dir(file_path);
    Ok(CreatePlan { parent, path: owned })
}

/// Plan the creation of the next incremented sibling of `file_path`:
/// compute the first free candidate against the snapshot, then plan its
/// guarded creation, returning the resolved path inside the plan.
///
/// Errors from either step are returned unchanged; the only possible one
/// is [`PathError::NotAFile`], since the computed candidate is always
/// fresh with respect to the snapshot.  A caller that races another
/// creator between snapshot and execution observes the filesystem's own
/// exclusive-create refusal instead, and may retry the whole operation.
pub fn create_append_incremental(file_path: &str, mode: NamingMode, existing: &Vec<String>) -> (r:
    Result<CreatePlan, PathError>)
    ensures
        r is Ok <==> is_file_path(file_path@),
        r matches Ok(plan) ==> plan.path@ == incremental_path_of(
            file_path@,
            mode,
            path_views(existing@),
        ) && !path_views(existing@).contains(plan.path@) && plan.parent@ == parent_of(file_path@),
        r matches Err(e) ==> e == PathError::NotAFile,
{
    let named = match incremental_path(file_path, mode, existing) {
        Ok(s) => s,
        Err(e) => {
            return Err(e);
        },
    };
    proof {
        lemma_first_free_index_props(file_path@, mode, path_views(existing@));
        lemma_candidate_is_file_path(
            file_path@,
            mode,
            first_free_index(file_path@, mode, path_views(existing@)),
        );
    }
    match create_append_new(named.as_str(), existing) {
        Ok(plan) => Ok(plan),
        Err(e) => {
            proof {
                assert(false);
            }
            Err(e)
        },
    }
}

/// The incremented sibling of `file_path` at index `i` under `mode`.
fn make_candidate(file_path: &str, mode: NamingMode, i: u64) -> (c: String)
    ensures
        c@ == candidate(file_path@, mode, i as nat),
{
    let use_extension = match mode {
        NamingMode::Suffix => None,
        NamingMode::PreserveExtension => find_extension_dot(file_path),
    };
    let num = crate::decimal::u64_to_dec(i);
    proof {
        reveal_strlit("-");
        reveal_strlit(".");
    }
    match use_extension {
        None => {
            let c = file_path.to_owned().concat("-").concat(num.as_str());
            proof {
                assert(c@ =~= suffix_candidate(file_path@, i as nat));
            }
            c
        },
        Some(d) => {
            let n = file_path.unicode_len();
            let head = file_path.substring_char(0, d);
            let tail = file_path.substring_char(d + 1, n);
            let c = head.to_owned().concat("-").concat(num.as_str()).concat(".").concat(tail);
            proof {
                assert(c@ =~= extension_candidate(file_path@, i as nat));
            }
            c
        },
    }
}

} // verus!
