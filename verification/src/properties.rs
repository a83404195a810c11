//! The guarantees of the naming and creation subsystem, stated and proved
//! once over the specification model in [`crate::file`].
//!
//! Each lemma here is a library-level law: a statement about all paths and
//! all snapshots, not about particular values.  The concrete scenarios the
//! laws govern are exercised by the crate's tests.

use vstd::prelude::*;

use crate::file::NamingMode;
use crate::file::PathError;
use crate::file::candidate;
use crate::file::create_append_new_spec;
use crate::file::file_name_of;
use crate::file::first_free_index;
use crate::file::has_extension;
use crate::file::incremental_path_of;
use crate::file::is_file_path;
use crate::file::is_first_free;
use crate::file::is_normal_name;
use crate::file::lemma_first_free_index_props;
use crate::file::lemma_first_free_unique;
use crate::file::lemma_name_start_unique;
use crate::file::name_start;

verus! {

/// A path that ends in the separator denotes a directory, never a file.
pub proof fn lemma_separator_terminated_path_not_file(p: Seq<char>)
    requires
        p.len() > 0,
        p.last() == '/',
    ensures
        !is_file_path(p),
{
    assert(name_start(p) == p.len());
    assert(file_name_of(p).len() == 0);
}

/// The empty path and the bare `.` and `..` markers never denote a file.
pub proof fn lemma_marker_paths_not_file()
    ensures
        !is_file_path(Seq::<char>::empty()),
        !is_file_path(seq!['.']),
        !is_file_path(seq!['.', '.']),
{
    assert(file_name_of(Seq::<char>::empty()).len() == 0);
    assert(seq!['.'].drop_last() =~= Seq::<char>::empty());
    assert(name_start(seq!['.']) == 0);
    assert(file_name_of(seq!['.']) =~= seq!['.']);
    assert(seq!['.', '.'].drop_last() =~= seq!['.']);
    assert(name_start(seq!['.', '.']) == 0);
    assert(file_name_of(seq!['.', '.']) =~= seq!['.', '.']);
}

/// A path whose final segment is a normal file name — non-empty, free of
/// separators, and neither `.` nor `..` — always denotes a file.
pub proof fn lemma_normal_final_segment_is_file(dir: Seq<char>, name: Seq<char>)
    requires
        is_normal_name(name),
        forall|k: int| 0 <= k < name.len() ==> name[k] != '/',
        dir.len() == 0 || dir.last() == '/',
    ensures
        is_file_path(dir + name),
{
    let p = dir + name;
    assert forall|k: int| dir.len() <= k < p.len() implies p[k] != '/' by {
        assert(p[k] == name[k - dir.len()]);
    }
    if dir.len() > 0 {
        assert(p[dir.len() - 1] == dir[dir.len() - 1]);
    }
    lemma_name_start_unique(p, dir.len() as int);
    assert(file_name_of(p) =~= name);
}

/// Recording the candidate created at the first free index advances the
/// namer: when the candidate at the next index is still absent, the next
/// probe of the updated snapshot lands exactly there, skipping the
/// now-existing index.
pub proof fn lemma_created_skips_index(p: Seq<char>, mode: NamingMode, ex: Seq<Seq<char>>, i: nat)
    requires
        is_first_free(p, mode, ex, i),
        !ex.push(candidate(p, mode, i)).contains(candidate(p, mode, (i + 1) as nat)),
    ensures
        first_free_index(p, mode, ex.push(candidate(p, mode, i))) == i + 1,
        incremental_path_of(p, mode, ex.push(candidate(p, mode, i))) == candidate(
            p,
            mode,
            (i + 1) as nat,
        ),
{
    let ex2 = ex.push(candidate(p, mode, i));
    assert forall|j: nat| j < i + 1 implies ex2.contains(#[trigger] candidate(p, mode, j)) by {
        if j < i {
            assert(ex.contains(candidate(p, mode, j)));
            let k = choose|k: int| 0 <= k < ex.len() && ex[k] == candidate(p, mode, j);
            assert(ex2[k] == candidate(p, mode, j));
        } else {
            assert(ex2[ex.len() as int] == candidate(p, mode, i));
        }
    }
    assert(is_first_free(p, mode, ex2, (i + 1) as nat));
    lemma_first_free_index_props(p, mode, ex2);
    lemma_first_free_unique(p, mode, ex2, (i + 1) as nat, first_free_index(p, mode, ex2));
}

/// Guarded creation refuses a path that already exists, rather than ever
/// overwriting it.
pub proof fn lemma_create_existing_fails(p: Seq<char>, ex: Seq<Seq<char>>)
    requires
        is_file_path(p),
        ex.contains(p),
    ensures
        create_append_new_spec(p, ex) == Err::<Seq<char>, PathError>(PathError::AlreadyExists),
{
}

/// Guarded creation refuses a separator-terminated path as not a file,
/// before anything would be mutated.
pub proof fn lemma_create_directory_path_fails(p: Seq<char>, ex: Seq<Seq<char>>)
    requires
        p.len() > 0,
        p.last() == '/',
    ensures
        create_append_new_spec(p, ex) == Err::<Seq<char>, PathError>(PathError::NotAFile),
{
    lemma_separator_terminated_path_not_file(p);
}

/// On a path with no extension, extension-preserving naming coincides with
/// plain suffix naming, candidate for candidate.
pub proof fn lemma_no_extension_same_as_suffix(p: Seq<char>, i: nat)
    requires
        !has_extension(p),
    ensures
        candidate(p, NamingMode::PreserveExtension, i) == candidate(p, NamingMode::Suffix, i),
{
}

/// Once a computed incremental path is recorded as existing, probing the
/// updated snapshot never returns that path again.
pub proof fn lemma_created_path_not_returned_again(
    p: Seq<char>,
    mode: NamingMode,
    ex: Seq<Seq<char>>,
)
    ensures
        incremental_path_of(p, mode, ex.push(incremental_path_of(p, mode, ex)))
            != incremental_path_of(p, mode, ex),
{
    let c = incremental_path_of(p, mode, ex);
    let ex2 = ex.push(c);
    lemma_first_free_index_props(p, mode, ex2);
    assert(ex2[ex.len() as int] == c);
    assert(ex2.contains(c));
}

} // verus!
