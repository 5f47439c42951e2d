use vstd::prelude::*;
use vstd::string::*;

use crate::error::FsError;

verus! {

/// A path is rooted (absolute) when it begins with the separator. The crate
/// models paths with the POSIX separator `/`; the strategy for the one
/// platform with a different native convention is selected at build time and
/// never reaches this code with its own separators.
pub open spec fn is_rooted(p: Seq<char>) -> bool {
    p.len() > 0 && p[0] == '/'
}

/// What appending `rel` to `base` as a path segment yields: a rooted `rel`
/// replaces `base` entirely (the join primitive's absolute-path override),
/// an empty `base` contributes nothing, and otherwise exactly one separator
/// stands between the two parts.
pub open spec fn join_spec(base: Seq<char>, rel: Seq<char>) -> Seq<char> {
    if is_rooted(rel) {
        rel
    } else if base.len() == 0 {
        rel
    } else if base[base.len() - 1] == '/' {
        base + rel
    } else {
        base + seq!['/'] + rel
    }
}

/// Joins a base path and a relative path, preserving the override semantics
/// of the platform join primitive: a rooted `relative` replaces `base`.
pub fn join_paths(base: &str, relative: &str) -> (r: String)
    ensures
        r@ == join_spec(base@, relative@),
{
    let rel_len = relative.unicode_len();
    let base_len = base.unicode_len();
    if rel_len > 0 && relative.get_char(0) == '/' {
        relative.to_owned()
    } else if base_len == 0 {
        relative.to_owned()
    } else if base.get_char(base_len - 1) == '/' {
        base.to_owned().concat(relative)
    } else {
        let r = base.to_owned().concat("/").concat(relative);
        proof {
            reveal_strlit("/");
            assert("/"@ =~= seq!['/']);
            assert(r@ =~= base@ + seq!['/'] + relative@);
        }
        r
    }
}

/// Interprets the outcome of canonicalizing the joined path against the real
/// filesystem. A successful canonicalization passes its canonical absolute
/// path through unchanged; every failure becomes `NotFound`, carrying the
/// operating-system message verbatim. No partial result is ever returned on
/// failure.
pub fn finish_resolution(outcome: Result<String, String>) -> (r: Result<String, FsError>)
    ensures
        r is Ok <==> outcome is Ok,
        outcome is Ok ==> r->Ok_0 == outcome->Ok_0,
        outcome is Err ==> r->Err_0 == FsError::NotFound(outcome->Err_0),
{
    match outcome {
        Ok(p) => Ok(p),
        Err(m) => Err(FsError::NotFound(m)),
    }
}

/// A rooted relative path overrides the base entirely: joining then forgets
/// `base` and yields `rel` itself, whatever `base` was.
pub proof fn lemma_join_rooted_overrides(base: Seq<char>, rel: Seq<char>)
    requires
        is_rooted(rel),
    ensures
        join_spec(base, rel) == rel,
{
}

/// Joining a non-rooted relative path onto a non-empty base keeps both parts
/// intact: the joined path starts with `base` and ends with `rel`.
pub proof fn lemma_join_keeps_parts(base: Seq<char>, rel: Seq<char>)
    requires
        !is_rooted(rel),
        base.len() > 0,
    ensures
        join_spec(base, rel).len() >= base.len() + rel.len(),
        join_spec(base, rel).subrange(0, base.len() as int) == base,
        join_spec(base, rel).subrange(
            join_spec(base, rel).len() - rel.len(),
            join_spec(base, rel).len() as int,
        ) == rel,
{
    let j = join_spec(base, rel);
    if base[base.len() - 1] == '/' {
        assert(j.subrange(0, base.len() as int) =~= base);
        assert(j.subrange(j.len() - rel.len(), j.len() as int) =~= rel);
    } else {
        assert(j.subrange(0, base.len() as int) =~= base);
        assert(j.subrange(j.len() - rel.len(), j.len() as int) =~= rel);
    }
}

} // verus!
