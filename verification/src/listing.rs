use vstd::prelude::*;

use crate::error::FsError;

verus! {

/// The names a listing keeps, given the enumerated entries in order: each
/// entry whose name decoded as text (`Some`) contributes that name, in the
/// order the enumeration yielded it, and each undecodable entry (`None`) is
/// silently dropped. This is the deliberate lossy-tolerant policy: a bad name
/// never aborts the listing.
pub open spec fn decoded_names(entries: Seq<Option<Seq<char>>>) -> Seq<Seq<char>>
    decreases entries.len(),
{
    if entries.len() == 0 {
        Seq::empty()
    } else {
        match entries.last() {
            Some(name) => decoded_names(entries.drop_last()).push(name),
            None => decoded_names(entries.drop_last()),
        }
    }
}

/// Collects the decodable entry names, keeping the enumeration order and
/// dropping undecodable ones, exactly as `decoded_names` describes.
pub fn collect_entry_names(entries: &Vec<Option<String>>) -> (names: Vec<String>)
    ensures
        names.deep_view() == decoded_names(entries.deep_view()),
{
    let ghost dv = entries.deep_view();
    let mut names: Vec<String> = Vec::new();
    let mut i: usize = 0;
    while i < entries.len()
        invariant
            i <= entries.len(),
            dv == entries.deep_view(),
            dv.len() == entries.len(),
            names.deep_view() == decoded_names(dv.take(i as int)),
        decreases entries.len() - i,
    {
        let ghost old_names = names.deep_view();
        match &entries[i] {
            Some(name) => {
                names.push(name.clone());
                proof {
                    assert(names.deep_view() =~= old_names.push(name@));
                }
            },
            None => {},
        }
        proof {
            assert(dv.take(i + 1 as int).drop_last() =~= dv.take(i as int));
            assert(dv.take(i + 1 as int).last() == dv[i as int]);
        }
        i += 1;
    }
    proof {
        assert(dv.take(dv.len() as int) =~= dv);
    }
    names
}

/// Interprets the outcome of opening a directory and enumerating it. When
/// the directory could be opened, the listing succeeds with exactly the
/// decodable entry names in enumeration order; when it could not be opened
/// at all, the listing fails with `IoError` carrying the operating-system
/// message verbatim.
pub fn finish_listing(outcome: Result<Vec<Option<String>>, String>) -> (r: Result<
    Vec<String>,
    FsError,
>)
    ensures
        r is Ok <==> outcome is Ok,
        outcome is Ok ==> r->Ok_0.deep_view() == decoded_names(outcome->Ok_0.deep_view()),
        outcome is Err ==> r->Err_0 == FsError::IoError(outcome->Err_0),
{
    match outcome {
        Ok(entries) => Ok(collect_entry_names(&entries)),
        Err(m) => Err(FsError::IoError(m)),
    }
}

/// A listing holds exactly the decoded entry names and nothing else: every
/// decodable entry's name appears in the result, and every name in the
/// result is the name of some decodable entry.
pub proof fn lemma_decoded_names_exact(entries: Seq<Option<Seq<char>>>)
    ensures
        decoded_names(entries).len() <= entries.len(),
        forall|i: int|
            0 <= i < entries.len() && entries[i] is Some ==> decoded_names(entries).contains(
                entries[i]->0,
            ),
        forall|j: int|
            0 <= j < decoded_names(entries).len() ==> exists|i: int|
                0 <= i < entries.len() && #[trigger] entries[i] == Some(
                    #[trigger] decoded_names(entries)[j],
                ),
    decreases entries.len(),
{
    if entries.len() == 0 {
    } else {
        let rest = entries.drop_last();
        lemma_decoded_names_exact(rest);
        let d = decoded_names(entries);
        let dr = decoded_names(rest);
        assert forall|i: int| 0 <= i < entries.len() && entries[i] is Some implies d.contains(
            entries[i]->0,
        ) by {
            if i < entries.len() - 1 {
                assert(rest[i] == entries[i]);
                assert(dr.contains(entries[i]->0));
                let k = choose|k: int| 0 <= k < dr.len() && dr[k] == entries[i]->0;
                assert(d[k] == entries[i]->0);
            } else {
                assert(entries.last() is Some);
                assert(d.last() == entries[i]->0);
            }
        }
        assert forall|j: int| 0 <= j < d.len() implies exists|i: int|
            0 <= i < entries.len() && #[trigger] entries[i] == Some(#[trigger] d[j]) by {
            if j < dr.len() {
                assert(d[j] == dr[j]);
                let i = choose|i: int| 0 <= i < rest.len() && rest[i] == Some(dr[j]);
                assert(entries[i] == Some(d[j]));
            } else {
                assert(entries.last() is Some);
                assert(d[j] == entries.last()->0);
                assert(entries[entries.len() - 1] == Some(d[j]));
            }
        }
    }
}

} // verus!
