//! Reading rfds as an authorized caller: a caller sees an rfd when it is
//! public, when they hold its number directly, or when they hold the
//! global read tag. Listing joins each visible rfd with its latest
//! revision, newest rfd number first.

use vstd::prelude::*;

use crate::authn::KeyEncryptor;
use crate::authn::Signer;
use crate::context::ApiContext;
use crate::encoding::parse_i32_digits;
use crate::model::Rfd;
use crate::model::RfdPdf;
use crate::model::RfdRevision;
use crate::model::Visibility;
use crate::permissions::covered_by;
use crate::permissions::ApiPermission;
use crate::permissions::Caller;

verus! {

broadcast use vstd::seq_lib::group_seq_properties;

/// The full representation of one rfd: its row, its latest revision, and
/// the pdfs rendered from that revision.
#[derive(Clone, Debug)]
pub struct FullRfd {
    pub id: u128,
    pub rfd_number: i32,
    pub link: Option<String>,
    pub discussion: Option<String>,
    pub title: String,
    pub state: Option<String>,
    pub authors: Option<String>,
    pub content: String,
    pub sha: String,
    pub commit: String,
    pub committed_at: i64,
    pub pdfs: Vec<FullRfdPdfEntry>,
}

/// One rendered pdf attached to the returned revision.
#[derive(Clone, Debug)]
pub struct FullRfdPdfEntry {
    pub source: String,
    pub link: String,
}

/// One row of an rfd listing: the rfd joined with its latest revision.
#[derive(Clone, Debug)]
pub struct ListRfd {
    pub id: u128,
    pub rfd_number: i32,
    pub link: Option<String>,
    pub title: String,
    pub state: Option<String>,
    pub sha: String,
    pub commit: String,
    pub committed_at: i64,
}

/// The path parameter selecting one rfd by number.
#[derive(Clone, Debug)]
pub struct RfdPathParams {
    pub number: String,
}

/// Why an rfd read was refused. A caller without sight of an rfd gets the
/// same answer as for an rfd that does not exist.
#[derive(Clone, Copy, Debug, PartialEq, Eq, Structural)]
pub enum RfdError {
    MalformedNumber,
    NotFound,
}

/// The caller may read this rfd: it is public, or the caller's effective
/// set covers reading this very number (directly or through the global
/// read tag).
pub open spec fn rfd_visible(caller: Caller, rfd: Rfd) -> bool {
    rfd.visibility == Visibility::Public || covered_by(
        caller.permissions@,
        ApiPermission::GetRfd(rfd.rfd_number),
    )
}

/// Row `i` of the rfd table is live and visible to the caller.
pub open spec fn listable(rfds: Seq<Rfd>, caller: Caller, i: int) -> bool {
    0 <= i < rfds.len() && rfds[i].deleted_at is None && rfd_visible(caller, rfds[i])
}

/// `rev` is a live revision of `rfd_id`.
pub open spec fn revision_of(rev: RfdRevision, rfd_id: u128) -> bool {
    rev.rfd_id == rfd_id && rev.deleted_at is None
}

/// The characters of a requested content hash, where one is demanded.
pub open spec fn sha_chars(sha: Option<&str>) -> Option<Seq<char>> {
    match sha {
        Some(s) => Some(s@),
        None => None,
    }
}

/// Revision row `j` is live, belongs to `rfd_id`, and carries the wanted
/// content hash where one is demanded.
pub open spec fn revision_selectable(
    revisions: Seq<RfdRevision>,
    rfd_id: u128,
    sha: Option<Seq<char>>,
    j: int,
) -> bool {
    &&& 0 <= j < revisions.len()
    &&& revision_of(revisions[j], rfd_id)
    &&& (sha matches Some(sq) ==> revisions[j].sha@ == sq)
}

/// `entry` was listed from a live, visible rfd row and one of its live
/// revisions.
pub open spec fn listed_from(rfds: Seq<Rfd>, revisions: Seq<RfdRevision>, caller: Caller, entry: ListRfd) -> bool {
    exists|i: int, j: int|
        {
            &&& listable(rfds, caller, i)
            &&& 0 <= j < revisions.len()
            &&& revision_of(#[trigger] revisions[j], rfds[i].id)
            &&& entry.id == #[trigger] rfds[i].id
            &&& entry.rfd_number == rfds[i].rfd_number
            &&& entry.title@ == revisions[j].title@
            &&& entry.committed_at == revisions[j].committed_at
        }
}

/// `f` is the full representation of the rfd carrying `rfd_number`, for
/// this caller: built from a live visible rfd row and the newest of its
/// live revisions (narrowed to `sha` where one is demanded), every field
/// copied from those rows, with the revision's pdf entries in stored
/// order.
pub open spec fn full_rfd_from(
    rfds: Seq<Rfd>,
    revisions: Seq<RfdRevision>,
    pdfs: Seq<RfdPdf>,
    caller: Caller,
    rfd_number: i32,
    sha: Option<Seq<char>>,
    f: FullRfd,
) -> bool {
    exists|i: int, j: int|
        {
            &&& listable(rfds, caller, i)
            &&& #[trigger] rfds[i].rfd_number == rfd_number
            &&& #[trigger] revision_selectable(revisions, rfds[i].id, sha, j)
            &&& forall|j2: int|
                revision_selectable(revisions, rfds[i].id, sha, j2)
                    ==> revisions[j2].created_at <= revisions[j].created_at
            &&& f.id == rfds[i].id
            &&& f.rfd_number == rfd_number
            &&& f.link == rfds[i].link
            &&& f.title@ == revisions[j].title@
            &&& f.state == revisions[j].state
            &&& f.discussion == revisions[j].discussion
            &&& f.authors == revisions[j].authors
            &&& f.content@ == revisions[j].content@
            &&& f.sha@ == revisions[j].sha@
            &&& f.commit@ == revisions[j].commit_sha@
            &&& f.committed_at == revisions[j].committed_at
            &&& f.pdfs@ == pdf_entries_of(pdfs, revisions[j].id)
        }
}

impl<S: Signer, E: KeyEncryptor> ApiContext<S, E> {
    /// The caller's filtered view of the rfd table: each row of the result
    /// is a live visible rfd joined with one of its live revisions, every
    /// live visible rfd that has a live revision appears exactly once, and
    /// the rows come newest rfd number first.
    pub fn list_rfds(&self, caller: &Caller) -> (r: Vec<ListRfd>)
        requires
            self.wf(),
        ensures
            forall|j: int|
                0 <= j < r@.len() ==> listed_from(
                    self.storage.spec_rfds(),
                    self.storage.spec_revisions(),
                    *caller,
                    #[trigger] r@[j],
                ),
            forall|i: int|
                listable(self.storage.spec_rfds(), *caller, i) && (exists|j: int|
                    0 <= j < self.storage.spec_revisions().len() && revision_of(
                        #[trigger] self.storage.spec_revisions()[j],
                        self.storage.spec_rfds()[i].id,
                    )) ==> exists|j: int|
                    0 <= j < r@.len() && #[trigger] r@[j].id == self.storage.spec_rfds()[i].id,
            forall|a: int, b: int|
                0 <= a < b < r@.len() ==> r@[a].rfd_number >= r@[b].rfd_number,
            forall|a: int, b: int| 0 <= a < b < r@.len() ==> r@[a].id != r@[b].id,
    {
        let rfds = self.storage.rfds();
        let revisions = self.storage.revisions();
        let mut out: Vec<ListRfd> = Vec::new();
        let mut i: usize = 0;
        while i < rfds.len()
            invariant
                self.wf(),
                rfds@ == self.storage.spec_rfds(),
                revisions@ == self.storage.spec_revisions(),
                i <= rfds@.len(),
                forall|j: int|
                    0 <= j < out@.len() ==> listed_from(
                        rfds@,
                        revisions@,
                        *caller,
                        #[trigger] out@[j],
                    ),
                forall|j: int|
                    0 <= j < out@.len() ==> exists|k: int|
                        0 <= k < i && #[trigger] out@[j].id == rfds@[k].id,
                forall|k: int|
                    0 <= k < i && listable(rfds@, *caller, k) && (exists|j: int|
                        0 <= j < revisions@.len() && revision_of(
                            #[trigger] revisions@[j],
                            rfds@[k].id,
                        )) ==> exists|j: int|
                        0 <= j < out@.len() && #[trigger] out@[j].id == rfds@[k].id,
                forall|a: int, b: int|
                    0 <= a < b < out@.len() ==> out@[a].rfd_number >= out@[b].rfd_number,
                forall|a: int, b: int| 0 <= a < b < out@.len() ==> out@[a].id != out@[b].id,
            decreases rfds@.len() - i,
        {
            let rfd = &rfds[i];
            let visible = rfd.deleted_at.is_none() && (matches!(rfd.visibility, Visibility::Public)
                || caller.can(&ApiPermission::GetRfd(rfd.rfd_number)));
            if visible {
                match latest_revision_for(revisions, rfd.id, None) {
                    Some(rev) => {
                        let entry = ListRfd {
                            id: rfd.id,
                            rfd_number: rfd.rfd_number,
                            link: rfd.link.clone(),
                            title: rev.title.clone(),
                            state: rev.state.clone(),
                            sha: rev.sha.clone(),
                            commit: rev.commit_sha.clone(),
                            committed_at: rev.committed_at,
                        };
                        proof {
                            let j = choose|j: int|
                                0 <= j < revisions@.len() && revisions@[j] == *rev;
                            assert(listable(rfds@, *caller, i as int));
                            assert(revision_of(revisions@[j], rfds@[i as int].id));
                            assert(listed_from(rfds@, revisions@, *caller, entry));
                            assert forall|j2: int|
                                0 <= j2 < out@.len() implies #[trigger] out@[j2].id
                                != entry.id by {
                                let k = choose|k: int|
                                    0 <= k < i && #[trigger] out@[j2].id == rfds@[k].id;
                                assert(rfds@[k].id != rfds@[i as int].id);
                            }
                        }
                        let ghost before = out@;
                        insert_sorted(&mut out, entry);
                        proof {
                            let pos = choose|p: int|
                                0 <= p <= before.len() && out@ == before.insert(p, entry);
                            lemma_insert_keeps_distinct_ids(before, out@, entry, pos);
                            assert forall|j: int|
                                0 <= j < out@.len() implies listed_from(
                                rfds@,
                                revisions@,
                                *caller,
                                #[trigger] out@[j],
                            ) by {
                                assert(out@.contains(out@[j]));
                                if out@[j] != entry {
                                    assert(before.contains(out@[j]));
                                    let w = choose|w: int|
                                        0 <= w < before.len() && before[w] == out@[j];
                                }
                            }
                            assert forall|j: int|
                                0 <= j < out@.len() implies exists|k: int|
                                0 <= k < i + 1 && #[trigger] out@[j].id == rfds@[k].id by {
                                if j < pos {
                                    assert(out@[j] == before[j]);
                                } else if j == pos {
                                    assert(out@[j] == entry);
                                    assert(out@[j].id == rfds@[i as int].id);
                                } else {
                                    assert(out@[j] == before[j - 1]);
                                }
                            }
                            assert forall|k: int|
                                0 <= k < i + 1 && listable(rfds@, *caller, k) && (exists|j: int|
                                    0 <= j < revisions@.len() && revision_of(
                                        #[trigger] revisions@[j],
                                        rfds@[k].id,
                                    )) implies exists|j: int|
                                0 <= j < out@.len() && #[trigger] out@[j].id == rfds@[k].id by {
                                if k == i as int {
                                    assert(out@.contains(entry));
                                    let j = choose|j: int|
                                        0 <= j < out@.len() && out@[j] == entry;
                                    assert(out@[j].id == rfds@[k].id);
                                } else {
                                    let j0 = choose|j: int|
                                        0 <= j < before.len() && #[trigger] before[j].id
                                            == rfds@[k].id;
                                    assert(before.contains(before[j0]));
                                    assert(out@.contains(before[j0]));
                                    let j1 = choose|j: int|
                                        0 <= j < out@.len() && out@[j] == before[j0];
                                    assert(out@[j1].id == rfds@[k].id);
                                }
                            }
                        }
                    },
                    None => {
                        proof {
                            assert forall|j: int|
                                0 <= j < out@.len() implies exists|k: int|
                                0 <= k < i + 1 && #[trigger] out@[j].id == rfds@[k].id by {
                                let k = choose|k: int| 0 <= k < i && out@[j].id == rfds@[k].id;
                            }
                            assert forall|j: int|
                                0 <= j < revisions@.len() implies !revision_of(
                                #[trigger] revisions@[j],
                                rfds@[i as int].id,
                            ) by {
                                assert(!revision_selectable(
                                    revisions@,
                                    rfds@[i as int].id,
                                    None,
                                    j,
                                ));
                            }
                        }
                    },
                }
            } else {
                proof {
                    assert forall|j: int|
                        0 <= j < out@.len() implies exists|k: int|
                        0 <= k < i + 1 && #[trigger] out@[j].id == rfds@[k].id by {
                        let k = choose|k: int| 0 <= k < i && out@[j].id == rfds@[k].id;
                    }
                }
            }
            i += 1;
        }
        out
    }

    /// The full representation of the rfd with this number, when it is
    /// visible to the caller: the rfd row, its latest revision (or the
    /// revision at the requested content hash), and that revision's pdfs,
    /// field for field. Success is owed whenever a visible rfd carries the
    /// number and its revisions can satisfy the request; an rfd the caller
    /// may not see is absent the same way a missing one is.
    pub fn get_rfd(&self, caller: &Caller, rfd_number: i32, sha: Option<&str>) -> (r: Option<
        FullRfd,
    >)
        ensures
            r matches Some(f) ==> full_rfd_from(
                self.storage.spec_rfds(),
                self.storage.spec_revisions(),
                self.storage.spec_pdfs(),
                *caller,
                rfd_number,
                sha_chars(sha),
                f,
            ),
            ((exists|i: int|
                listable(self.storage.spec_rfds(), *caller, i)
                    && #[trigger] self.storage.spec_rfds()[i].rfd_number == rfd_number) && (forall|
                i: int,
            |
                listable(self.storage.spec_rfds(), *caller, i)
                    && #[trigger] self.storage.spec_rfds()[i].rfd_number == rfd_number
                    ==> exists|j: int|
                    revision_selectable(
                        self.storage.spec_revisions(),
                        self.storage.spec_rfds()[i].id,
                        sha_chars(sha),
                        j,
                    ))) ==> r is Some,
            r is None ==> (forall|i: int|
                !(listable(self.storage.spec_rfds(), *caller, i)
                    && #[trigger] self.storage.spec_rfds()[i].rfd_number == rfd_number)) || (exists|
                i: int,
            |
                listable(self.storage.spec_rfds(), *caller, i)
                    && #[trigger] self.storage.spec_rfds()[i].rfd_number == rfd_number && forall|
                    j: int,
                |
                    !revision_selectable(
                        self.storage.spec_revisions(),
                        self.storage.spec_rfds()[i].id,
                        sha_chars(sha),
                        j,
                    )),
    {
        let ghost sq: Option<Seq<char>> = sha_chars(sha);
        let rfds = self.storage.rfds();
        let revisions = self.storage.revisions();
        let mut i: usize = 0;
        while i < rfds.len()
            invariant
                sq == sha_chars(sha),
                rfds@ == self.storage.spec_rfds(),
                revisions@ == self.storage.spec_revisions(),
                i <= rfds@.len(),
                forall|k: int|
                    0 <= k < i ==> !(listable(rfds@, *caller, k) && #[trigger] rfds@[k].rfd_number
                        == rfd_number),
            decreases rfds@.len() - i,
        {
            let rfd = &rfds[i];
            let ghost rid = rfd.id;
            let visible = rfd.deleted_at.is_none() && rfd.rfd_number == rfd_number && (matches!(
                rfd.visibility,
                Visibility::Public,
            ) || caller.can(&ApiPermission::GetRfd(rfd.rfd_number)));
            if visible {
                match latest_revision_for(revisions, rfd.id, sha) {
                    Some(rev) => {
                        let pdfs = pdfs_for_revision(self.storage.pdfs(), rev.id);
                        let ghost j = choose|j: int|
                            0 <= j < revisions@.len() && revisions@[j] == *rev;
                        proof {
                            assert(listable(rfds@, *caller, i as int));
                            assert(rfds@[i as int].rfd_number == rfd_number);
                            assert(rid == rfds@[i as int].id);
                            assert(revisions@[j] == *rev);
                            assert(revision_selectable(revisions@, rfds@[i as int].id, sq, j));
                            assert forall|j2: int|
                                revision_selectable(
                                    revisions@,
                                    rfds@[i as int].id,
                                    sq,
                                    j2,
                                ) implies revisions@[j2].created_at
                                <= revisions@[j].created_at by {
                                assert(revision_selectable(revisions@, rid, sq, j2));
                                assert(revisions@[j2].created_at <= rev.created_at);
                            }
                        }
                        let f = FullRfd {
                            id: rfd.id,
                            rfd_number: rfd.rfd_number,
                            link: rfd.link.clone(),
                            discussion: rev.discussion.clone(),
                            title: rev.title.clone(),
                            state: rev.state.clone(),
                            authors: rev.authors.clone(),
                            content: rev.content.clone(),
                            sha: rev.sha.clone(),
                            commit: rev.commit_sha.clone(),
                            committed_at: rev.committed_at,
                            pdfs,
                        };
                        proof {
                            assert(full_rfd_from(
                                rfds@,
                                revisions@,
                                self.storage.spec_pdfs(),
                                *caller,
                                rfd_number,
                                sq,
                                f,
                            ));
                        }
                        return Some(f);
                    },
                    None => {
                        proof {
                            assert(listable(rfds@, *caller, i as int));
                            assert(rfds@[i as int].rfd_number == rfd_number);
                            assert(rid == rfds@[i as int].id);
                            assert forall|j: int|
                                !revision_selectable(revisions@, rfds@[i as int].id, sq, j) by {
                                assert(!revision_selectable(revisions@, rid, sq, j));
                            }
                        }
                        return None;
                    },
                }
            }
            i += 1;
        }
        None
    }
}

/// The live revision of `rfd_id` with the newest creation mark, narrowed
/// to one content hash where one is demanded: no other selectable
/// revision was created later.
fn latest_revision_for<'a>(
    revisions: &'a Vec<RfdRevision>,
    rfd_id: u128,
    sha: Option<&str>,
) -> (r: Option<&'a RfdRevision>)
    ensures
        r matches Some(rev) ==> revisions@.contains(*rev) && revision_of(*rev, rfd_id) && (
        sha_chars(sha) matches Some(c) ==> rev.sha@ == c) && forall|j2: int|
            revision_selectable(revisions@, rfd_id, sha_chars(sha), j2)
                ==> revisions@[j2].created_at <= rev.created_at,
        (r is None) == forall|j: int| !revision_selectable(revisions@, rfd_id, sha_chars(sha), j),
{
    let ghost sq: Option<Seq<char>> = sha_chars(sha);
    let mut best: Option<usize> = None;
    let mut i: usize = 0;
    while i < revisions.len()
        invariant
            sq == sha_chars(sha),
            i <= revisions@.len(),
            best matches Some(b) ==> b < i && revision_selectable(revisions@, rfd_id, sq, b as int)
                && forall|j2: int|
                0 <= j2 < i && revision_selectable(revisions@, rfd_id, sq, j2)
                    ==> revisions@[j2].created_at <= revisions@[b as int].created_at,
            best is None ==> forall|j: int|
                0 <= j < i ==> !revision_selectable(revisions@, rfd_id, sq, j),
        decreases revisions@.len() - i,
    {
        let rev = &revisions[i];
        let sha_matches = match sha {
            Some(s) => crate::encoding::str_eq(rev.sha.as_str(), s),
            None => true,
        };
        if rev.rfd_id == rfd_id && rev.deleted_at.is_none() && sha_matches {
            let better = match best {
                Some(b) => revisions[b].created_at < rev.created_at,
                None => true,
            };
            if better {
                best = Some(i);
            }
        }
        i += 1;
    }
    match best {
        Some(b) => {
            proof {
                assert(revisions@.contains(revisions@[b as int]));
                assert(revision_selectable(revisions@, rfd_id, sq, b as int));
            }
            Some(&revisions[b])
        },
        None => None,
    }
}

/// The pdf entries of one revision, in stored order.
pub open spec fn pdf_entries_of(pdfs: Seq<RfdPdf>, revision_id: u128) -> Seq<FullRfdPdfEntry>
    decreases pdfs.len(),
{
    if pdfs.len() == 0 {
        Seq::<FullRfdPdfEntry>::empty()
    } else {
        let rest = pdf_entries_of(pdfs.drop_last(), revision_id);
        if pdfs.last().rfd_revision_id == revision_id {
            rest.push(FullRfdPdfEntry { source: pdfs.last().source, link: pdfs.last().link })
        } else {
            rest
        }
    }
}

/// The pdf entries attached to one revision, in stored order.
fn pdfs_for_revision(pdfs: &Vec<RfdPdf>, revision_id: u128) -> (r: Vec<FullRfdPdfEntry>)
    ensures
        r@ == pdf_entries_of(pdfs@, revision_id),
{
    let mut out: Vec<FullRfdPdfEntry> = Vec::new();
    let mut i: usize = 0;
    proof {
        assert(pdfs@.take(0) =~= Seq::<RfdPdf>::empty());
    }
    while i < pdfs.len()
        invariant
            i <= pdfs@.len(),
            out@ == pdf_entries_of(pdfs@.take(i as int), revision_id),
        decreases pdfs@.len() - i,
    {
        proof {
            assert(pdfs@.take(i + 1).drop_last() =~= pdfs@.take(i as int));
            assert(pdfs@.take(i + 1).last() == pdfs@[i as int]);
        }
        if pdfs[i].rfd_revision_id == revision_id {
            let entry = FullRfdPdfEntry {
                source: pdfs[i].source.clone(),
                link: pdfs[i].link.clone(),
            };
            out.push(entry);
        }
        i += 1;
    }
    proof {
        assert(pdfs@.take(pdfs@.len() as int) =~= pdfs@);
    }
    out
}

/// An insertion keeps ids pairwise distinct when the new entry's id is
/// fresh.
proof fn lemma_insert_keeps_distinct_ids(
    before: Seq<ListRfd>,
    after: Seq<ListRfd>,
    entry: ListRfd,
    p: int,
)
    requires
        0 <= p <= before.len(),
        after == before.insert(p, entry),
        forall|a: int, b: int| 0 <= a < b < before.len() ==> before[a].id != before[b].id,
        forall|j: int| 0 <= j < before.len() ==> #[trigger] before[j].id != entry.id,
    ensures
        forall|a: int, b: int| 0 <= a < b < after.len() ==> after[a].id != after[b].id,
{
    assert forall|a: int, b: int| 0 <= a < b < after.len() implies after[a].id != after[b].id by {
        assert(after[a] == if a < p {
            before[a]
        } else if a == p {
            entry
        } else {
            before[a - 1]
        });
        assert(after[b] == if b < p {
            before[b]
        } else if b == p {
            entry
        } else {
            before[b - 1]
        });
    }
}

/// Inserts an entry into a listing kept newest rfd number first, keeping
/// it sorted; the result is exactly the old listing with the entry at one
/// position.
fn insert_sorted(out: &mut Vec<ListRfd>, entry: ListRfd)
    requires
        forall|a: int, b: int|
            0 <= a < b < old(out)@.len() ==> old(out)@[a].rfd_number >= old(out)@[b].rfd_number,
    ensures
        final(out)@.len() == old(out)@.len() + 1,
        forall|a: int, b: int|
            0 <= a < b < final(out)@.len() ==> final(out)@[a].rfd_number
                >= final(out)@[b].rfd_number,
        forall|x: ListRfd| final(out)@.contains(x) <==> (old(out)@.contains(x) || x == entry),
        exists|p: int| 0 <= p <= old(out)@.len() && final(out)@ == old(out)@.insert(p, entry),
    decreases 0int,
{
    let mut p: usize = 0;
    while p < out.len() && out[p].rfd_number >= entry.rfd_number
        invariant
            *out == *old(out),
            p <= out@.len(),
            forall|a: int| 0 <= a < p ==> #[trigger] out@[a].rfd_number >= entry.rfd_number,
        decreases out@.len() - p,
    {
        p += 1;
    }
    let ghost before = out@;
    let ghost pos = p as int;
    out.insert(p, entry);
    proof {
        assert(out@ == before.insert(pos, entry));
        assert forall|a: int, b: int|
            0 <= a < b < out@.len() implies out@[a].rfd_number >= out@[b].rfd_number by {
            assert(out@[a] == if a < pos {
                before[a]
            } else if a == pos {
                entry
            } else {
                before[a - 1]
            });
            assert(out@[b] == if b < pos {
                before[b]
            } else if b == pos {
                entry
            } else {
                before[b - 1]
            });
            if b == pos {
            } else if a == pos {
                assert(pos < before.len() + 1);
                assert(before[b - 1].rfd_number <= entry.rfd_number || pos >= before.len());
            }
        }
        assert forall|x: ListRfd| out@.contains(x) implies (before.contains(x) || x == entry) by {
            let j = choose|j: int| 0 <= j < out@.len() && out@[j] == x;
            if j < pos {
                assert(before[j] == x);
            } else if j > pos {
                assert(before[j - 1] == x);
            }
        }
        assert forall|x: ListRfd| (before.contains(x) || x == entry) implies out@.contains(x) by {
            if x == entry {
                assert(out@[pos] == x);
            } else {
                let j = choose|j: int| 0 <= j < before.len() && before[j] == x;
                if j < pos {
                    assert(out@[j] == x);
                } else {
                    assert(out@[j + 1] == x);
                }
            }
        }
    }
}

/// Reads one rfd by its textual number for an authorized caller: a
/// malformed number is refused as such; an rfd that is absent or out of
/// the caller's sight is reported not found, the same way either way;
/// success is owed whenever a visible rfd carries the number and has a
/// live revision.
pub fn get_rfd_op<S: Signer, E: KeyEncryptor>(ctx: &ApiContext<S, E>, caller: &Caller, number: String) -> (r: Result<
    FullRfd,
    RfdError,
>)
    ensures
        !(crate::encoding::all_digits(number@) && 0 < number@.len() <= 10
            && crate::encoding::digits_val(number@) <= i32::MAX) <==> r == Err::<
            FullRfd,
            RfdError,
        >(RfdError::MalformedNumber),
        r matches Ok(f) ==> f.rfd_number == crate::encoding::digits_val(number@)
            && full_rfd_from(
            ctx.storage.spec_rfds(),
            ctx.storage.spec_revisions(),
            ctx.storage.spec_pdfs(),
            *caller,
            f.rfd_number,
            None,
            f,
        ),
        (crate::encoding::all_digits(number@) && 0 < number@.len() <= 10
            && crate::encoding::digits_val(number@) <= i32::MAX && (exists|i: int|
            listable(ctx.storage.spec_rfds(), *caller, i)
                && #[trigger] ctx.storage.spec_rfds()[i].rfd_number == crate::encoding::digits_val(
                number@,
            )) && (forall|i: int|
            listable(ctx.storage.spec_rfds(), *caller, i)
                && #[trigger] ctx.storage.spec_rfds()[i].rfd_number == crate::encoding::digits_val(
                number@,
            ) ==> exists|j: int|
                revision_selectable(
                    ctx.storage.spec_revisions(),
                    ctx.storage.spec_rfds()[i].id,
                    None,
                    j,
                ))) ==> r is Ok,
{
    match parse_i32_digits(number.as_str()) {
        Some(rfd_number) => match ctx.get_rfd(caller, rfd_number, None) {
            Some(rfd) => Ok(rfd),
            None => Err(RfdError::NotFound),
        },
        None => Err(RfdError::MalformedNumber),
    }
}

/// Lists the rfds visible to an authorized caller, newest number first:
/// every visible rfd that has a live revision appears exactly once.
pub fn get_rfds_op<S: Signer, E: KeyEncryptor>(ctx: &ApiContext<S, E>, caller: &Caller) -> (r: Vec<ListRfd>)
    requires
        ctx.wf(),
    ensures
        forall|j: int|
            0 <= j < r@.len() ==> listed_from(
                ctx.storage.spec_rfds(),
                ctx.storage.spec_revisions(),
                *caller,
                #[trigger] r@[j],
            ),
        forall|i: int|
            listable(ctx.storage.spec_rfds(), *caller, i) && (exists|j: int|
                0 <= j < ctx.storage.spec_revisions().len() && revision_of(
                    #[trigger] ctx.storage.spec_revisions()[j],
                    ctx.storage.spec_rfds()[i].id,
                )) ==> exists|j: int|
                0 <= j < r@.len() && #[trigger] r@[j].id == ctx.storage.spec_rfds()[i].id,
        forall|a: int, b: int| 0 <= a < b < r@.len() ==> r@[a].rfd_number >= r@[b].rfd_number,
        forall|a: int, b: int| 0 <= a < b < r@.len() ==> r@[a].id != r@[b].id,
{
    ctx.list_rfds(caller)
}

} // verus!
