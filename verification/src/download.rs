//! Decisions of the download step: which chapters the remote service still
//! has to download, and when to stop asking whether it has finished.

use vstd::prelude::*;

verus! {

/// What the remote service says of a chapter: whether it has downloaded it.
#[derive(Debug, Clone, Copy, PartialEq, Eq, Structural)]
pub struct ChapterStatus {
    pub id: i64,
    pub is_downloaded: bool,
}

/// What the remote service says of its downloader.
#[derive(Debug, Clone, Copy, PartialEq, Eq, Structural)]
pub enum DownloaderState {
    Started,
    Stopped,
}

/// The chapters that are not downloaded yet, in the order of the answer.
pub open spec fn missing_ids(statuses: Seq<ChapterStatus>) -> Seq<i64>
    decreases statuses.len(),
{
    if statuses.len() == 0 {
        Seq::empty()
    } else if statuses.last().is_downloaded {
        missing_ids(statuses.drop_last())
    } else {
        missing_ids(statuses.drop_last()).push(statuses.last().id)
    }
}

/// Whether every chapter of the answer is downloaded.
pub open spec fn all_downloaded(statuses: Seq<ChapterStatus>) -> bool {
    forall|i: int| 0 <= i < statuses.len() ==> (#[trigger] statuses[i]).is_downloaded
}

/// Nothing is missing exactly when every chapter is downloaded, and what is
/// missing is a chapter of the answer that is not downloaded.
pub proof fn lemma_missing_ids(statuses: Seq<ChapterStatus>)
    ensures
        missing_ids(statuses).len() == 0 <==> all_downloaded(statuses),
        forall|k: int|
            0 <= k < missing_ids(statuses).len() ==> exists|i: int|
                0 <= i < statuses.len() && !(#[trigger] statuses[i]).is_downloaded
                    && statuses[i].id == #[trigger] missing_ids(statuses)[k],
        forall|i: int|
            0 <= i < statuses.len() && !(#[trigger] statuses[i]).is_downloaded ==> missing_ids(
                statuses,
            ).contains(statuses[i].id),
    decreases statuses.len(),
{
    if statuses.len() > 0 {
        let before = statuses.drop_last();
        lemma_missing_ids(before);
        let now = missing_ids(statuses);
        let earlier = missing_ids(before);
        assert(forall|i: int| 0 <= i < before.len() ==> before[i] == statuses[i]);
        if statuses.last().is_downloaded {
            if all_downloaded(before) {
                assert forall|i: int| 0 <= i < statuses.len() implies (
                #[trigger] statuses[i]).is_downloaded by {
                    if i < before.len() {
                        assert(before[i].is_downloaded);
                    }
                }
            }
        } else {
            assert(!statuses[statuses.len() - 1].is_downloaded);
        }
        assert forall|k: int| 0 <= k < now.len() implies exists|i: int|
            0 <= i < statuses.len() && !(#[trigger] statuses[i]).is_downloaded && statuses[i].id
                == #[trigger] now[k] by {
            if k < earlier.len() {
                let i = choose|i: int|
                    0 <= i < before.len() && !(#[trigger] before[i]).is_downloaded && before[i].id
                        == earlier[k];
                assert(!statuses[i].is_downloaded && statuses[i].id == now[k]);
            } else {
                let i = statuses.len() - 1;
                assert(!statuses[i].is_downloaded && statuses[i].id == now[k]);
            }
        }
        assert forall|i: int|
            0 <= i < statuses.len() && !(#[trigger] statuses[i]).is_downloaded implies now.contains(
            statuses[i].id,
        ) by {
            if i < before.len() {
                assert(!before[i].is_downloaded);
                assert(earlier.contains(before[i].id));
                let k = choose|k: int| 0 <= k < earlier.len() && earlier[k] == before[i].id;
                assert(now[k] == statuses[i].id);
            } else {
                assert(now[now.len() - 1] == statuses[i].id);
            }
        }
    }
}

/// Picks from the answer of the remote service the chapters that it has not
/// downloaded yet.
pub fn chapters_to_download(statuses: &Vec<ChapterStatus>) -> (ids: Vec<i64>)
    ensures
        ids@ == missing_ids(statuses@),
{
    let mut ids: Vec<i64> = Vec::new();
    let mut i: usize = 0;
    assert(statuses@.take(0) =~= Seq::<ChapterStatus>::empty());
    while i < statuses.len()
        invariant
            i <= statuses@.len(),
            ids@ == missing_ids(statuses@.take(i as int)),
        decreases statuses@.len() - i,
    {
        proof {
            let t = statuses@.take(i + 1);
            assert(t.drop_last() =~= statuses@.take(i as int));
            assert(t.last() == statuses@[i as int]);
        }
        if !statuses[i].is_downloaded {
            ids.push(statuses[i].id);
        }
        i += 1;
    }
    assert(statuses@.take(statuses@.len() as int) =~= statuses@);
    ids
}

/// Whether an answer about the downloader ends the waiting well: it says
/// that the downloader has stopped. No answer says so.
pub open spec fn download_over(answer: Option<DownloaderState>) -> bool {
    match answer {
        Some(DownloaderState::Stopped) => true,
        Some(DownloaderState::Started) => false,
        None => false,
    }
}

/// Whether an answer about the downloader ends the waiting well.
pub fn is_download_over(answer: &Option<DownloaderState>) -> (over: bool)
    ensures
        over == download_over(*answer),
{
    match answer {
        Some(DownloaderState::Stopped) => true,
        Some(DownloaderState::Started) => false,
        None => false,
    }
}

} // verus!
