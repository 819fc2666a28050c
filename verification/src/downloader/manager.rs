//! The queue of downloads waiting to be run.

use std::collections::VecDeque;
use vstd::prelude::*;

use crate::core_types::{Download, DownloadStatus};

verus! {

/// `q` with the status of its first download whose URL is `url` set to
/// `status`; `q` itself when no download has that URL.
pub open spec fn set_status_of_first(q: Seq<Download>, url: Seq<char>, status: DownloadStatus) -> Seq<
    Download,
>
    decreases q.len(),
{
    if q.len() == 0 {
        q
    } else if q[0].url@ == url {
        q.update(0, q[0].with_status(status))
    } else {
        seq![q[0]] + set_status_of_first(q.drop_first(), url, status)
    }
}

/// `q` without the downloads whose URL is `url`, the others in their order.
pub open spec fn without_url(q: Seq<Download>, url: Seq<char>) -> Seq<Download>
    decreases q.len(),
{
    if q.len() == 0 {
        q
    } else if q.last().url@ == url {
        without_url(q.drop_last(), url)
    } else {
        without_url(q.drop_last(), url).push(q.last())
    }
}

proof fn lemma_without_url_len(q: Seq<Download>, url: Seq<char>)
    ensures
        without_url(q, url).len() <= q.len(),
    decreases q.len(),
{
    if q.len() > 0 {
        lemma_without_url_len(q.drop_last(), url);
    }
}

/// A first-in, first-out queue of downloads.
pub struct DownloadManager {
    pub queue: VecDeque<Download>,
}

proof fn lemma_set_status_step(q: Seq<Download>, url: Seq<char>, status: DownloadStatus, i: int)
    requires
        0 <= i < q.len(),
        q[i].url@ != url,
    ensures
        q.take(i) + set_status_of_first(q.skip(i), url, status) == q.take(i + 1)
            + set_status_of_first(q.skip(i + 1), url, status),
{
    let s = q.skip(i);
    assert(s[0] == q[i]);
    assert(s.drop_first() =~= q.skip(i + 1));
    assert(q.take(i + 1) =~= q.take(i).push(q[i]));
    assert(q.take(i) + (seq![q[i]] + set_status_of_first(q.skip(i + 1), url, status)) =~= q.take(
        i + 1,
    ) + set_status_of_first(q.skip(i + 1), url, status));
}

impl DownloadManager {
    /// An empty queue.
    pub fn new() -> (result: Self)
        ensures
            result.queue@ == Seq::<Download>::empty(),
    {
        DownloadManager { queue: VecDeque::new() }
    }

    /// Puts `download` at the back of the queue.
    pub fn add_download(&mut self, download: Download)
        ensures
            final(self).queue@ == old(self).queue@.push(download),
    {
        self.queue.push_back(download);
    }

    /// Takes the download at the front of the queue, if there is one.
    pub fn get_next_download(&mut self) -> (result: Option<Download>)
        ensures
            old(self).queue@.len() == 0 ==> result is None && final(self).queue@ == old(self).queue@,
            old(self).queue@.len() > 0 ==> result == Some(old(self).queue@[0]) && final(self).queue@
                == old(self).queue@.drop_first(),
    {
        let result = self.queue.pop_front();
        proof {
            if old(self).queue@.len() > 0 {
                assert(old(self).queue@.subrange(1, old(self).queue@.len() as int) =~= old(
                    self,
                ).queue@.drop_first());
            }
        }
        result
    }

    /// Whether the queue holds any download.
    pub fn has_downloads(&self) -> (result: bool)
        ensures
            result == (self.queue@.len() > 0),
    {
        self.queue.len() != 0
    }

    /// Sets the status of the first download whose URL is `url` to `status`.
    fn set_first_status(&mut self, url: &str, status: DownloadStatus)
        ensures
            final(self).queue@ == set_status_of_first(old(self).queue@, url@, status),
    {
        let target = url.to_owned();
        let ghost q = self.queue@;
        let len = self.queue.len();
        let mut i: usize = 0;
        assert(q.take(0) + set_status_of_first(q.skip(0), url@, status) =~= set_status_of_first(
            q,
            url@,
            status,
        )) by {
            assert(q.skip(0) =~= q);
        }
        while i < len
            invariant
                self.queue@ == q,
                q == old(self).queue@,
                len == q.len(),
                i <= len,
                target@ == url@,
                q.take(i as int) + set_status_of_first(q.skip(i as int), url@, status)
                    == set_status_of_first(q, url@, status),
            decreases len - i,
        {
            if self.queue[i].url == target {
                let ghost s = q.skip(i as int);
                assert(s[0] == q[i as int]);
                let removed = self.queue.remove(i);
                match removed {
                    Some(d) => {
                        let updated = Download {
                            url: d.url,
                            file_metadata: d.file_metadata,
                            progress: d.progress,
                            status,
                            download_path: d.download_path,
                        };
                        assert(d == q[i as int]);
                        assert(updated == q[i as int].with_status(status));
                        assert(s.len() > 0 && s[0].url@ == url@);
                        assert(set_status_of_first(s, url@, status) == s.update(
                            0,
                            s[0].with_status(status),
                        ));
                        self.queue.insert(i, updated);
                        assert(self.queue@ =~= q.take(i as int) + s.update(
                            0,
                            s[0].with_status(status),
                        ));
                    },
                    None => {},
                }
                assert(self.queue@ == set_status_of_first(q, url@, status));
                return ;
            }
            proof {
                lemma_set_status_step(q, url@, status, i as int);
            }
            i = i + 1;
        }
        assert(q.skip(len as int) =~= Seq::<Download>::empty());
        assert(q.take(len as int) =~= q);
    }

    /// Pauses the first download whose URL is `download_url`; does nothing
    /// when there is none.
    pub fn pause_download(&mut self, download_url: &str)
        ensures
            final(self).queue@ == set_status_of_first(
                old(self).queue@,
                download_url@,
                DownloadStatus::Paused,
            ),
    {
        self.set_first_status(download_url, DownloadStatus::Paused);
    }

    /// Puts the first download whose URL is `download_url` back to pending;
    /// does nothing when there is none.
    pub fn resume_download(&mut self, download_url: &str)
        ensures
            final(self).queue@ == set_status_of_first(
                old(self).queue@,
                download_url@,
                DownloadStatus::Pending,
            ),
    {
        self.set_first_status(download_url, DownloadStatus::Pending);
    }

    /// Removes every download whose URL is `download_url`, keeping the
    /// order of the others.
    pub fn cancel_download(&mut self, download_url: &str)
        ensures
            final(self).queue@ == without_url(old(self).queue@, download_url@),
    {
        let target = download_url.to_owned();
        let ghost q = self.queue@;
        let len = self.queue.len();
        let mut k: usize = 0;
        let mut i: usize = 0;
        assert(q.take(0) =~= Seq::<Download>::empty());
        assert(q.skip(0) =~= q);
        while k < len
            invariant
                len == q.len(),
                k <= len,
                target@ == download_url@,
                i == without_url(q.take(k as int), download_url@).len(),
                self.queue@ == without_url(q.take(k as int), download_url@) + q.skip(k as int),
            decreases len - k,
        {
            let ghost kept = without_url(q.take(k as int), download_url@);
            proof {
                lemma_without_url_len(q.take(k as int), download_url@);
            }
            assert(q.take(k + 1).drop_last() =~= q.take(k as int));
            assert(q.take(k + 1).last() == q[k as int]);
            assert(self.queue@[i as int] == q[k as int]);
            if self.queue[i].url == target {
                let _ = self.queue.remove(i);
                assert(self.queue@ =~= kept + q.skip(k + 1));
            } else {
                assert(self.queue@ =~= kept.push(q[k as int]) + q.skip(k + 1));
                i = i + 1;
            }
            k = k + 1;
        }
        assert(q.take(len as int) =~= q);
        assert(self.queue@ =~= without_url(q, download_url@));
    }
}

/// Pausing or resuming leaves the queue's length and every download's link
/// as they were.
pub proof fn lemma_set_status_keeps_links(q: Seq<Download>, url: Seq<char>, status: DownloadStatus)
    ensures
        set_status_of_first(q, url, status).len() == q.len(),
        forall|i: int|
            0 <= i < q.len() ==> (#[trigger] set_status_of_first(q, url, status)[i]).url == q[i].url,
    decreases q.len(),
{
    if q.len() > 0 && q[0].url@ != url {
        lemma_set_status_keeps_links(q.drop_first(), url, status);
        let r = set_status_of_first(q, url, status);
        assert forall|i: int| 0 <= i < q.len() implies (#[trigger] r[i]).url == q[i].url by {
            if i > 0 {
                assert(r[i] == set_status_of_first(q.drop_first(), url, status)[i - 1]);
            }
        }
    }
}

/// Setting a status changes the first download with that link, and only
/// it, to that status, whatever status it had; every other download stays
/// as it was.
pub proof fn lemma_set_status_changes_first_only(
    q: Seq<Download>,
    url: Seq<char>,
    status: DownloadStatus,
    i: int,
)
    requires
        0 <= i < q.len(),
        q[i].url@ == url,
        forall|j: int| 0 <= j < i ==> (#[trigger] q[j]).url@ != url,
    ensures
        set_status_of_first(q, url, status).len() == q.len(),
        set_status_of_first(q, url, status)[i].status == status,
        set_status_of_first(q, url, status)[i] == q[i].with_status(status),
        forall|j: int|
            0 <= j < q.len() && j != i ==> #[trigger] set_status_of_first(q, url, status)[j] == q[j],
    decreases i,
{
    if i > 0 {
        let t = q.drop_first();
        assert(q[0].url@ != url);
        assert forall|j: int| 0 <= j < i - 1 implies (#[trigger] t[j]).url@ != url by {
            assert(t[j] == q[j + 1]);
        }
        lemma_set_status_changes_first_only(t, url, status, i - 1);
        let r = set_status_of_first(q, url, status);
        assert(r == seq![q[0]] + set_status_of_first(t, url, status));
        assert forall|j: int| 0 <= j < q.len() && j != i implies #[trigger] r[j] == q[j] by {
            if j > 0 {
                assert(r[j] == set_status_of_first(t, url, status)[j - 1]);
            }
        }
    }
}

/// Pausing twice is the same as pausing once: a paused download stays
/// paused.
pub proof fn lemma_pause_idempotent(q: Seq<Download>, url: Seq<char>)
    ensures
        set_status_of_first(set_status_of_first(q, url, DownloadStatus::Paused), url, DownloadStatus::Paused)
            == set_status_of_first(q, url, DownloadStatus::Paused),
    decreases q.len(),
{
    if q.len() > 0 {
        if q[0].url@ == url {
            let p = set_status_of_first(q, url, DownloadStatus::Paused);
            assert(p[0].url@ == url);
            assert(p.update(0, p[0].with_status(DownloadStatus::Paused)) =~= p);
        } else {
            lemma_pause_idempotent(q.drop_first(), url);
            let p = set_status_of_first(q, url, DownloadStatus::Paused);
            assert(p[0] == q[0]);
            assert(p.drop_first() =~= set_status_of_first(q.drop_first(), url, DownloadStatus::Paused));
        }
    }
}

/// Resuming a download just paused has the same effect as resuming it
/// directly: the second change of status overrides the first.
pub proof fn lemma_resume_after_pause(q: Seq<Download>, url: Seq<char>)
    ensures
        set_status_of_first(set_status_of_first(q, url, DownloadStatus::Paused), url, DownloadStatus::Pending)
            == set_status_of_first(q, url, DownloadStatus::Pending),
    decreases q.len(),
{
    if q.len() > 0 {
        if q[0].url@ == url {
            let p = set_status_of_first(q, url, DownloadStatus::Paused);
            assert(p[0].url@ == url);
            assert(p.update(0, p[0].with_status(DownloadStatus::Pending)) =~= q.update(
                0,
                q[0].with_status(DownloadStatus::Pending),
            ));
        } else {
            lemma_resume_after_pause(q.drop_first(), url);
            let p = set_status_of_first(q, url, DownloadStatus::Paused);
            assert(p[0] == q[0]);
            assert(p.drop_first() =~= set_status_of_first(q.drop_first(), url, DownloadStatus::Paused));
        }
    }
}

/// After a cancellation no download with that link is left.
pub proof fn lemma_cancel_removes_all(q: Seq<Download>, url: Seq<char>)
    ensures
        forall|i: int|
            0 <= i < without_url(q, url).len() ==> (#[trigger] without_url(q, url)[i]).url@ != url,
    decreases q.len(),
{
    if q.len() > 0 {
        lemma_cancel_removes_all(q.drop_last(), url);
    }
}

/// Cancelling twice is the same as cancelling once.
pub proof fn lemma_cancel_idempotent(q: Seq<Download>, url: Seq<char>)
    ensures
        without_url(without_url(q, url), url) == without_url(q, url),
    decreases q.len(),
{
    if q.len() > 0 {
        lemma_cancel_idempotent(q.drop_last(), url);
        let r = without_url(q.drop_last(), url);
        if q.last().url@ != url {
            let w = r.push(q.last());
            assert(w.drop_last() =~= r);
            assert(w.last() == q.last());
        }
    }
}

/// Pausing a download that is not in the queue changes nothing; in
/// particular pausing after cancelling does nothing.
pub proof fn lemma_pause_after_cancel(q: Seq<Download>, url: Seq<char>, status: DownloadStatus)
    ensures
        set_status_of_first(without_url(q, url), url, status) == without_url(q, url),
{
    lemma_cancel_removes_all(q, url);
    lemma_set_status_absent(without_url(q, url), url, status);
}

/// Setting a status when no download has that link changes nothing.
pub proof fn lemma_set_status_absent(q: Seq<Download>, url: Seq<char>, status: DownloadStatus)
    requires
        forall|i: int| 0 <= i < q.len() ==> (#[trigger] q[i]).url@ != url,
    ensures
        set_status_of_first(q, url, status) == q,
    decreases q.len(),
{
    if q.len() > 0 {
        assert(q[0].url@ != url);
        let t = q.drop_first();
        assert forall|i: int| 0 <= i < t.len() implies (#[trigger] t[i]).url@ != url by {
            assert(t[i] == q[i + 1]);
        }
        lemma_set_status_absent(t, url, status);
        assert(seq![q[0]] + t =~= q);
    }
}

/// The queue is first in, first out: a download added to a non-empty queue
/// does not change what is taken next, and one added to an empty queue is
/// the next taken.
pub proof fn lemma_queue_fifo(q: Seq<Download>, d: Download)
    ensures
        q.len() == 0 ==> q.push(d)[0] == d && q.push(d).drop_first() == q,
        q.len() > 0 ==> q.push(d)[0] == q[0] && q.push(d).drop_first() == q.drop_first().push(d),
{
    assert(q.len() == 0 ==> q.push(d).drop_first() =~= q);
    assert(q.len() > 0 ==> q.push(d).drop_first() =~= q.drop_first().push(d));
}

} // verus!
