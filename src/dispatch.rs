//! The download phase: one job per node of the finished tree, in level
//! order, each saved under a file name derived from its address, and a
//! bounded pool that decides when the next job may start.
use crate::queue::Queue;
use crate::text::{ascii_chars, ascii_string};
use crate::tree::Tree;
use std::hash::BuildHasher;
use vstd::prelude::*;

verus! {

/// The hash that std's `DefaultHasher`, fresh from `DefaultHasher::default`,
/// finishes with after hashing the string `s`.
pub uninterp spec fn default_hash(s: Seq<char>) -> u64;

/// Relies on std's `BuildHasher::hash_one` with
/// `BuildHasherDefault<DefaultHasher>`: a fresh default hasher fed the string;
/// the result depends on the string alone.
#[verifier::external_body]
fn url_hash(s: &String) -> (r: u64)
    ensures
        r == default_hash(s@),
{
    std::hash::BuildHasherDefault::<std::hash::DefaultHasher>::default().hash_one(s)
}

/// The ASCII code of the lowercase hexadecimal digit for `d`, below 16.
pub open spec fn hex_digit(d: nat) -> u8 {
    if d < 10 {
        (48 + d) as u8
    } else {
        (87 + d) as u8
    }
}

/// `n` in lowercase hexadecimal, as ASCII codes, without leading zeros ("0"
/// for zero).
pub open spec fn hex_bytes(n: nat) -> Seq<u8>
    decreases n,
{
    if n < 16 {
        seq![hex_digit(n)]
    } else {
        hex_bytes(n / 16).push(hex_digit(n % 16))
    }
}

fn hex_digit_byte(d: u64) -> (r: u8)
    requires
        d < 16,
    ensures
        r == hex_digit(d as nat),
        r < 128,
{
    if d < 10 {
        48 + d as u8
    } else {
        87 + d as u8
    }
}

/// The file name for an address whose hash is `h`: `h` in lowercase
/// hexadecimal.
pub fn file_name_for_hash(h: u64) -> (r: String)
    ensures
        r@ == ascii_chars(hex_bytes(h as nat)),
{
    let mut m: u64 = h;
    let mut acc: Vec<u8> = Vec::new();
    while m >= 16
        invariant
            hex_bytes(h as nat) == hex_bytes(m as nat) + acc@,
            forall|i: int| 0 <= i < acc@.len() ==> acc@[i] < 128,
        decreases m,
    {
        let d = hex_digit_byte(m % 16);
        let ghost before = acc@;
        acc.insert(0, d);
        assert(hex_bytes(m as nat) == hex_bytes((m / 16) as nat).push(d));
        m = m / 16;
        assert(hex_bytes(h as nat) =~= hex_bytes(m as nat) + acc@);
    }
    let d = hex_digit_byte(m);
    acc.insert(0, d);
    assert(hex_bytes(h as nat) =~= acc@);
    ascii_string(acc)
}

/// The file name an address is saved under: the hexadecimal form of its
/// default hash, with no extension.
pub fn hash_file_name(s: String) -> (r: String)
    ensures
        r@ == ascii_chars(hex_bytes(default_hash(s@) as nat)),
{
    let h = url_hash(&s);
    file_name_for_hash(h)
}

/// One download: an address and the file it is saved to.
pub struct DownloadJob {
    pub url: String,
    pub file_name: String,
}

/// The jobs for every node of `tree`, in level order, each named after the
/// hash of its address.
pub fn download_plan(tree: &Tree<String>) -> (r: Vec<DownloadJob>)
    requires
        tree.wf(),
    ensures
        r@.len() == tree.level_order().len(),
        forall|k: int|
            0 <= k < r@.len() ==> {
                &&& (#[trigger] r@[k]).url@ == tree.value_at(tree.level_order()[k] as int)@
                &&& r@[k].file_name@ == ascii_chars(hex_bytes(default_hash(r@[k].url@) as nat))
            },
{
    let urls = tree.traverse();
    let mut jobs: Vec<DownloadJob> = Vec::new();
    let mut k: usize = 0;
    while k < urls.len()
        invariant
            urls@.len() == tree.level_order().len(),
            forall|i: int| 0 <= i < urls@.len() ==> *urls@[i] == tree.value_at(#[trigger] tree.level_order()[i] as int),
            k <= urls@.len(),
            jobs@.len() == k,
            forall|i: int|
                0 <= i < k ==> {
                    &&& (#[trigger] jobs@[i]).url@ == tree.value_at(tree.level_order()[i] as int)@
                    &&& jobs@[i].file_name@ == ascii_chars(hex_bytes(default_hash(jobs@[i].url@) as nat))
                },
        decreases urls.len() - k,
    {
        let url: String = urls[k].clone();
        let file_name = hash_file_name(url.clone());
        jobs.push(DownloadJob { url, file_name });
        k = k + 1;
    }
    jobs
}

/// The bookkeeping of a bounded pool of downloads: jobs wait in order of
/// submission, at most `capacity` run at once, and the first failure reported
/// is kept.
pub struct DownloadPool {
    pending: Queue<DownloadJob>,
    in_flight: usize,
    capacity: usize,
    first_failure: Option<String>,
}

impl DownloadPool {
    /// The jobs waiting to start, in order.
    pub closed spec fn pending(&self) -> Seq<DownloadJob> {
        self.pending@
    }

    /// The number of jobs started and not yet reported.
    pub closed spec fn in_flight(&self) -> nat {
        self.in_flight as nat
    }

    /// The most jobs that may run at once.
    pub closed spec fn capacity(&self) -> nat {
        self.capacity as nat
    }

    /// The first failure reported, if any.
    pub closed spec fn first_failure(&self) -> Option<String> {
        self.first_failure
    }

    /// Never more jobs running than the capacity allows.
    pub open spec fn wf(&self) -> bool {
        0 < self.capacity() && self.in_flight() <= self.capacity()
    }

    /// An empty pool that runs at most `capacity` jobs at once.
    pub fn new(capacity: usize) -> (r: Self)
        requires
            capacity > 0,
        ensures
            r.wf(),
            r.pending().len() == 0,
            r.in_flight() == 0,
            r.capacity() == capacity,
            r.first_failure() is None,
    {
        DownloadPool { pending: Queue::new(), in_flight: 0, capacity, first_failure: None }
    }

    /// Queues `job` behind those already waiting.
    pub fn submit(&mut self, job: DownloadJob)
        ensures
            final(self).pending() == old(self).pending().push(job),
            final(self).in_flight() == old(self).in_flight(),
            final(self).capacity() == old(self).capacity(),
            final(self).first_failure() == old(self).first_failure(),
    {
        self.pending.push(job);
    }

    /// The next job to start, when one waits and the pool is below its
    /// capacity; otherwise `None`, and nothing changes.
    pub fn next_job(&mut self) -> (r: Option<DownloadJob>)
        requires
            old(self).wf(),
        ensures
            final(self).wf(),
            final(self).capacity() == old(self).capacity(),
            final(self).first_failure() == old(self).first_failure(),
            if old(self).pending().len() > 0 && old(self).in_flight() < old(self).capacity() {
                &&& r == Some(old(self).pending()[0])
                &&& final(self).pending() == old(self).pending().drop_first()
                &&& final(self).in_flight() == old(self).in_flight() + 1
            } else {
                &&& r is None
                &&& final(self).pending() == old(self).pending()
                &&& final(self).in_flight() == old(self).in_flight()
            },
    {
        if self.in_flight < self.capacity && !self.pending.is_empty() {
            let job = self.pending.pop();
            self.in_flight = self.in_flight + 1;
            job
        } else {
            None
        }
    }

    /// Reports that a started job has ended, with its error if it failed; the
    /// first error reported is kept.
    pub fn complete(&mut self, result: Result<(), String>)
        requires
            old(self).wf(),
            old(self).in_flight() > 0,
        ensures
            final(self).wf(),
            final(self).in_flight() == old(self).in_flight() - 1,
            final(self).pending() == old(self).pending(),
            final(self).capacity() == old(self).capacity(),
            final(self).first_failure() == match (old(self).first_failure(), result) {
                (None, Err(e)) => Some(e),
                (kept, _) => kept,
            },
    {
        self.in_flight = self.in_flight - 1;
        if self.first_failure.is_none() {
            match result {
                Err(e) => {
                    self.first_failure = Some(e);
                },
                Ok(()) => {},
            }
        }
    }

    /// The number of jobs started and not yet reported.
    pub fn running(&self) -> (r: usize)
        ensures
            r == self.in_flight(),
    {
        self.in_flight
    }

    /// Whether a job may start now.
    pub fn has_room(&self) -> (r: bool)
        ensures
            r == (self.in_flight() < self.capacity()),
    {
        self.in_flight < self.capacity
    }

    /// Whether every submitted job has started and ended.
    pub fn is_idle(&self) -> (r: bool)
        ensures
            r == (self.pending().len() == 0 && self.in_flight() == 0),
    {
        self.pending.is_empty() && self.in_flight == 0
    }

    /// Ends the pool: the first failure reported, or success.
    pub fn into_result(self) -> (r: Result<(), String>)
        ensures
            r == match self.first_failure() {
                Some(e) => Err::<(), String>(e),
                None => Ok(()),
            },
    {
        match self.first_failure {
            Some(e) => Err(e),
            None => Ok(()),
        }
    }
}

} // verus!
