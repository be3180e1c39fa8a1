//! Bounded accumulation buffer for enriched records and the immutable
//! batches it hands out when the flush threshold is reached.

use vstd::prelude::*;
use vstd::arithmetic::div_mod::lemma_fundamental_div_mod;
use vstd::arithmetic::div_mod::lemma_fundamental_div_mod_converse;

use crate::time::rfc3339_micros;
use crate::time::parse_rfc3339_micros;

verus! {

/// Failure when adding a record to the buffer.
#[derive(Debug, PartialEq, Eq, Structural)]
pub enum AddError {
    /// The record's creation timestamp was not a valid RFC 3339 string.
    InvalidTimestamp,
}

/// An immutable snapshot of the buffer's three parallel columns, taken at
/// the moment the flush threshold is reached.
pub struct FlushBatch {
    pub ids: Vec<String>,
    pub timestamps: Vec<i64>,
    pub texts: Vec<String>,
}

impl FlushBatch {
    /// The three columns always have identical length: index `i` across
    /// them describes one record.
    pub open spec fn wf(self) -> bool {
        self.ids@.len() == self.timestamps@.len() && self.ids@.len() == self.texts@.len()
    }

    pub open spec fn len(self) -> nat {
        self.ids@.len()
    }
}

/// Accumulates records as three parallel columns and reports when the
/// configured maximum length is reached.
pub struct PostBuffer {
    ids: Vec<String>,
    timestamps: Vec<i64>,
    texts: Vec<String>,
    max_size: usize,
}

impl PostBuffer {
    /// Columns stay in lockstep and strictly below the flush threshold,
    /// which is at least one.
    pub open spec fn wf(self) -> bool {
        &&& self.ids_view().len() == self.timestamps_view().len()
        &&& self.ids_view().len() == self.texts_view().len()
        &&& self.len() < self.threshold()
        &&& self.threshold() >= 1
    }

    pub closed spec fn ids_view(self) -> Seq<String> {
        self.ids@
    }

    pub closed spec fn timestamps_view(self) -> Seq<i64> {
        self.timestamps@
    }

    pub closed spec fn texts_view(self) -> Seq<String> {
        self.texts@
    }

    pub open spec fn len(self) -> nat {
        self.ids_view().len()
    }

    pub closed spec fn threshold(self) -> nat {
        self.max_size as nat
    }

    pub fn new(max_size: usize) -> (r: Self)
        requires
            max_size >= 1,
        ensures
            r.wf(),
            r.len() == 0,
            r.threshold() == max_size,
    {
        PostBuffer {
            ids: Vec::new(),
            timestamps: Vec::new(),
            texts: Vec::new(),
            max_size,
        }
    }

    /// Appends one record. When the appended record makes the buffer reach
    /// its threshold, the whole contents are handed out as a batch and the
    /// buffer resets to empty; otherwise the record is retained. A creation
    /// timestamp that is not RFC 3339 is rejected and nothing changes.
    pub fn add(&mut self, id: String, created_at: &str, text: String) -> (r: Result<
        Option<FlushBatch>,
        AddError,
    >)
        requires
            old(self).wf(),
        ensures
            final(self).wf(),
            final(self).threshold() == old(self).threshold(),
            match r {
                Err(e) => {
                    &&& e == AddError::InvalidTimestamp
                    &&& rfc3339_micros(created_at@) is None
                    &&& unchanged(*old(self), *final(self))
                },
                Ok(None) => {
                    &&& rfc3339_micros(created_at@) matches Some(t) && appended(
                        *old(self),
                        *final(self),
                        id,
                        t,
                        text,
                    )
                    &&& old(self).len() + 1 < old(self).threshold()
                },
                Ok(Some(b)) => {
                    &&& rfc3339_micros(created_at@) matches Some(t) && batch_of(
                        *old(self),
                        b,
                        id,
                        t,
                        text,
                    )
                    &&& old(self).len() + 1 == old(self).threshold()
                    &&& final(self).len() == 0
                },
            },
    {
        let t: i64 = match parse_rfc3339_micros(created_at) {
            Some(t) => t,
            None => {
                return Err(AddError::InvalidTimestamp);
            },
        };
        self.ids.push(id);
        self.timestamps.push(t);
        self.texts.push(text);
        if self.timestamps.len() >= self.max_size {
            let mut ids: Vec<String> = Vec::new();
            let mut timestamps: Vec<i64> = Vec::new();
            let mut texts: Vec<String> = Vec::new();
            core::mem::swap(&mut self.ids, &mut ids);
            core::mem::swap(&mut self.timestamps, &mut timestamps);
            core::mem::swap(&mut self.texts, &mut texts);
            Ok(Some(FlushBatch { ids, timestamps, texts }))
        } else {
            Ok(None)
        }
    }
}

/// Nothing about the buffer's contents changed.
pub open spec fn unchanged(pre: PostBuffer, post: PostBuffer) -> bool {
    &&& post.ids_view() == pre.ids_view()
    &&& post.timestamps_view() == pre.timestamps_view()
    &&& post.texts_view() == pre.texts_view()
}

/// Exactly the given record was appended and everything else was retained.
pub open spec fn appended(
    pre: PostBuffer,
    post: PostBuffer,
    id: String,
    t: i64,
    text: String,
) -> bool {
    &&& post.ids_view() == pre.ids_view().push(id)
    &&& post.timestamps_view() == pre.timestamps_view().push(t)
    &&& post.texts_view() == pre.texts_view().push(text)
}

/// The batch is the buffer's contents with the given record appended last.
pub open spec fn batch_of(pre: PostBuffer, b: FlushBatch, id: String, t: i64, text: String) -> bool {
    &&& b.ids@ == pre.ids_view().push(id)
    &&& b.timestamps@ == pre.timestamps_view().push(t)
    &&& b.texts@ == pre.texts_view().push(text)
    &&& b.wf()
    &&& b.len() == pre.threshold()
}

/// The buffer length after `n` successful adds into an initially empty
/// buffer, following `add`'s contract: the length grows by one, except
/// that reaching the threshold resets it to zero.
pub open spec fn len_after_adds(n: nat, threshold: nat) -> nat
    decreases n,
{
    if n == 0 {
        0
    } else if len_after_adds((n - 1) as nat, threshold) + 1 == threshold {
        0
    } else {
        len_after_adds((n - 1) as nat, threshold) + 1
    }
}

/// The number of batches handed out across `n` successful adds into an
/// initially empty buffer, following `add`'s contract: one batch exactly
/// when an add reaches the threshold.
pub open spec fn flushes_after_adds(n: nat, threshold: nat) -> nat
    decreases n,
{
    if n == 0 {
        0
    } else if len_after_adds((n - 1) as nat, threshold) + 1 == threshold {
        flushes_after_adds((n - 1) as nat, threshold) + 1
    } else {
        flushes_after_adds((n - 1) as nat, threshold)
    }
}

/// Law: any sequence of `n` successful adds into an initially empty buffer
/// hands out exactly `n / threshold` batches — each carrying exactly
/// `threshold` records, by `add`'s contract — and retains the remaining
/// `n % threshold` records.
pub proof fn lemma_flush_count(n: nat, threshold: nat)
    requires
        threshold >= 1,
    ensures
        len_after_adds(n, threshold) == n % threshold,
        flushes_after_adds(n, threshold) == n / threshold,
    decreases n,
{
    if n == 0 {
        lemma_fundamental_div_mod_converse(0, threshold as int, 0, 0);
    } else {
        lemma_flush_count((n - 1) as nat, threshold);
        let q = ((n - 1) as nat / threshold) as int;
        let r = ((n - 1) as nat % threshold) as int;
        lemma_fundamental_div_mod((n - 1) as int, threshold as int);
        assert((n - 1) as int == threshold as int * q + r);
        if r + 1 == threshold {
            assert(n as int == (q + 1) * threshold as int + 0) by (nonlinear_arith)
                requires
                    (n - 1) as int == threshold as int * q + r,
                    r + 1 == threshold as int,
            ;
            lemma_fundamental_div_mod_converse(n as int, threshold as int, q + 1, 0);
        } else {
            assert(n as int == q * threshold as int + (r + 1)) by (nonlinear_arith)
                requires
                    (n - 1) as int == threshold as int * q + r,
            ;
            lemma_fundamental_div_mod_converse(n as int, threshold as int, q, r + 1);
        }
    }
}

} // verus!
