//! Processes one decoded post event: eligibility filter, reply-context
//! enrichment against the cache, forwarding to the buffer, and the
//! classification of decode failures that are a normal skip rather than an
//! error.

use vstd::prelude::*;

use crate::context_cache::ThreadContextCache;
use crate::context_cache::entry_lookup;
use crate::context_cache::get_step;
use crate::context_cache::put_step;
use crate::ids::fresh_id;
use crate::post_buffer::AddError;
use crate::post_buffer::FlushBatch;
use crate::post_buffer::PostBuffer;
use crate::post_buffer::unchanged;
use crate::time::rfc3339_micros;

verus! {

/// `needle` occurs contiguously somewhere in `hay`.
pub open spec fn contains_sub(hay: Seq<char>, needle: Seq<char>) -> bool {
    exists|k: int|
        0 <= k && k + needle.len() <= hay.len() && #[trigger] hay.subrange(k, k + needle.len())
            == needle
}

/// Substring search, the classifier behind expected-absence decode errors.
pub fn contains_str(hay: &str, needle: &str) -> (r: bool)
    ensures
        r == contains_sub(hay@, needle@),
{
    let n: usize = hay.unicode_len();
    let m: usize = needle.unicode_len();
    if m > n {
        return false;
    }
    let mut k: usize = 0;
    while k <= n - m
        invariant
            m <= n,
            n == hay@.len(),
            m == needle@.len(),
            k <= n - m + 1,
            forall|k2: int|
                0 <= k2 < k ==> #[trigger] hay@.subrange(k2, k2 + needle@.len()) != needle@,
        decreases n - m + 1 - k,
    {
        let mut j: usize = 0;
        let mut matched: bool = true;
        loop
            invariant_except_break
                matched,
            invariant
                n == hay@.len(),
                m == needle@.len(),
                k + m <= n,
                j <= m,
                matched ==> forall|t: int| 0 <= t < j ==> hay@[k + t] == needle@[t],
            ensures
                matched ==> forall|t: int| 0 <= t < m ==> hay@[k + t] == needle@[t],
                !matched ==> exists|t: int| 0 <= t < m && hay@[k + t] != needle@[t],
            decreases m - j,
        {
            if j == m {
                break;
            }
            let hc = hay.get_char(k + j);
            let nc = needle.get_char(j);
            if hc != nc {
                matched = false;
                break;
            }
            j = j + 1;
        }
        if matched {
            proof {
                assert(hay@.subrange(k as int, k + needle@.len()) =~= needle@);
            }
            return true;
        }
        proof {
            let t = choose|t: int| 0 <= t < m && hay@[k + t] != needle@[t];
            assert(hay@.subrange(k as int, k + needle@.len())[t] == hay@[k + t]);
        }
        k = k + 1;
    }
    proof {
        assert forall|k0: int|
            0 <= k0 && k0 + needle@.len() <= hay@.len() implies #[trigger] hay@.subrange(
            k0,
            k0 + needle@.len(),
        ) != needle@ by {
            assert(hay@.subrange(k0, k0 + needle@.len()) != needle@);
        }
    }
    false
}

/// A decode failure whose message reports a structurally absent field is an
/// expected, silent skip: the message was not a post-creation commit.
pub fn is_expected_absence(message: &str) -> (r: bool)
    ensures
        r == contains_sub(message@, "missing field"@),
{
    contains_str(message, "missing field")
}

/// One decoded post-creation event, reduced to the plain fields the
/// processor reads.
pub struct RawEvent {
    /// The event's own content id.
    pub cid: String,
    /// RFC 3339 creation time.
    pub created_at: String,
    /// The post's own text.
    pub text: String,
    /// Content id of the root of the reply chain, if this is a reply.
    pub reply_root_cid: Option<String>,
    /// Language tags, in order.
    pub langs: Vec<String>,
}

/// The eligibility rule: the event carries the language tag `en`.
pub open spec fn is_english(langs: Seq<String>) -> bool {
    exists|i: int| 0 <= i < langs.len() && langs[i]@ == "en"@
}

fn contains_english(langs: &Vec<String>) -> (r: bool)
    ensures
        r == is_english(langs@),
{
    let en: String = "en".to_owned();
    let mut i: usize = 0;
    while i < langs.len()
        invariant
            i <= langs@.len(),
            en@ == "en"@,
            forall|j: int| 0 <= j < i ==> langs@[j]@ != "en"@,
        decreases langs@.len() - i,
    {
        if langs[i] == en {
            proof {
                assert(langs@[i as int]@ == "en"@);
            }
            return true;
        }
        i = i + 1;
    }
    false
}

/// The reply-root key the processor looks up: present and non-empty.
pub open spec fn root_key(event: RawEvent) -> Option<Seq<char>> {
    match event.reply_root_cid {
        Some(rc) => if rc@.len() > 0 {
            Some(rc@)
        } else {
            None
        },
        None => None,
    }
}

/// The cached text of the event's reply root at processing time.
pub open spec fn parent_of(entries: Seq<(Seq<char>, Seq<char>)>, event: RawEvent) -> Option<
    Seq<char>,
> {
    match root_key(event) {
        Some(k) => entry_lookup(entries, k),
        None => None,
    }
}

/// The record's text: the event's own text, followed by a single space and
/// the cached text of its reply root when that is present.
pub open spec fn enriched_text(own: Seq<char>, parent: Option<Seq<char>>) -> Seq<char> {
    match parent {
        Some(p) => own + " "@ + p,
        None => own,
    }
}

/// The cache after one eligible event: the reply-root lookup refreshes that
/// entry's recency, then the event's own id and unmodified text are stored.
pub open spec fn cache_after_event(
    entries: Seq<(Seq<char>, Seq<char>)>,
    cap: nat,
    event: RawEvent,
) -> Seq<(Seq<char>, Seq<char>)> {
    let mid = match root_key(event) {
        Some(k) => get_step(entries, k),
        None => entries,
    };
    put_step(mid, cap, event.cid@, event.text@)
}

/// Exactly one record with a fresh 36-character id, the given timestamp and
/// the given text was appended; everything else was retained.
pub open spec fn appended_fresh(pre: PostBuffer, post: PostBuffer, t: i64, full: Seq<char>) -> bool {
    &&& post.ids_view().len() == pre.ids_view().len() + 1
    &&& post.ids_view().drop_last() == pre.ids_view()
    &&& post.ids_view().last()@.len() == 36
    &&& post.timestamps_view() == pre.timestamps_view().push(t)
    &&& post.texts_view().len() == pre.texts_view().len() + 1
    &&& post.texts_view().drop_last() == pre.texts_view()
    &&& post.texts_view().last()@ == full
}

/// The batch is the buffer's contents with one fresh record appended last.
pub open spec fn fresh_batch_of(pre: PostBuffer, b: FlushBatch, t: i64, full: Seq<char>) -> bool {
    &&& b.wf()
    &&& b.len() == pre.threshold()
    &&& b.ids@.len() == pre.ids_view().len() + 1
    &&& b.ids@.drop_last() == pre.ids_view()
    &&& b.ids@.last()@.len() == 36
    &&& b.timestamps@ == pre.timestamps_view().push(t)
    &&& b.texts@.len() == pre.texts_view().len() + 1
    &&& b.texts@.drop_last() == pre.texts_view()
    &&& b.texts@.last()@ == full
}

/// What processing one eligible event did to the buffer.
pub enum PostOutcome {
    /// The event was not an eligible post; nothing was recorded.
    Skipped,
    /// One record was appended and the buffer stayed below its threshold.
    Accepted,
    /// One record was appended, reaching the threshold: the buffer handed
    /// out this batch and reset itself to empty.
    Flushed(FlushBatch),
}

/// Decodes one event's worth of plain fields into at most one enriched
/// record, against the shared context cache and buffer.
pub struct PostHandler {
    post_map: ThreadContextCache,
    post_buffer: PostBuffer,
}

impl PostHandler {
    pub closed spec fn cache(self) -> ThreadContextCache {
        self.post_map
    }

    pub closed spec fn buffer(self) -> PostBuffer {
        self.post_buffer
    }

    pub open spec fn wf(self) -> bool {
        self.cache().wf() && self.buffer().wf()
    }

    pub fn new(post_map: ThreadContextCache, post_buffer: PostBuffer) -> (r: Self)
        ensures
            r.cache() == post_map,
            r.buffer() == post_buffer,
    {
        PostHandler { post_map, post_buffer }
    }

    /// Processes one decoded event. An event without the `en` tag is
    /// skipped and leaves no trace. An eligible event is enriched with the
    /// cached text of its reply root, forwarded to the buffer under a fresh
    /// id, and afterwards its own id and unmodified text are cached — so a
    /// post's text becomes context for its children, never for itself.
    /// Exactly one record is forwarded per eligible event with a valid
    /// timestamp; zero for every other event.
    pub fn handle_post(&mut self, event: RawEvent) -> (r: Result<PostOutcome, AddError>)
        requires
            old(self).wf(),
        ensures
            final(self).wf(),
            final(self).buffer().threshold() == old(self).buffer().threshold(),
            final(self).cache().bound() == old(self).cache().bound(),
            !is_english(event.langs@) ==> {
                &&& r == Ok::<PostOutcome, AddError>(PostOutcome::Skipped)
                &&& final(self).cache().entries() == old(self).cache().entries()
                &&& unchanged(old(self).buffer(), final(self).buffer())
            },
            is_english(event.langs@) ==> {
                &&& final(self).cache().entries() == cache_after_event(
                    old(self).cache().entries(),
                    old(self).cache().bound(),
                    event,
                )
                &&& ({
                    let full = enriched_text(
                        event.text@,
                        parent_of(old(self).cache().entries(), event),
                    );
                    match rfc3339_micros(event.created_at@) {
                        None => r == Err::<PostOutcome, AddError>(AddError::InvalidTimestamp)
                            && unchanged(old(self).buffer(), final(self).buffer()),
                        Some(t) => match r {
                            Ok(PostOutcome::Accepted) => appended_fresh(
                                old(self).buffer(),
                                final(self).buffer(),
                                t,
                                full,
                            ) && old(self).buffer().len() + 1 < old(self).buffer().threshold(),
                            Ok(PostOutcome::Flushed(b)) => fresh_batch_of(
                                old(self).buffer(),
                                b,
                                t,
                                full,
                            ) && final(self).buffer().len() == 0 && old(self).buffer().len() + 1
                                == old(self).buffer().threshold(),
                            _ => false,
                        },
                    }
                })
            },
    {
        if !contains_english(&event.langs) {
            return Ok(PostOutcome::Skipped);
        }
        let new_id = fresh_id();
        let mut full_text = event.text.clone();
        let parent: Option<String> = match &event.reply_root_cid {
            Some(rc) => {
                if !rc.as_str().is_empty() {
                    self.post_map.get(rc)
                } else {
                    None
                }
            },
            None => None,
        };
        match &parent {
            Some(p) => {
                full_text.append(" ");
                full_text.append(p.as_str());
            },
            None => {},
        }
        let ghost gid = new_id;
        let ghost gfull = full_text;
        proof {
            let pre = self.post_buffer;
            assert(full_text@ == enriched_text(
                event.text@,
                parent_of(old(self).cache().entries(), event),
            ));
            assert(pre.ids_view().push(gid).drop_last() =~= pre.ids_view());
            assert(pre.texts_view().push(gfull).drop_last() =~= pre.texts_view());
        }
        let add_result = self.post_buffer.add(new_id, event.created_at.as_str(), full_text);
        self.post_map.put(event.cid, event.text);
        match add_result {
            Ok(None) => Ok(PostOutcome::Accepted),
            Ok(Some(b)) => Ok(PostOutcome::Flushed(b)),
            Err(e) => Err(e),
        }
    }
}

} // verus!
