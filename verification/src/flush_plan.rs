//! Turns one flush batch into the plan of the two datasets that persist
//! it: identical row order across both, partition directories named by the
//! UTC wall clock at flush start, and fresh unique file names.

use vstd::prelude::*;

use crate::decimal::dec_rep;
use crate::decimal::format_i32;
use crate::decimal::format_u64;
use crate::decimal::signed_dec_rep;
use crate::ids::fresh_id;
use crate::post_buffer::FlushBatch;
use crate::time::UtcStamp;
use crate::time::now_utc_stamp;

verus! {

/// The partition directory for one wall-clock reading under a base path.
pub open spec fn partition_dir(base: Seq<char>, s: UtcStamp) -> Seq<char> {
    base + "/year/"@ + signed_dec_rep(s.year as int) + "/month/"@ + dec_rep(s.month as nat)
        + "/day/"@ + dec_rep(s.day as nat) + "/hour/"@ + dec_rep(s.hour as nat) + "/"@
}

/// The full path of one flush's file inside its partition directory.
pub open spec fn file_in_dir(dir: Seq<char>, token: Seq<char>) -> Seq<char> {
    dir + "data_"@ + token + ".parquet"@
}

/// Builds the partition directory path, exactly as `partition_dir` says.
pub fn partition_dir_path(base: &str, stamp: &UtcStamp) -> (s: String)
    ensures
        s@ == partition_dir(base@, *stamp),
{
    let mut s: String = base.to_owned();
    s.append("/year/");
    let y = format_i32(stamp.year);
    s.append(y.as_str());
    s.append("/month/");
    let mo = format_u64(stamp.month as u64);
    s.append(mo.as_str());
    s.append("/day/");
    let d = format_u64(stamp.day as u64);
    s.append(d.as_str());
    s.append("/hour/");
    let h = format_u64(stamp.hour as u64);
    s.append(h.as_str());
    s.append("/");
    s
}

/// Builds the file path for one token, exactly as `file_in_dir` says.
pub fn file_path(dir: &str, token: &str) -> (s: String)
    ensures
        s@ == file_in_dir(dir@, token@),
{
    let mut s: String = dir.to_owned();
    s.append("data_");
    s.append(token);
    s.append(".parquet");
    s
}

fn clone_strings(v: &Vec<String>) -> (r: Vec<String>)
    ensures
        r@ == v@,
{
    let mut r: Vec<String> = Vec::new();
    let mut i: usize = 0;
    while i < v.len()
        invariant
            i <= v@.len(),
            r@ =~= v@.take(i as int),
        decreases v@.len() - i,
    {
        r.push(v[i].clone());
        proof {
            assert(v@.take(i + 1) =~= v@.take(i as int).push(v@[i as int]));
        }
        i = i + 1;
    }
    proof {
        assert(v@.take(v@.len() as int) =~= v@);
    }
    r
}

fn clone_i64s(v: &Vec<i64>) -> (r: Vec<i64>)
    ensures
        r@ == v@,
{
    let mut r: Vec<i64> = Vec::new();
    let mut i: usize = 0;
    while i < v.len()
        invariant
            i <= v@.len(),
            r@ =~= v@.take(i as int),
        decreases v@.len() - i,
    {
        r.push(v[i]);
        proof {
            assert(v@.take(i + 1) =~= v@.take(i as int).push(v@[i as int]));
        }
        i = i + 1;
    }
    proof {
        assert(v@.take(v@.len() as int) =~= v@);
    }
    r
}

/// Everything one flush writes: the posts dataset's three columns, the id
/// and timestamp columns of the embeddings dataset (its vectors come from
/// the embedding provider, row-aligned with these), and the partition
/// paths and unique file names of both datasets.
pub struct FlushPlan {
    pub posts_ids: Vec<String>,
    pub posts_timestamps: Vec<i64>,
    pub posts_texts: Vec<String>,
    pub embeddings_ids: Vec<String>,
    pub embeddings_timestamps: Vec<i64>,
    pub stamp: UtcStamp,
    pub posts_dir: String,
    pub embeddings_dir: String,
    pub posts_token: String,
    pub embeddings_token: String,
    pub posts_file: String,
    pub embeddings_file: String,
}

/// The plan persists exactly the batch's rows, in the batch's order, in
/// both datasets, under partition paths for one wall-clock reading and
/// under fresh 36-character file tokens.
pub open spec fn plan_matches(
    b: FlushBatch,
    p: FlushPlan,
    posts_base: Seq<char>,
    embeddings_base: Seq<char>,
) -> bool {
    &&& p.posts_ids@ == b.ids@
    &&& p.posts_timestamps@ == b.timestamps@
    &&& p.posts_texts@ == b.texts@
    &&& p.embeddings_ids@ == b.ids@
    &&& p.embeddings_timestamps@ == b.timestamps@
    &&& p.stamp.wf()
    &&& p.posts_dir@ == partition_dir(posts_base, p.stamp)
    &&& p.embeddings_dir@ == partition_dir(embeddings_base, p.stamp)
    &&& p.posts_token@.len() == 36
    &&& p.embeddings_token@.len() == 36
    &&& p.posts_file@ == file_in_dir(p.posts_dir@, p.posts_token@)
    &&& p.embeddings_file@ == file_in_dir(p.embeddings_dir@, p.embeddings_token@)
}

/// Plans the persistence of one batch. An empty batch is not written at
/// all; a non-empty batch yields a plan that carries the batch's rows
/// unchanged into both datasets.
pub fn plan_flush(batch: &FlushBatch, posts_base: &str, embeddings_base: &str) -> (r: Option<
    FlushPlan,
>)
    requires
        batch.wf(),
    ensures
        match r {
            None => batch.len() == 0,
            Some(p) => batch.len() > 0 && plan_matches(*batch, p, posts_base@, embeddings_base@),
        },
{
    if batch.timestamps.len() == 0 {
        return None;
    }
    let stamp = now_utc_stamp();
    let posts_dir = partition_dir_path(posts_base, &stamp);
    let embeddings_dir = partition_dir_path(embeddings_base, &stamp);
    let posts_token = fresh_id();
    let embeddings_token = fresh_id();
    let posts_file = file_path(posts_dir.as_str(), posts_token.as_str());
    let embeddings_file = file_path(embeddings_dir.as_str(), embeddings_token.as_str());
    Some(
        FlushPlan {
            posts_ids: clone_strings(&batch.ids),
            posts_timestamps: clone_i64s(&batch.timestamps),
            posts_texts: clone_strings(&batch.texts),
            embeddings_ids: clone_strings(&batch.ids),
            embeddings_timestamps: clone_i64s(&batch.timestamps),
            stamp,
            posts_dir,
            embeddings_dir,
            posts_token,
            embeddings_token,
            posts_file,
            embeddings_file,
        },
    )
}

/// Law: the posts dataset and the embeddings dataset planned from one
/// batch contain the same ids in the same row order, and each contains
/// exactly the batch's own rows.
pub proof fn lemma_flush_datasets_correlated(
    b: FlushBatch,
    p: FlushPlan,
    posts_base: Seq<char>,
    embeddings_base: Seq<char>,
)
    requires
        plan_matches(b, p, posts_base, embeddings_base),
    ensures
        p.posts_ids@ == p.embeddings_ids@,
        p.posts_timestamps@ == p.embeddings_timestamps@,
        p.posts_ids@ == b.ids@,
        p.posts_texts@ == b.texts@,
{
}

/// Law: two flushes whose file tokens differ never write to the same
/// output file, whatever partition directories they land in.
pub proof fn lemma_distinct_tokens_distinct_files(
    dir_a: Seq<char>,
    tok_a: Seq<char>,
    dir_b: Seq<char>,
    tok_b: Seq<char>,
)
    requires
        tok_a.len() == tok_b.len(),
        tok_a != tok_b,
    ensures
        file_in_dir(dir_a, tok_a) != file_in_dir(dir_b, tok_b),
{
    reveal_strlit("data_");
    reveal_strlit(".parquet");
    let fa = file_in_dir(dir_a, tok_a);
    let fb = file_in_dir(dir_b, tok_b);
    if fa == fb {
        assert(fa.len() == dir_a.len() + 5 + tok_a.len() + 8);
        assert(fb.len() == dir_b.len() + 5 + tok_b.len() + 8);
        assert(dir_a.len() == dir_b.len());
        assert forall|i: int| 0 <= i < tok_a.len() implies tok_a[i] == tok_b[i] by {
            assert(fa[dir_a.len() + 5 + i] == tok_a[i]);
            assert(fb[dir_b.len() + 5 + i] == tok_b[i]);
        }
        assert(tok_a =~= tok_b);
    }
}

} // verus!
