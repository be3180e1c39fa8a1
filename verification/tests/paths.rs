use firehose_ingest::decimal::format_i32;
use firehose_ingest::decimal::format_u64;
use firehose_ingest::flush_plan::file_path;
use firehose_ingest::flush_plan::partition_dir_path;
use firehose_ingest::flush_plan::plan_flush;
use firehose_ingest::post_buffer::FlushBatch;
use firehose_ingest::time::UtcStamp;

#[test]
fn decimal_rendering_exact() {
    assert_eq!(format_u64(0), "0");
    assert_eq!(format_u64(7), "7");
    assert_eq!(format_u64(10), "10");
    assert_eq!(format_u64(12345), "12345");
    assert_eq!(format_u64(u64::MAX), "18446744073709551615");
    assert_eq!(format_i32(2025), "2025");
    assert_eq!(format_i32(-42), "-42");
    assert_eq!(format_i32(i32::MIN), "-2147483648");
}

#[test]
fn partition_path_exact() {
    let stamp = UtcStamp { year: 2025, month: 10, day: 20, hour: 5 };
    assert_eq!(
        partition_dir_path("/data/posts", &stamp),
        "/data/posts/year/2025/month/10/day/20/hour/5/"
    );
}

#[test]
fn file_path_exact() {
    assert_eq!(
        file_path("/data/posts/year/2025/month/1/day/2/hour/3/", "tok"),
        "/data/posts/year/2025/month/1/day/2/hour/3/data_tok.parquet"
    );
}

#[test]
fn empty_batch_plans_nothing() {
    let batch = FlushBatch { ids: vec![], timestamps: vec![], texts: vec![] };
    assert!(plan_flush(&batch, "/p", "/e").is_none());
}

#[test]
fn plan_keeps_rows_in_lockstep() {
    let batch = FlushBatch {
        ids: vec!["x".to_string(), "y".to_string()],
        timestamps: vec![1000, 2000],
        texts: vec!["a".to_string(), "b".to_string()],
    };
    let plan = plan_flush(&batch, "/data/posts", "/data/embeddings").unwrap();
    assert_eq!(plan.posts_ids, batch.ids);
    assert_eq!(plan.posts_timestamps, batch.timestamps);
    assert_eq!(plan.posts_texts, batch.texts);
    assert_eq!(plan.embeddings_ids, batch.ids);
    assert_eq!(plan.embeddings_timestamps, batch.timestamps);
}

#[test]
fn plan_names_fresh_distinct_files_in_partitions() {
    let batch = FlushBatch {
        ids: vec!["x".to_string()],
        timestamps: vec![1000],
        texts: vec!["a".to_string()],
    };
    let plan = plan_flush(&batch, "/data/posts", "/data/embeddings").unwrap();
    assert!(1 <= plan.stamp.month && plan.stamp.month <= 12);
    assert!(1 <= plan.stamp.day && plan.stamp.day <= 31);
    assert!(plan.stamp.hour <= 23);
    assert_eq!(plan.posts_dir, partition_dir_path("/data/posts", &plan.stamp));
    assert_eq!(
        plan.embeddings_dir,
        partition_dir_path("/data/embeddings", &plan.stamp)
    );
    assert_eq!(plan.posts_token.len(), 36);
    assert_eq!(plan.embeddings_token.len(), 36);
    assert_ne!(plan.posts_token, plan.embeddings_token);
    assert_eq!(
        plan.posts_file,
        format!("{}data_{}.parquet", plan.posts_dir, plan.posts_token)
    );
    assert_eq!(
        plan.embeddings_file,
        format!("{}data_{}.parquet", plan.embeddings_dir, plan.embeddings_token)
    );
    assert_ne!(plan.posts_file, plan.embeddings_file);
    // Two plans of the same batch land in distinct files as well.
    let plan2 = plan_flush(&batch, "/data/posts", "/data/embeddings").unwrap();
    assert_ne!(plan.posts_file, plan2.posts_file);
    assert_ne!(plan.embeddings_file, plan2.embeddings_file);
}
