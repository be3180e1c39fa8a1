use firehose_ingest::context_cache::ThreadContextCache;
use firehose_ingest::post_buffer::AddError;
use firehose_ingest::post_buffer::PostBuffer;
use firehose_ingest::post_handler::PostHandler;
use firehose_ingest::post_handler::PostOutcome;
use firehose_ingest::post_handler::RawEvent;
use firehose_ingest::post_handler::contains_str;
use firehose_ingest::post_handler::is_expected_absence;

fn event(
    cid: &str,
    text: &str,
    root: Option<&str>,
    langs: &[&str],
) -> RawEvent {
    RawEvent {
        cid: cid.to_string(),
        created_at: "2021-01-01T00:00:00Z".to_string(),
        text: text.to_string(),
        reply_root_cid: root.map(|r| r.to_string()),
        langs: langs.iter().map(|l| l.to_string()).collect(),
    }
}

#[test]
fn reply_is_enriched_with_cached_root_text() {
    let mut handler = PostHandler::new(ThreadContextCache::new(8), PostBuffer::new(2));
    let first = handler.handle_post(event("a", "hello", None, &["en"]));
    assert!(matches!(first, Ok(PostOutcome::Accepted)));
    let second = handler.handle_post(event("b", "world", Some("a"), &["en"]));
    let batch = match second {
        Ok(PostOutcome::Flushed(batch)) => batch,
        _ => panic!("second post must flush at threshold two"),
    };
    assert_eq!(batch.texts, vec!["hello".to_string(), "world hello".to_string()]);
    // Record ids are freshly generated, not the events' content ids.
    assert_eq!(batch.ids[0].len(), 36);
    assert_eq!(batch.ids[1].len(), 36);
    assert_ne!(batch.ids[0], batch.ids[1]);
}

#[test]
fn event_without_english_tag_is_skipped_and_not_cached() {
    let mut handler = PostHandler::new(ThreadContextCache::new(8), PostBuffer::new(2));
    let skipped = handler.handle_post(event("a", "ola", None, &["pt"]));
    assert!(matches!(skipped, Ok(PostOutcome::Skipped)));
    let empty_langs = handler.handle_post(event("b", "hi", None, &[]));
    assert!(matches!(empty_langs, Ok(PostOutcome::Skipped)));
    // The skipped post cached nothing: a reply to it is not enriched.
    let first = handler.handle_post(event("c", "one", Some("a"), &["en"]));
    assert!(matches!(first, Ok(PostOutcome::Accepted)));
    let second = handler.handle_post(event("d", "two", Some("a"), &["en"]));
    let batch = match second {
        Ok(PostOutcome::Flushed(batch)) => batch,
        _ => panic!("second eligible post must flush"),
    };
    assert_eq!(batch.texts, vec!["one".to_string(), "two".to_string()]);
}

#[test]
fn english_among_several_tags_is_eligible() {
    let mut handler = PostHandler::new(ThreadContextCache::new(8), PostBuffer::new(4));
    let outcome = handler.handle_post(event("a", "hi", None, &["pt", "en", "ja"]));
    assert!(matches!(outcome, Ok(PostOutcome::Accepted)));
}

#[test]
fn post_never_sees_its_own_text_as_context() {
    let mut handler = PostHandler::new(ThreadContextCache::new(8), PostBuffer::new(2));
    // The event replies to its own content id: the cache write happens
    // only after the lookup, so no enrichment occurs.
    let first = handler.handle_post(event("a", "solo", Some("a"), &["en"]));
    assert!(matches!(first, Ok(PostOutcome::Accepted)));
    let second = handler.handle_post(event("b", "next", None, &["en"]));
    let batch = match second {
        Ok(PostOutcome::Flushed(batch)) => batch,
        _ => panic!("second post must flush"),
    };
    assert_eq!(batch.texts, vec!["solo".to_string(), "next".to_string()]);
}

#[test]
fn empty_reply_root_means_no_lookup() {
    let mut handler = PostHandler::new(ThreadContextCache::new(8), PostBuffer::new(2));
    let first = handler.handle_post(event("", "cached under empty", None, &["en"]));
    assert!(matches!(first, Ok(PostOutcome::Accepted)));
    let second = handler.handle_post(event("b", "reply", Some(""), &["en"]));
    let batch = match second {
        Ok(PostOutcome::Flushed(batch)) => batch,
        _ => panic!("second post must flush"),
    };
    assert_eq!(batch.texts[1], "reply".to_string());
}

#[test]
fn invalid_timestamp_is_surfaced_but_text_still_cached() {
    let mut handler = PostHandler::new(ThreadContextCache::new(8), PostBuffer::new(2));
    let mut bad = event("a", "hello", None, &["en"]);
    bad.created_at = "yesterday".to_string();
    let outcome = handler.handle_post(bad);
    assert!(matches!(outcome, Err(AddError::InvalidTimestamp)));
    // The failed event's own text was cached after the lookup step, so a
    // reply to it is still enriched.
    let first = handler.handle_post(event("b", "world", Some("a"), &["en"]));
    assert!(matches!(first, Ok(PostOutcome::Accepted)));
    let second = handler.handle_post(event("c", "done", None, &["en"]));
    let batch = match second {
        Ok(PostOutcome::Flushed(batch)) => batch,
        _ => panic!("second good post must flush"),
    };
    assert_eq!(batch.texts[0], "world hello".to_string());
}

#[test]
fn reply_chain_context_accumulates_one_level() {
    let mut handler = PostHandler::new(ThreadContextCache::new(8), PostBuffer::new(10));
    handler.handle_post(event("a", "root", None, &["en"])).unwrap();
    handler.handle_post(event("b", "child", Some("a"), &["en"])).unwrap();
    // The grandchild names b as its root: it gets b's own unmodified text,
    // not b's enriched text.
    handler.handle_post(event("c", "leaf", Some("b"), &["en"])).unwrap();
    // Fill the buffer up to the threshold to observe the texts.
    let mut texts = Vec::new();
    for i in 0..7 {
        let outcome = handler
            .handle_post(event(&format!("f{}", i), "pad", None, &["en"]))
            .unwrap();
        if let PostOutcome::Flushed(batch) = outcome {
            texts = batch.texts;
        }
    }
    assert_eq!(texts[0], "root".to_string());
    assert_eq!(texts[1], "child root".to_string());
    assert_eq!(texts[2], "leaf child".to_string());
}

#[test]
fn missing_field_errors_are_expected_absence() {
    assert!(is_expected_absence("missing field `commit` at line 1 column 10"));
    assert!(!is_expected_absence("expected value at line 1 column 1"));
    assert!(!is_expected_absence(""));
}

#[test]
fn substring_search_edges() {
    assert!(contains_str("abc", ""));
    assert!(contains_str("", ""));
    assert!(!contains_str("", "a"));
    assert!(contains_str("aab", "ab"));
    assert!(contains_str("missing field", "missing field"));
    assert!(!contains_str("missing fiel", "missing field"));
    assert!(contains_str("xmissing fieldy", "missing field"));
}
