use opencli::batch::{mark_done, new_progress, row_step, stats_record, BatchStats, RowStep};
use opencli::download::{plan_media_batch, MediaPlan};
use opencli::ext_messages::{add_pending, close_connection, take_pending};
use opencli::feedback::build_issue_url;
use opencli::json::{get_field, JsonNumber, JsonValue};

fn text(s: &str) -> JsonValue {
    JsonValue::String(s.to_string())
}

fn obj(fields: Vec<(&str, JsonValue)>) -> JsonValue {
    JsonValue::Object(fields.into_iter().map(|(k, v)| (k.to_string(), v)).collect())
}

#[test]
fn batch_rows_are_skipped_fetched_or_passed_over() {
    let progress = new_progress();
    let row = obj(vec![("uid", JsonValue::Number(JsonNumber::PosInt(42))), ("name", text(" Ann / B "))]);
    assert!(matches!(row_step(&obj(vec![("name", text("x"))]), "uid", "name", "bili", true, &progress, true), RowStep::NoId));
    match row_step(&row, "uid", "name", "bili", true, &progress, true) {
        RowStep::Fetch { uid, name, key, folder } => {
            assert_eq!(uid, "42");
            assert_eq!(name, "Ann / B");
            assert_eq!(key, "bili:42");
            assert_eq!(folder, "42_Ann_B");
        }
        other => panic!("unexpected {:?}", other),
    }
    let done = mark_done(progress, "bili:42", "Ann / B", 3, "users/42_Ann_B/data.json");
    assert!(matches!(row_step(&row, "uid", "name", "bili", true, &done, true), RowStep::Skip { .. }));
    assert!(matches!(row_step(&row, "uid", "name", "bili", true, &done, false), RowStep::Fetch { .. }));
    assert!(matches!(row_step(&row, "uid", "name", "bili", false, &done, true), RowStep::Fetch { .. }));
    let stats = BatchStats { ok: 2, skip: 1, fail: 0, posts: 7 };
    let r = stats_record(3, stats);
    assert!(matches!(get_field(&r, "following"), Some(JsonValue::Number(JsonNumber::PosInt(3)))));
    assert!(matches!(get_field(&r, "posts"), Some(JsonValue::Number(JsonNumber::PosInt(7)))));
}

#[test]
fn media_items_keep_their_own_numbers() {
    let items = vec![
        obj(vec![("type", text("image")), ("url", text(""))]),
        obj(vec![("type", text("image")), ("url", text("https://a.com/1.jpg"))]),
        obj(vec![("type", text("gif")), ("url", text("https://a.com/2.gif"))]),
        obj(vec![("type", text("video-tweet")), ("url", text("https://x.com/s/3"))]),
        obj(vec![("type", text("video")), ("url", text("blob:https://x.com/4"))]),
    ];
    let plan = plan_media_batch(&items);
    let idx: Vec<usize> = plan.iter().map(|(i, _)| *i).collect();
    assert_eq!(idx, vec![2, 4, 5]);
    assert!(matches!(plan[0].1, MediaPlan::Direct { .. }));
    assert!(matches!(plan[1].1, MediaPlan::TweetVideo { .. }));
    assert!(matches!(plan[2].1, MediaPlan::Unsupported { .. }));
}

#[test]
fn closing_the_active_link_fails_every_waiting_command() {
    let mut pending = Vec::new();
    add_pending(&mut pending, "a".to_string());
    add_pending(&mut pending, "b".to_string());
    add_pending(&mut pending, "c".to_string());
    assert!(take_pending(&mut pending, "b"));
    assert!(!take_pending(&mut pending, "zz"));
    assert_eq!(close_connection(5, 4, &mut pending), None);
    assert_eq!(pending.len(), 2);
    let failed = close_connection(5, 5, &mut pending).unwrap();
    assert_eq!(
        failed,
        vec![
            ("a".to_string(), "Extension disconnected".to_string()),
            ("c".to_string(), "Extension disconnected".to_string())
        ]
    );
    assert!(pending.is_empty());
}

#[test]
fn issue_links_percent_encode_utf8() {
    let u = build_issue_url("é !", "a-b_c.d~e/f");
    assert!(u.ends_with("?title=%C3%A9%20%21&body=a-b_c.d~e%2Ff"));
}
