use lancea::emoji::{contains_normalized, normalize_query, normalize_string, starts_with_normalized};
use lancea::emoji::EmojiProvider;
use lancea::provider::{Effect, Provider};

#[test]
fn can_create_provider() {
    let provider = EmojiProvider::new();
    assert_eq!(provider.id(), "emoji");
}

#[test]
fn search_returns_results_for_joy() {
    let provider = EmojiProvider::new();
    let results = provider.search("joy");

    assert!(!results.is_empty());
    assert_eq!(results[0].title, "Face with Tears of Joy");
    assert_eq!(results[0].provider_id, "emoji");
}

#[test]
fn search_handles_emoji_prefix() {
    let provider = EmojiProvider::new();
    let results = provider.search("/emoji joy");

    assert!(!results.is_empty());
    assert_eq!(results[0].title, "Face with Tears of Joy");
}

#[test]
fn search_handles_em_prefix() {
    let provider = EmojiProvider::new();
    let results = provider.search("/em smile");

    assert!(!results.is_empty());
    let smile_result = results.iter().find(|r| r.title.contains("Smiling"));
    assert!(smile_result.is_some());
}

#[test]
fn search_is_case_insensitive() {
    let provider = EmojiProvider::new();
    let results_lower = provider.search("smile");
    let results_upper = provider.search("SMILE");

    assert!(!results_lower.is_empty());
    assert!(!results_upper.is_empty());
    assert_eq!(results_lower.len(), results_upper.len());
}

#[test]
fn search_by_shortcode() {
    let provider = EmojiProvider::new();
    let results = provider.search("joy");

    assert!(!results.is_empty());
    // scores are in thousandths: 1000 is a score of 1.0
    assert_eq!(results[0].score, 1000);
}

#[test]
fn search_by_keyword() {
    let provider = EmojiProvider::new();
    let results = provider.search("laugh");

    assert!(!results.is_empty());
    let joy_result = results.iter().find(|r| r.title == "Face with Tears of Joy");
    assert!(joy_result.is_some());
}

#[test]
fn preview_returns_data_for_valid_key() {
    let provider = EmojiProvider::new();
    let preview = provider.preview("emoji:joy");

    assert!(preview.is_some());
    let preview = preview.unwrap();
    assert_eq!(preview.preview_kind, "card");
    assert!(preview.data.iter().any(|f| f.name == "glyph"));
    assert!(preview.data.iter().any(|f| f.name == "title"));
}

#[test]
fn preview_returns_none_for_invalid_key() {
    let provider = EmojiProvider::new();
    let preview = provider.preview("emoji:nonexistent");

    assert!(preview.is_none());
}

#[test]
fn execute_copy_glyph_succeeds_for_valid_key() {
    let provider = EmojiProvider::new();
    let result = provider.execute("copy_glyph", "emoji:joy");

    assert!(matches!(result, Effect::Done(true)));
}

#[test]
fn execute_copy_shortcode_succeeds_for_valid_key() {
    let provider = EmojiProvider::new();
    let result = provider.execute("copy_shortcode", "emoji:joy");

    assert!(matches!(result, Effect::Done(true)));
}

#[test]
fn execute_fails_for_invalid_action() {
    let provider = EmojiProvider::new();
    let result = provider.execute("invalid_action", "emoji:joy");

    assert!(matches!(result, Effect::Done(false)));
}

#[test]
fn execute_fails_for_invalid_key() {
    let provider = EmojiProvider::new();
    let result = provider.execute("copy_glyph", "emoji:nonexistent");

    assert!(matches!(result, Effect::Done(false)));
}

#[test]
fn search_results_are_sorted_by_score() {
    let provider = EmojiProvider::new();
    let results = provider.search("smile");

    assert!(results.len() > 1);
    for i in 1..results.len() {
        assert!(results[i - 1].score >= results[i].score);
    }
}

#[test]
fn empty_search_returns_low_score_results() {
    let provider = EmojiProvider::new();
    let results = provider.search("");

    assert!(!results.is_empty());
    // 100 thousandths is a score of 0.1
    for result in &results {
        assert_eq!(result.score, 100);
    }
}

#[test]
fn emoji_empty_query_lists_catalog_by_title() {
    let provider = EmojiProvider::new();
    let results = provider.search("   ");
    let titles: Vec<&str> = results.iter().map(|r| r.title.as_str()).collect();
    assert_eq!(
        titles,
        vec!["Beaming Face with Smiling Eyes", "Face with Tears of Joy", "Slightly Smiling Face"]
    );
}

#[test]
fn emoji_scores_by_match_kind() {
    let provider = EmojiProvider::new();
    // exact shortcode
    let r = provider.search("lol");
    assert_eq!(r.len(), 1);
    assert_eq!(r[0].key, "emoji:joy");
    assert_eq!(r[0].score, 1000);
    // keyword prefix
    let r = provider.search("tea");
    assert_eq!(r.len(), 1);
    assert_eq!(r[0].score, 800);
    // name infix only
    let r = provider.search("eyes");
    assert_eq!(r.len(), 1);
    assert_eq!(r[0].key, "emoji:grin");
    assert_eq!(r[0].score, 400);
    // no match
    assert!(provider.search("zzz").is_empty());
}

#[test]
fn emoji_ties_ordered_by_title() {
    let provider = EmojiProvider::new();
    let r = provider.search("happy");
    let keys: Vec<&str> = r.iter().map(|x| x.key.as_str()).collect();
    assert_eq!(keys, vec!["emoji:grin", "emoji:joy", "emoji:smile"]);
    assert!(r.iter().all(|x| x.score == 800));
}

#[test]
fn emoji_extras_carry_glyph_and_first_shortcode() {
    let provider = EmojiProvider::new();
    let r = provider.search("joy");
    let extras = r[0].extras.as_ref().unwrap();
    assert_eq!(extras.len(), 2);
    assert_eq!(extras[0].name, "glyph");
    assert!(matches!(&extras[0].value, lancea::model::FieldValue::Text(g) if g == "\u{1F602}"));
    assert_eq!(extras[1].name, "shortcodes");
    assert!(matches!(&extras[1].value, lancea::model::FieldValue::Text(s) if s == "joy"));
}

#[test]
fn emoji_preview_is_idempotent() {
    let provider = EmojiProvider::new();
    let a = provider.preview("emoji:grin").unwrap();
    let b = provider.preview("emoji:grin").unwrap();
    assert_eq!(a.preview_kind, b.preview_kind);
    assert_eq!(a.data.len(), 4);
    assert_eq!(a.data.len(), b.data.len());
    for (x, y) in a.data.iter().zip(b.data.iter()) {
        assert_eq!(x.name, y.name);
    }
    match (&a.data[3].value, &b.data[3].value) {
        (lancea::model::FieldValue::List(x), lancea::model::FieldValue::List(y)) => {
            assert_eq!(x, y);
            assert_eq!(x, &vec!["grin".to_string(), "smile".into(), "happy".into(), "teeth".into()]);
        }
        _ => panic!("keywords should be a list"),
    }
}

#[test]
fn emoji_execute_copy_glyph_reports_unknown_key() {
    let provider = EmojiProvider::new();
    assert!(matches!(provider.execute_copy_glyph("emoji:joy"), Ok(true)));
    match provider.execute_copy_glyph("emoji:doesnotexist") {
        Err(e) => assert_eq!(e.key, "emoji:doesnotexist"),
        Ok(_) => panic!("unknown key accepted"),
    }
}

#[test]
fn emoji_routing_invariant_holds() {
    let provider = EmojiProvider::new();
    for q in ["", "joy", "smile", "/em happy", "a"] {
        for item in provider.search(q) {
            assert_eq!(item.key.split(':').next().unwrap(), provider.id());
            assert_eq!(item.provider_id, provider.id());
        }
    }
}

#[test]
fn emoji_normalization_helpers() {
    assert_eq!(normalize_query("  SMILE \t"), "smile");
    assert_eq!(normalize_string(" Face "), "face");
    assert!(starts_with_normalized("  Slightly Smiling", "slight"));
    assert!(!starts_with_normalized("Slightly Smiling", "smil"));
    assert!(contains_normalized("Slightly Smiling", "smil"));
    assert!(!contains_normalized("Slightly Smiling", "grin"));
}

#[test]
fn emoji_result_keys_are_distinct() {
    let provider = EmojiProvider::new();
    let r = provider.search("");
    let mut keys: Vec<&str> = r.iter().map(|x| x.key.as_str()).collect();
    keys.sort();
    keys.dedup();
    assert_eq!(keys, vec!["emoji:grin", "emoji:joy", "emoji:smile"]);
}

#[test]
fn emoji_bundled_catalog_entries() {
    let provider = EmojiProvider::new();
    let card = provider.preview("emoji:joy").unwrap();
    assert!(matches!(&card.data[0].value, lancea::model::FieldValue::Text(g) if g == "\u{1F602}"));
    assert!(matches!(&card.data[1].value, lancea::model::FieldValue::Text(t) if t == "Face with Tears of Joy"));
    assert!(matches!(&card.data[2].value, lancea::model::FieldValue::Text(s) if s == "joy"));
    assert!(matches!(&card.data[3].value, lancea::model::FieldValue::List(k) if k == &vec!["laugh".to_string(), "happy".into(), "tears".into()]));
    let card = provider.preview("emoji:smile").unwrap();
    assert!(matches!(&card.data[0].value, lancea::model::FieldValue::Text(g) if g == "\u{1F642}"));
}
