use lancea::apps::AppsProvider;
use lancea::bus::{outcome, EngineBus, Execution, PreviewArgs, SearchArgs};
use lancea::desktop::parse_desktop_file;
use lancea::model::{Envelope, ResultsBatch};

fn engine() -> EngineBus {
    let rec = parse_desktop_file(
        "[Desktop Entry]\nType=Application\nName=Firefox\nExec=firefox\n".as_bytes(),
        "/usr/share/applications/firefox.desktop",
        "",
    )
    .unwrap()
    .unwrap();
    EngineBus::new(AppsProvider::new(vec![rec]))
}

fn args(text: &str, ids: Option<Vec<&str>>, epoch: Option<u64>) -> SearchArgs {
    SearchArgs {
        text: text.to_string(),
        provider_ids: ids.map(|v| v.into_iter().map(String::from).collect()),
        epoch,
    }
}

#[test]
fn emoji_search_returns_results() {
    let mut engine = engine();
    let resolved = engine.resolve_command("/emoji laugh");
    assert_eq!(resolved.v, "1.0");
    assert!(resolved.data.matched);
    assert_eq!(resolved.data.command_id.as_deref(), Some("emoji"));
    assert_eq!(resolved.data.reason.as_deref(), Some("slash-command"));
    assert!(resolved.data.intent.is_none());

    let reply = engine.search(&args("/emoji laugh", Some(vec!["emoji"]), None));
    assert_eq!(reply.events.len(), 2);
    let first = &reply.events[0];
    assert_eq!(first.provider_id, "emoji");
    assert_eq!(first.token, 1);
    assert!(first.epoch >= 1);
    match &first.batch.data {
        ResultsBatch::Reset { items } => assert!(items.iter().any(|it| it.key == "emoji:joy")),
        _ => panic!("first batch should be a reset"),
    }
    let last = &reply.events[1];
    assert!(matches!(last.batch.data, ResultsBatch::End));
    assert_eq!((last.epoch, last.token, last.provider_id.as_str()), (first.epoch, first.token, "emoji"));
}

#[test]
fn search_epochs_are_fresh_and_increasing() {
    let mut engine = engine();
    let a = engine.search(&args("joy", Some(vec!["emoji"]), None));
    let b = engine.search(&args("joy", Some(vec!["emoji"]), None));
    assert_eq!(a.events[0].epoch, 1);
    assert_eq!(b.events[0].epoch, 2);
    let pinned = engine.search(&args("joy", Some(vec!["emoji"]), Some(1)));
    assert_eq!(pinned.events[0].epoch, 1);
    let c = engine.search(&args("joy", None, None));
    assert_eq!(c.events[0].epoch, 3);
}

#[test]
fn search_defaults_and_falls_back_to_apps() {
    let mut engine = engine();
    for reply in [
        engine.search(&args("firefox", None, None)),
        engine.search(&args("firefox", Some(vec![]), None)),
        engine.search(&args("firefox", Some(vec!["nope"]), None)),
    ] {
        match &reply.events[0].batch.data {
            ResultsBatch::Reset { items } => {
                assert_eq!(items.len(), 1);
                assert_eq!(items[0].key, "apps:firefox");
            }
            _ => panic!("first batch should be a reset"),
        }
        assert!(matches!(reply.events[1].batch.data, ResultsBatch::End));
    }
    let r = engine.search(&args("firefox", Some(vec!["nope"]), None));
    assert_eq!(r.events[0].provider_id, "nope");
}

#[test]
fn search_with_no_hits_is_empty_reset_then_end() {
    let mut engine = engine();
    let r = engine.search(&args("zzzz", Some(vec!["emoji"]), None));
    assert!(matches!(&r.events[0].batch.data, ResultsBatch::Reset { items } if items.is_empty()));
    assert!(matches!(r.events[1].batch.data, ResultsBatch::End));
}

#[test]
fn execute_outcomes() {
    let engine = engine();
    match engine.execute("copy_glyph", "emoji:joy") {
        Execution::Finished(o) => {
            assert_eq!(o.status, "ok");
            assert_eq!(o.message.as_deref(), Some("Action 'copy_glyph' executed successfully"));
        }
        _ => panic!("should be finished"),
    }
    for (action, key) in [("copy_glyph", "emoji:doesnotexist"), ("bogus_action", "emoji:joy"), ("launch", "other:x"), ("launch", "apps:nothing")] {
        match engine.execute(action, key) {
            Execution::Finished(o) => {
                assert_eq!(o.status, "error");
                assert_eq!(
                    o.message,
                    Some(format!("Failed to execute action '{}' or unknown provider/key", action))
                );
            }
            _ => panic!("should be finished"),
        }
    }
    assert!(matches!(engine.execute("launch", "apps:firefox"), Execution::Launch(id) if id == "firefox"));
    assert_eq!(outcome("launch", true).status, "ok");
}

#[test]
fn preview_requests() {
    let mut engine = engine();
    let none = engine.request_preview(&PreviewArgs { key: String::new(), epoch: Some(4) });
    assert!(none.is_none());
    assert!(engine.request_preview(&PreviewArgs { key: "other:x".into(), epoch: None }).is_none());
    assert!(engine.request_preview(&PreviewArgs { key: "emoji:nothing".into(), epoch: None }).is_none());
    let ev = engine.request_preview(&PreviewArgs { key: "emoji:joy".into(), epoch: Some(9) }).unwrap();
    assert_eq!(ev.epoch, 9);
    assert_eq!(ev.provider_id, "emoji");
    assert_eq!(ev.key, "emoji:joy");
    assert_eq!(ev.preview.v, "1.0");
    assert_eq!(ev.preview.data.preview_kind, "card");
    engine.next_epoch();
    let ev = engine.request_preview(&PreviewArgs { key: "apps:firefox".into(), epoch: None }).unwrap();
    assert_eq!(ev.epoch, 1);
    assert_eq!(ev.provider_id, "apps");
}

#[test]
fn envelope_wraps_with_version() {
    let e = Envelope::wrap(7u8);
    assert_eq!(e.v, "1.0");
    assert_eq!(e.data, 7);
}
