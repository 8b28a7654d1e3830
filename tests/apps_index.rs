use std::cmp::Ordering;
use lancea::apps::AppsProvider;
use lancea::desktop::{
    app_record_from_section, desktop_id_from_path, get_best_locale, parse_desktop_file, split_list, AppRecord,
};
use lancea::normalize::{natord, norm, normalize_query, push_norm, starts_with_token, title_prefix};
use lancea::provider::{Effect, Provider};

fn entry(path: &str, text: &str) -> AppRecord {
    match parse_desktop_file(text.as_bytes(), path, "") {
        Ok(Some(rec)) => rec,
        _ => panic!("not an application entry: {path}"),
    }
}

fn sample() -> AppsProvider {
    AppsProvider::new(vec![
        entry(
            "/usr/share/applications/firefox.desktop",
            "[Desktop Entry]\nType=Application\nName=Firefox\nGenericName=Web Browser\nComment=Browse the Web\nExec=firefox %u\nIcon=firefox\nCategories=Network;WebBrowser;\nKeywords=internet;www;\n",
        ),
        entry(
            "/usr/share/applications/code.desktop",
            "[Desktop Entry]\nType=Application\nName=Visual Studio Code\nComment=Code Editing. Redefined.\nExec=code %F\nIcon=vscode\nCategories=Development;IDE;\n",
        ),
        entry(
            "/usr/share/applications/org.gnome.Terminal.desktop",
            "[Desktop Entry]\nType=Application\nName=Terminal\nComment=Use the command line\nExec=gnome-terminal\nCategories=System;TerminalEmulator;\n",
        ),
        entry(
            "/usr/share/applications/hidden.desktop",
            "[Desktop Entry]\nType=Application\nName=Hidden Tool\nNoDisplay=true\n",
        ),
    ])
}

#[test]
fn scan_and_find_something() {
    let p = sample();
    let results = p.search("firefox");

    assert_eq!(results.first().unwrap().title, "Firefox");
}

#[test]
fn search_is_case_insensitive_and_fuzzy() {
    let p = sample();

    let results = p.search("visual");
    assert_eq!(results.first().unwrap().title, "Visual Studio Code");
}

#[test]
fn apps_token_match_scores_one() {
    let p = sample();
    let r = p.search("/apps  WEB");
    assert_eq!(r[0].key, "apps:firefox");
    assert_eq!(r[0].provider_id, "apps");
    assert_eq!(r[0].score, 1000);
    assert!(r.iter().all(|x| x.key.split(':').next() == Some("apps")));
}

#[test]
fn apps_fuzzy_score_is_clamped() {
    let p = sample();
    let r = p.search("vsc");
    assert!(!r.is_empty());
    for x in &r {
        assert!(x.score >= 100 && x.score <= 700);
    }
}

#[test]
fn apps_empty_and_slash_queries_return_nothing() {
    let p = sample();
    assert!(p.search("").is_empty());
    assert!(p.search("   ").is_empty());
    assert!(p.search("/apps").is_empty());
    assert!(p.search("/emoji joy").is_empty());
    assert!(p.search("qqqqzzzz").is_empty());
}

#[test]
fn apps_index_is_sorted_deduplicated_and_hides_nodisplay() {
    let first = entry(
        "/a/applications/dup.desktop",
        "[Desktop Entry]\nType=Application\nName=First Copy\n",
    );
    let second = entry(
        "/b/applications/dup.desktop",
        "[Desktop Entry]\nType=Application\nName=Second Copy\n",
    );
    let p = AppsProvider::new(vec![first, second]);
    let r = p.search("copy");
    assert_eq!(r.len(), 1);
    assert_eq!(r[0].title, "First Copy");
    let p = sample();
    assert!(p.search("hidden").is_empty());
    assert!(p.preview("apps:hidden").is_none());
}

#[test]
fn apps_preview_and_launch() {
    let p = sample();
    let card = p.preview("apps:firefox").unwrap();
    assert_eq!(card.preview_kind, "card");
    let names: Vec<&str> = card.data.iter().map(|f| f.name.as_str()).collect();
    assert_eq!(names, vec!["iconRef", "title", "comment", "categories", "desktopId", "path"]);
    assert!(p.preview("firefox").is_some());
    assert!(p.preview("apps:nothing").is_none());
    assert!(matches!(p.execute("launch", "apps:firefox"), Effect::Launch(id) if id == "firefox"));
    assert!(matches!(p.execute("launch", "apps:nothing"), Effect::Done(false)));
    assert!(matches!(p.execute("open", "apps:firefox"), Effect::Done(false)));
    match p.execute_launch("apps:nothing") {
        Err(e) => assert_eq!(e.desktop_id, "nothing"),
        Ok(_) => panic!("unknown app accepted"),
    }
    assert_eq!(p.id(), "apps");
}

#[test]
fn desktop_entry_fields() {
    let rec = entry(
        "/usr/share/applications/firefox.desktop",
        "[Desktop Entry]\nType=Application\nName=Firefox\nName[de]=Feuerfuchs\nGenericName=Web Browser\nComment=Browse the Web\nExec=firefox %u\nIcon=firefox\nCategories=Network;;WebBrowser;\nKeywords=internet;www\n",
    );
    assert_eq!(rec.desktop_id, "firefox");
    assert_eq!(rec.name, "Firefox");
    assert_eq!(rec.title(), "Firefox");
    assert_eq!(rec.subtitle(), Some("Web Browser"));
    assert_eq!(rec.exec_cmd.as_deref(), Some("firefox %u"));
    assert_eq!(rec.categories, vec!["Network".to_string(), "WebBrowser".into()]);
    assert_eq!(rec.keywords, vec!["internet".to_string(), "www".into()]);
    assert!(!rec.nodisplay);
    assert_eq!(rec.desktop_path, "/usr/share/applications/firefox.desktop");
    assert_eq!(
        rec.search_blob,
        "firefox  web browser  browse the web  internet  www  network  webbrowser "
    );
    let de = parse_desktop_file(
        "[Desktop Entry]\nType=Application\nName=Firefox\nName[de]=Feuerfuchs\n".as_bytes(),
        "/x/firefox.desktop",
        "de_DE.UTF-8",
    );
    assert!(matches!(de, Ok(Some(r)) if r.name == "Feuerfuchs"));
}

#[test]
fn desktop_entry_rejections() {
    let not_app = parse_desktop_file("[Desktop Entry]\nType=Link\nName=X\n".as_bytes(), "/x/l.desktop", "");
    assert!(matches!(not_app, Ok(None)));
    let no_section = parse_desktop_file("[Other]\nType=Application\n".as_bytes(), "/x/o.desktop", "");
    assert!(matches!(no_section, Ok(None)));
    let nameless = parse_desktop_file("[Desktop Entry]\nType=Application\n".as_bytes(), "/x/tool.desktop", "");
    assert!(matches!(nameless, Ok(Some(r)) if r.name == "tool"));
    let flagged = parse_desktop_file("[Desktop Entry]\nType=Application\nNoDisplay=1\n".as_bytes(), "/x/f.desktop", "");
    assert!(matches!(flagged, Ok(Some(r)) if r.nodisplay));
    let malformed = parse_desktop_file("[Desktop Entry\nType=Application\n".as_bytes(), "/x/m.desktop", "");
    assert!(malformed.is_err());
}

#[test]
fn desktop_locale_lookup() {
    let mut sec = ini::Properties::new();
    sec.insert("Name", "Files");
    sec.insert("Name[pt]", "Arquivos");
    sec.insert("Name[pt_BR]", "Arquivos BR");
    assert_eq!(get_best_locale(&sec, "Name", "pt_BR.UTF-8").as_deref(), Some("Arquivos BR"));
    assert_eq!(get_best_locale(&sec, "Name", "pt_PT.UTF-8").as_deref(), Some("Arquivos"));
    assert_eq!(get_best_locale(&sec, "Name", "fr_FR.UTF-8").as_deref(), Some("Files"));
    assert_eq!(get_best_locale(&sec, "Name", "").as_deref(), Some("Files"));
    assert_eq!(get_best_locale(&sec, "Comment", "pt_BR").as_deref(), None);
    sec.insert("Type", "Application");
    let rec = app_record_from_section(&sec, "/p/nautilus.desktop", "pt_BR.UTF-8").unwrap();
    assert_eq!(rec.name, "Arquivos BR");
}

#[test]
fn desktop_id_and_lists() {
    assert_eq!(desktop_id_from_path("/usr/share/applications/org.gnome.Terminal.desktop"), "org.gnome.Terminal");
    assert_eq!(desktop_id_from_path("/opt/tool"), "tool");
    assert_eq!(desktop_id_from_path("/"), "");
    assert_eq!(split_list(";a;;b c;"), vec!["a".to_string(), "b c".into()]);
    assert!(split_list("").is_empty());
}

#[test]
fn normalization_folds_text() {
    assert_eq!(norm("  Café  CRÈME  brûlée "), "cafe creme brulee");
    assert_eq!(norm("ﬁle"), "file");
    assert_eq!(normalize_query("   "), "");
    assert_eq!(normalize_query("  Ünïcode  "), "unicode");
    let mut blob = String::from("x ");
    push_norm(&mut blob, "  Hello   World ");
    assert_eq!(blob, "x hello world ");
    push_norm(&mut blob, "   ");
    assert_eq!(blob, "x hello world ");
    assert!(starts_with_token("Visual Studio", "  visual s"));
    assert!(!starts_with_token("Visual Studio", "studio"));
}

#[test]
fn natord_compares_leading_characters() {
    assert_eq!(natord("Alpha", "Beta"), Ordering::Less);
    assert_eq!(natord("Beta", "Alpha"), Ordering::Greater);
    assert_eq!(natord("Same", "Same"), Ordering::Equal);
    let a = format!("{}{}", "x".repeat(64), "a");
    let b = format!("{}{}", "x".repeat(64), "b");
    assert_eq!(natord(&a, &b), Ordering::Equal);
    assert_eq!(title_prefix(&a).len(), 64);
}

#[test]
fn desktop_file_bytes_decoded_leniently() {
    let mut bytes = b"[Desktop Entry]\nType=Application\nName=Bad".to_vec();
    bytes.push(0xFF);
    bytes.extend_from_slice(b"Byte\n");
    let rec = parse_desktop_file(&bytes, "/x/bad.desktop", "").unwrap().unwrap();
    assert_eq!(rec.name, "Bad\u{FFFD}Byte");
}

#[test]
fn apps_result_keys_are_distinct() {
    let p = AppsProvider::new(vec![
        entry("/a/one.desktop", "[Desktop Entry]\nType=Application\nName=Tool One\n"),
        entry("/a/two.desktop", "[Desktop Entry]\nType=Application\nName=Tool Two\n"),
        entry("/b/one.desktop", "[Desktop Entry]\nType=Application\nName=Tool Again\n"),
    ]);
    let r = p.search("tool");
    let mut keys: Vec<&str> = r.iter().map(|x| x.key.as_str()).collect();
    assert_eq!(keys.len(), 2);
    keys.sort();
    keys.dedup();
    assert_eq!(keys, vec!["apps:one", "apps:two"]);
}
