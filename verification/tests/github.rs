use phi_launcher::github::{categories, fetch_failure_message, text_before, Category, FetchState, Release};

fn rel(name: Option<&str>, tag: &str, published: Option<&str>) -> Release {
    Release {
        name: name.map(|s| s.to_string()),
        tag_name: tag.to_string(),
        published_at: published.map(|s| s.to_string()),
        prerelease: false,
        body: None,
        assets: vec![],
    }
}

#[test]
fn four_categories_in_order() {
    let cats = categories();
    let repos: Vec<(&str, &str)> = cats.iter().map(|c| (c.owner, c.repo)).collect();
    assert_eq!(
        repos,
        vec![("TeamFlos", "phira"), ("tiancra", "Phira-Firefly"), ("2278535805", "phire"), ("LuteRenxaer", "PhirLte")]
    );
    assert_eq!(cats[0].name, "Phira");
    assert_eq!(cats[3].name, "PhirLie");
    assert_eq!(cats[1].tagline, "Firefly 分支 · tiancra");
    assert_eq!(cats[2].name, "phire");
    assert_eq!(cats[2].tagline, "Phi-Recorder 分支 · 2278535805");
}

#[test]
fn category_urls() {
    let c = Category { name: "Phira", tagline: "", owner: "TeamFlos", repo: "phira" };
    assert_eq!(c.releases_url(), "https://api.github.com/repos/TeamFlos/phira/releases?per_page=30");
    assert_eq!(c.page_url(), "https://github.com/TeamFlos/phira/releases");
    let d = c.clone();
    assert_eq!(d.repo, "phira");
}

#[test]
fn release_title_falls_back_to_tag() {
    assert_eq!(rel(Some("Phira 0.6.5"), "v0.6.5", None).title(), "Phira 0.6.5");
    assert_eq!(rel(Some("   \t"), "v0.6.5", None).title(), "v0.6.5");
    assert_eq!(rel(Some(""), "v1", None).title(), "v1");
    assert_eq!(rel(None, "v2", None).title(), "v2");
    assert_eq!(rel(Some(" x "), "v2", None).title(), " x ");
}

#[test]
fn release_date_is_the_day() {
    assert_eq!(rel(None, "v", Some("2024-12-05T09:24:29Z")).date(), "2024-12-05");
    assert_eq!(rel(None, "v", Some("2024-12-05")).date(), "2024-12-05");
    assert_eq!(rel(None, "v", Some("T")).date(), "");
    assert_eq!(rel(None, "v", None).date(), "");
    assert_eq!(text_before("abcTdefTg", 'T'), "abc");
}

#[test]
fn fetch_state_transitions() {
    let mut s = FetchState::default();
    assert!(s.is_idle());
    assert!(s.begin());
    assert!(matches!(s, FetchState::Loading));
    assert!(!s.begin());
    s.finish(Ok(vec![rel(None, "v1", None)]));
    assert!(matches!(&s, FetchState::Loaded(v) if v.len() == 1));
    assert!(s.begin());
    s.finish(Err("GitHub 返回状态码 403".to_string()));
    assert!(matches!(&s, FetchState::Error(e) if e == "GitHub 返回状态码 403"));
    s.reset();
    assert!(s.is_idle());
}

#[test]
fn fetch_failure_message_names_the_status() {
    assert_eq!(fetch_failure_message("403 Forbidden"), "GitHub 返回状态码 403 Forbidden");
}
