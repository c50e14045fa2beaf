use phi_launcher::assets::{
    assets_dir_candidates, base_dir, brand_font_files, cjk_font_candidates, font_plan,
    pick_assets_dir, FontName, BRAND_FAMILY,
};
use phi_launcher::assets::decode_rgba;
use phi_launcher::download::LocalVersion;
use phi_launcher::github::Release;
use phi_launcher::path::FsPath;
use phi_launcher::table::Status;
use phi_launcher::ui::{asset_action, listed_releases, local_display_name, login_form_ready, AssetAction, Navigation, Screen};

fn p(parts: &[&str]) -> FsPath {
    FsPath { parts: parts.iter().map(|s| s.to_string()).collect() }
}

fn strs(f: &FsPath) -> Vec<&str> {
    f.parts.iter().map(|s| s.as_str()).collect()
}

fn rel(tag: &str, pre: bool) -> Release {
    Release { name: None, tag_name: tag.to_string(), published_at: None, prerelease: pre, body: None, assets: vec![] }
}

#[test]
fn navigation_moves() {
    let mut n = Navigation::new();
    assert!(n.is_category_selected(0));
    assert!(n.wants_releases());
    n.select_category(2);
    assert!(n.is_category_selected(2) && !n.is_category_selected(0));
    n.open_settings();
    assert!(n.view == Screen::Settings && n.selected == 2);
    assert!(!n.is_category_selected(2));
    assert!(!n.wants_releases());
    n.open_about();
    assert!(n.view == Screen::About);
}

#[test]
fn preview_releases_hidden_on_request() {
    let rs = vec![rel("v3", true), rel("v2", false), rel("v1", true)];
    assert_eq!(listed_releases(&rs, true), vec![0, 1, 2]);
    assert_eq!(listed_releases(&rs, false), vec![1]);
    assert!(listed_releases(&vec![], false).is_empty());
}

#[test]
fn asset_row_actions() {
    assert!(matches!(asset_action(&Some(Status::Downloading { received: 5, total: 9 }), false), AssetAction::Progress { received: 5, total: 9 }));
    assert!(matches!(asset_action(&Some(Status::Queued), true), AssetAction::Queued));
    assert!(matches!(asset_action(&Some(Status::Extracting), false), AssetAction::Extracting));
    assert!(matches!(asset_action(&Some(Status::Failed("e".into())), true), AssetAction::Retry(m) if m == "e"));
    assert!(matches!(asset_action(&Some(Status::Installed(p(&["d"]))), true), AssetAction::Installed));
    assert!(matches!(asset_action(&Some(Status::Installed(p(&["d"]))), false), AssetAction::Download));
    assert!(matches!(asset_action(&None, true), AssetAction::Installed));
    assert!(matches!(asset_action(&None, false), AssetAction::Download));
}

#[test]
fn local_row_name_and_login_form() {
    let v = LocalVersion { repo: "phira".into(), tag: "v1".into(), name: Some("Mine".into()), exe_path: "x".into() };
    assert_eq!(local_display_name(&v), "Mine");
    assert!(login_form_ready("a@b", "pw"));
    assert!(!login_form_ready("", "pw"));
    assert!(!login_form_ready("a@b", ""));
}

#[test]
fn assets_dir_probing() {
    let c = assets_dir_candidates(Some(p(&["/cwd"])), Some(p(&["/opt/pl/bin"])), Some(p(&["/opt"])), p(&["/src/pl"]));
    let v: Vec<Vec<&str>> = c.iter().map(strs).collect();
    assert_eq!(v, vec![vec!["/cwd", "assets"], vec!["/opt/pl/bin", "assets"], vec!["/opt", "assets"], vec!["/src/pl", "assets"]]);
    let c = assets_dir_candidates(None, None, Some(p(&["/opt"])), p(&["/src/pl"]));
    assert_eq!(c.len(), 1);
    let probes = vec![(p(&["/a", "assets"]), false), (p(&["/b", "assets"]), true), (p(&["/c", "assets"]), true)];
    assert_eq!(strs(&pick_assets_dir(&probes)), vec!["/b", "assets"]);
    assert_eq!(strs(&pick_assets_dir(&vec![(p(&["/a", "assets"]), false)])), vec!["assets"]);
}

#[test]
fn base_dir_is_parent_of_assets() {
    assert_eq!(strs(&base_dir(&p(&["/home/u/pl", "assets"]))), vec!["/home/u/pl"]);
    assert!(base_dir(&p(&["assets"])).parts.is_empty());
    assert_eq!(strs(&base_dir(&p(&[]))), vec!["."]);
}

#[test]
fn font_choices() {
    let both = font_plan(true, true);
    assert!(both.body_first == Some(FontName::Cjk) && both.mono_cjk);
    assert!(both.brand == vec![FontName::Phigros, FontName::Cjk]);
    let only_phigros = font_plan(false, true);
    assert!(only_phigros.body_first == Some(FontName::Phigros) && !only_phigros.mono_cjk);
    assert!(only_phigros.brand == vec![FontName::Phigros]);
    let none = font_plan(false, false);
    assert!(none.body_first.is_none() && none.brand.is_empty());
    assert_eq!(cjk_font_candidates()[0], r"C:\Windows\Fonts\deng.ttf");
    assert_eq!(brand_font_files(), vec!["phigros.ttf", "font.ttf", "bold.ttf"]);
    assert_eq!(BRAND_FAMILY, "brand");
}

fn png_bytes(img: image::RgbImage) -> Vec<u8> {
    let mut buf: Vec<u8> = Vec::new();
    image::DynamicImage::ImageRgb8(img)
        .write_to(&mut std::io::Cursor::new(&mut buf), image::ImageFormat::Png)
        .unwrap();
    buf
}

#[test]
fn decode_rgba_png_and_garbage() {
    let img = image::RgbImage::from_raw(2, 1, vec![255, 0, 0, 0, 0, 255]).unwrap();
    let decoded = decode_rgba(&png_bytes(img)).unwrap();
    assert_eq!((decoded.width(), decoded.height()), (2, 1));
    assert_eq!(decoded.into_pixels(), vec![255, 0, 0, 255, 0, 0, 255, 255]);
    assert!(decode_rgba(b"definitely not an image").is_none());
    assert!(decode_rgba(&[]).is_none());
}
