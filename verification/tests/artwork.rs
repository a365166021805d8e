use vaporforge::griddb::artwork::{all_artwork_files_of, artwork_filename, artwork_files_of};
use vaporforge::griddb::client::ImageKind;

#[test]
fn filename_wide_cover() {
    assert_eq!(
        artwork_filename(1234567890, ImageKind::WideCover, "https://cdn.example.com/img.png"),
        "1234567890.png"
    );
}

#[test]
fn filename_cover() {
    assert_eq!(
        artwork_filename(1234567890, ImageKind::Cover, "https://cdn.example.com/img.jpg"),
        "1234567890p.jpg"
    );
}

#[test]
fn filename_background() {
    assert_eq!(
        artwork_filename(1234567890, ImageKind::Background, "https://cdn.example.com/img.webp"),
        "1234567890_hero.webp"
    );
}

#[test]
fn filename_logo() {
    assert_eq!(
        artwork_filename(1234567890, ImageKind::Logo, "https://cdn.example.com/img.png"),
        "1234567890_logo.png"
    );
}

#[test]
fn filename_icon() {
    assert_eq!(
        artwork_filename(1234567890, ImageKind::Icon, "https://cdn.example.com/img.png"),
        "1234567890_icon.png"
    );
}

#[test]
fn filename_strips_query_string() {
    let url = "https://cdn.example.com/img.jpg?v=2&token=abc";
    assert_eq!(artwork_filename(42, ImageKind::WideCover, url), "42.jpg");
}

#[test]
fn filename_unknown_ext_falls_back_to_png() {
    assert_eq!(
        artwork_filename(1, ImageKind::Background, "https://cdn.example.com/img.bmp"),
        "1_hero.png"
    );
}

#[test]
fn filename_ext_is_lowercased() {
    assert_eq!(
        artwork_filename(1, ImageKind::WideCover, "https://cdn.example.com/img.PNG"),
        "1.png"
    );
}

#[test]
fn filename_jpeg_and_zero_appid() {
    assert_eq!(artwork_filename(0, ImageKind::Logo, "a/b.JPEG"), "0_logo.jpeg");
    assert_eq!(artwork_filename(4294967295, ImageKind::Cover, "noext"), "4294967295p.png");
}

#[test]
fn filename_dot_in_query_is_ignored() {
    assert_eq!(artwork_filename(7, ImageKind::Icon, "https://x.com/img?f=a.webp"), "7_icon.png");
}

fn names(v: &[&str]) -> Vec<String> {
    v.iter().map(|s| s.to_string()).collect()
}

#[test]
fn stale_artwork_of_kind_is_selected() {
    let listing = names(&["999_hero.png", "999_hero.JPG", "999.png", "999_hero", "999_hero.bmp", "1999_hero.png", "999_logo.webp"]);
    assert_eq!(artwork_files_of(999, ImageKind::Background, &listing), vec![0, 1]);
    assert_eq!(artwork_files_of(999, ImageKind::WideCover, &listing), vec![2]);
    assert_eq!(artwork_files_of(999, ImageKind::Cover, &listing), Vec::<usize>::new());
}

#[test]
fn all_artwork_kinds_are_selected() {
    let listing = names(&["5p.jpg", "5.png", "5_hero.webp", "5_logo.png", "5_icon.jpeg", "5_other.png", "6.png"]);
    assert_eq!(all_artwork_files_of(5, &listing), vec![0, 1, 2, 3, 4]);
}

#[test]
fn replacing_artwork_selects_the_old_extension() {
    let old = artwork_filename(999, ImageKind::Background, "https://cdn.example.com/hero.png");
    let new = artwork_filename(999, ImageKind::Background, "https://cdn.example.com/hero.jpg");
    assert_ne!(old, new);
    let listing = vec![old.clone(), "999_logo.png".to_string()];
    assert_eq!(artwork_files_of(999, ImageKind::Background, &listing), vec![0]);
}

#[test]
fn no_two_games_or_kinds_share_a_file_name() {
    let kinds = [ImageKind::Cover, ImageKind::WideCover, ImageKind::Background, ImageKind::Logo, ImageKind::Icon];
    let mut names = Vec::new();
    for appid in [1u32, 12, 121, 1234567890] {
        for kind in kinds {
            names.push(artwork_filename(appid, kind, "https://cdn.example.com/a.png"));
        }
    }
    let mut sorted = names.clone();
    sorted.sort();
    sorted.dedup();
    assert_eq!(sorted.len(), names.len());
}
