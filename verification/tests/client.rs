use vaporforge::griddb::client::{
    game_by_steam_appid_url, images_from_response, join, page_url, search_url, AnimationType, ContentFilter, GetImagesOptions, GridDimension,
    ImageEndpoint, ImageKind,
};

fn default_opts() -> GetImagesOptions {
    GetImagesOptions::default()
}

#[test]
fn image_kind_query_mapping() {
    let opts = default_opts();
    assert!(matches!(ImageKind::Cover.to_query_type(&opts).endpoint, ImageEndpoint::Grid));
    assert!(matches!(ImageKind::WideCover.to_query_type(&opts).endpoint, ImageEndpoint::Grid));
    assert!(matches!(ImageKind::Background.to_query_type(&opts).endpoint, ImageEndpoint::Hero));
    assert!(matches!(ImageKind::Logo.to_query_type(&opts).endpoint, ImageEndpoint::Logo));
    assert!(matches!(ImageKind::Icon.to_query_type(&opts).endpoint, ImageEndpoint::Icon));
}

#[test]
fn cover_uses_portrait_dimensions() {
    let opts = default_opts();
    let q = ImageKind::Cover.to_query_type(&opts);
    assert!(matches!(q.endpoint, ImageEndpoint::Grid), "Cover should be Grid with dimension params");
    let dims = q.dimensions.expect("Cover must have dimension filter");
    assert!(dims.iter().all(|d| matches!(
        d,
        GridDimension::D600x900 | GridDimension::D342x482 | GridDimension::D660x930
    )));
}

#[test]
fn wide_cover_uses_landscape_dimensions() {
    let opts = default_opts();
    let q = ImageKind::WideCover.to_query_type(&opts);
    assert!(matches!(q.endpoint, ImageEndpoint::Grid), "WideCover should be Grid with dimension params");
    let dims = q.dimensions.expect("WideCover must have dimension filter");
    assert!(dims.iter().all(|d| matches!(d, GridDimension::D460x215 | GridDimension::D920x430)));
}

#[test]
fn default_opts_exclude_animated() {
    let opts = default_opts();
    let q = ImageKind::Cover.to_query_type(&opts);
    assert!(matches!(q.endpoint, ImageEndpoint::Grid), "Cover should be Grid");
    assert_eq!(q.types, vec![AnimationType::Static]);
}

#[test]
fn show_animated_includes_animated_type() {
    let opts = GetImagesOptions { show_animated: true, ..default_opts() };
    let q = ImageKind::Cover.to_query_type(&opts);
    assert!(matches!(q.endpoint, ImageEndpoint::Grid), "Cover should be Grid");
    let types = q.types;
    assert!(types.contains(&AnimationType::Animated));
    assert!(types.contains(&AnimationType::Static));
}

#[test]
fn filename_suffixes_are_correct() {
    assert_eq!(ImageKind::Cover.filename_suffix(), "p");
    assert_eq!(ImageKind::WideCover.filename_suffix(), "");
    assert_eq!(ImageKind::Background.filename_suffix(), "_hero");
    assert_eq!(ImageKind::Logo.filename_suffix(), "_logo");
    assert_eq!(ImageKind::Icon.filename_suffix(), "_icon");
}

#[test]
fn content_filters_follow_options() {
    let opts = GetImagesOptions { page: 0, limit: 25, show_nsfw: true, show_humor: false, show_animated: false };
    let q = ImageKind::Logo.to_query_type(&opts);
    assert_eq!(q.nsfw, ContentFilter::Any);
    assert_eq!(q.humor, ContentFilter::Exclude);
    assert!(q.dimensions.is_none());
}

#[test]
fn default_options() {
    let o = GetImagesOptions::default();
    assert_eq!((o.page, o.limit, o.show_nsfw, o.show_humor, o.show_animated), (0, 25, false, false, false));
}

#[test]
fn page_url_adds_question_mark_only_when_missing() {
    assert_eq!(
        page_url("https://www.steamgriddb.com/api/v2/heroes/game/7", 25, 0),
        "https://www.steamgriddb.com/api/v2/heroes/game/7?&limit=25&page=0"
    );
    assert_eq!(
        page_url("https://www.steamgriddb.com/api/v2/grids/game/7?types=static", 10, 3),
        "https://www.steamgriddb.com/api/v2/grids/game/7?types=static&limit=10&page=3"
    );
}

#[test]
fn failed_response_joins_errors() {
    let r: Result<Vec<u32>, String> =
        images_from_response(Some(false), None, Some(vec!["bad key".to_string(), "limit".to_string()]));
    assert_eq!(r, Err("bad key, limit".to_string()));
    let r: Result<Vec<u32>, String> = images_from_response(Some(false), Some(vec![1]), Some(vec![]));
    assert_eq!(r, Err("API request failed".to_string()));
    let r: Result<Vec<u32>, String> = images_from_response(Some(false), None, None);
    assert_eq!(r, Err("API request failed".to_string()));
}

#[test]
fn successful_response_gives_data() {
    let r: Result<Vec<u32>, String> = images_from_response(Some(true), Some(vec![3, 4]), None);
    assert_eq!(r, Ok(vec![3, 4]));
    let r: Result<Vec<u32>, String> = images_from_response(None, None, Some(vec!["x".to_string()]));
    assert_eq!(r, Ok(vec![]));
}

#[test]
fn join_strings() {
    assert_eq!(join(&vec![], ", "), "");
    assert_eq!(join(&vec!["a".to_string()], ", "), "a");
    assert_eq!(join(&vec!["a".to_string(), "b".to_string(), "c".to_string()], "-"), "a-b-c");
}

#[test]
fn lookup_urls() {
    let base = "https://www.steamgriddb.com/api/v2";
    assert_eq!(game_by_steam_appid_url(base, 620), "https://www.steamgriddb.com/api/v2/games/steam/620");
    let url = search_url(base, "Hades II");
    assert_eq!(url, "https://www.steamgriddb.com/api/v2/search/autocomplete/Hades%20II");
    assert_eq!(search_url("b", "Café-1_x.~!"), "b/search/autocomplete/Caf%C3%A9-1_x.~%21");
}
