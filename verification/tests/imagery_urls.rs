use std::collections::HashMap;

use houtu::params::{get_subdomain, key_value_iter_to_param_str, map_to_param_str};
use houtu::tile_key::TileKey;
use houtu::wmts::WMTSImageryProvider;
use houtu::xyz::XYZImageryProvider;
use new_string_template::template::Template;
use url::Url;

#[test]
fn test_map_to_param_str() {
    let map = HashMap::from([("key1", "value1"), ("key2", "value2")]);
    let param_str = map_to_param_str(&map);
    assert!(param_str == "key1=value1&key2=value2");
}

#[test]
fn test_url() {
    let mut url = Url::parse("https://example.net").unwrap();
    url.set_query(Some("key1=value1&key2=value2"));
    assert!(url.query() == Some("key1=value1&key2=value2"));
    let string = url.as_str();
    assert!(string == "https://example.net/?key1=value1&key2=value2");

    let a = "test";
    let b = &a;
    assert!(format!("{}", b) == "test".to_string());
}

fn tianditu_provider(url: &'static str, subdomains: Option<Vec<&'static str>>, params: Option<Vec<(&'static str, &'static str)>>) -> WMTSImageryProvider {
    WMTSImageryProvider {
        name: "test",
        url,
        layer: "img_w",
        style: "default",
        format: "tiles",
        tile_matrix_set_id: "c",
        subdomains,
        minimum_level: 0,
        maximum_level: 17,
        tile_width: 256,
        tile_height: 256,
        tile_matrix_labels: None,
        params,
    }
}

#[test]
fn test_build_url() {
    let provider = tianditu_provider(
        "https://{s}.tianditu.gov.cn/img_w/wmts",
        Some(vec!["t0", "t1", "t2", "t3", "t4", "t5", "t6", "t7"]),
        Some(vec![("tk", "xxxxxxxxxxxxxxxxxxxxxxxx")]),
    );
    let key = TileKey { x: 1, y: 2, level: 3 };
    let url = provider.build_url(&key).unwrap();
    let subdomain = get_subdomain(&provider.subdomains.unwrap(), &key);
    let expect_url = format!("https://{}.tianditu.gov.cn/img_w/wmts?service=wmts&request=GetTile&version=1.0.0&tilematrix=3&layer=img_w&style=default&tilerow=2&tilecol=1&tilematrixset=c&format=tiles&tk=xxxxxxxxxxxxxxxxxxxxxxxx", subdomain);
    assert!(url == expect_url);
}

#[test]
fn test_build_url_no_subdomains() {
    let provider = tianditu_provider("https://t0.tianditu.gov.cn/img_w/wmts", None, None);
    let key = TileKey { x: 1, y: 2, level: 3 };
    let url = provider.build_url(&key).unwrap();
    assert!(url == "https://t0.tianditu.gov.cn/img_w/wmts?service=wmts&request=GetTile&version=1.0.0&tilematrix=3&layer=img_w&style=default&tilerow=2&tilecol=1&tilematrixset=c&format=tiles");
}

#[test]
fn test_template_url() {
    let template = Template::new("https://{s}.tile.thunderforest.com/cycle/{z}/{x}/{y}.png");
    let mut args = HashMap::new();
    args.insert("s", "t1");
    args.insert("z", "10");
    args.insert("x", "20");
    args.insert("y", "30");
    let s = template.render(&args).expect("Expected Result to be Ok");
    assert!(s == "https://t1.tile.thunderforest.com/cycle/10/20/30.png");
}

#[test]
fn subdomain_is_round_robin_on_coordinate_sum() {
    let subdomains = vec!["a", "b", "c"];
    assert_eq!(get_subdomain(&subdomains, &TileKey { x: 0, y: 0, level: 0 }), "a");
    assert_eq!(get_subdomain(&subdomains, &TileKey { x: 1, y: 2, level: 3 }), "a");
    assert_eq!(get_subdomain(&subdomains, &TileKey { x: 1, y: 0, level: 1 }), "c");
    assert_eq!(get_subdomain(&subdomains, &TileKey { x: 4, y: 0, level: 0 }), "b");
}

#[test]
fn key_value_pairs_keep_their_order() {
    assert_eq!(key_value_iter_to_param_str(&vec![]), "");
    assert_eq!(key_value_iter_to_param_str(&vec![("a", "1")]), "a=1");
    assert_eq!(key_value_iter_to_param_str(&vec![("b", "2"), ("a", ""), ("c", "x")]), "b=2&a=&c=x");
}

#[test]
fn map_param_str_orders_by_name_whatever_the_insertion_order() {
    let mut first = HashMap::new();
    first.insert("zoom", "3");
    first.insert("alpha", "1");
    first.insert("beta", "2");
    first.insert("al", "0");
    let mut second = HashMap::new();
    second.insert("beta", "2");
    second.insert("al", "0");
    second.insert("zoom", "3");
    second.insert("alpha", "1");
    assert_eq!(map_to_param_str(&first), "al=0&alpha=1&beta=2&zoom=3");
    assert_eq!(map_to_param_str(&first), map_to_param_str(&second));
    assert_eq!(map_to_param_str(&HashMap::new()), "");
}

#[test]
fn wmts_query_uses_labels_and_decimal_coordinates() {
    let mut provider = tianditu_provider("https://t0.tianditu.gov.cn/img_w/wmts", None, None);
    provider.tile_matrix_labels = Some(vec!["L0".to_string(), "L1".to_string(), "L2".to_string()]);
    let key = TileKey { x: 4294967295, y: 10, level: 2 };
    assert_eq!(
        provider.query_string(&key),
        "service=wmts&request=GetTile&version=1.0.0&tilematrix=L2&layer=img_w&style=default&tilerow=10&tilecol=4294967295&tilematrixset=c&format=tiles"
    );
}

#[test]
fn wmts_template_values_pick_the_subdomain() {
    let provider = tianditu_provider("https://{s}.example.com/wmts", Some(vec!["a", "b"]), None);
    assert_eq!(provider.template_values(&TileKey { x: 1, y: 0, level: 0 }), vec![("s", "b")]);
    let plain = tianditu_provider("https://example.com/wmts", None, None);
    assert_eq!(plain.template_values(&TileKey { x: 1, y: 0, level: 0 }), vec![]);
}

#[test]
fn wmts_url_from_base_replaces_the_query() {
    let provider = tianditu_provider("https://example.com/wmts", None, Some(vec![("tk", "k")]));
    let url = provider.url_from_base(&TileKey { x: 0, y: 0, level: 0 }, "https://example.com/wmts?old=1").unwrap();
    assert_eq!(provider.url_from_base(&TileKey { x: 0, y: 0, level: 0 }, "no scheme"), None);
    assert_eq!(url, "https://example.com/wmts?service=wmts&request=GetTile&version=1.0.0&tilematrix=0&layer=img_w&style=default&tilerow=0&tilecol=0&tilematrixset=c&format=tiles&tk=k");
}

#[test]
fn wmts_checked_build_url_reports_unusable_inputs() {
    let key = TileKey { x: 1, y: 2, level: 3 };
    let empty_subdomains = tianditu_provider("https://{s}.example.com/wmts", Some(vec![]), None);
    assert_eq!(empty_subdomains.checked_build_url(&key), None);
    let not_a_url = tianditu_provider("not a url", None, None);
    assert_eq!(not_a_url.checked_build_url(&key), None);
    let missing_value = tianditu_provider("https://{q}.example.com/wmts", None, None);
    assert_eq!(missing_value.checked_build_url(&key), Some(None));
    let mut short_labels = tianditu_provider("https://example.com/wmts", None, None);
    short_labels.tile_matrix_labels = Some(vec!["only".to_string()]);
    assert_eq!(short_labels.checked_build_url(&key), None);
    let fine = tianditu_provider("https://example.com/wmts", None, None);
    assert_eq!(
        fine.checked_build_url(&key),
        Some(Some("https://example.com/wmts?service=wmts&request=GetTile&version=1.0.0&tilematrix=3&layer=img_w&style=default&tilerow=2&tilecol=1&tilematrixset=c&format=tiles".to_string()))
    );
}

#[test]
fn wmts_build_url_without_placeholder_value_is_none() {
    let provider = tianditu_provider("https://{q}.example.com/wmts", None, None);
    assert_eq!(provider.build_url(&TileKey { x: 0, y: 0, level: 0 }), None);
}

#[test]
fn wmts_getters() {
    let provider = tianditu_provider("https://example.com/wmts", None, None);
    assert_eq!(provider.get_maximum_level(), 17);
    assert_eq!(provider.get_minimum_level(), 0);
    assert!(provider.get_ready());
    assert_eq!(provider.get_tile_width(), 256);
    assert_eq!(provider.get_tile_height(), 256);
}

#[test]
fn xyz_build_url_fills_level_column_and_row() {
    let provider = XYZImageryProvider {
        url: "https://{s}.tile.thunderforest.com/cycle/{z}/{x}/{y}.png",
        subdomains: Some(vec!["t0", "t1", "t2"]),
        ..Default::default()
    };
    let key = TileKey { x: 20, y: 30, level: 10 };
    assert_eq!(
        provider.build_url(&key).unwrap(),
        "https://t0.tile.thunderforest.com/cycle/10/20/30.png"
    );
    let missing = XYZImageryProvider { url: "https://{s}.example.com/{z}.png", ..Default::default() };
    assert_eq!(missing.build_url(&key), None);
    let plain = XYZImageryProvider { url: "icon.png", ..Default::default() };
    assert_eq!(plain.build_url(&key).unwrap(), "icon.png");
}

#[test]
fn xyz_defaults() {
    let provider = XYZImageryProvider::default();
    assert_eq!(provider.url, "");
    assert!(provider.subdomains.is_none());
    assert_eq!(provider.get_minimum_level(), 0);
    assert_eq!(provider.get_maximum_level(), 17);
    assert!(provider.get_ready());
    assert_eq!(provider.get_tile_width(), 256);
    assert_eq!(provider.get_tile_height(), 256);
}
