use typst_dev_assets::{asset_paths, fonts, get, get_by_name, AssetTable, Entry, BUNDLED_COUNT};

fn contents_of(path: &str) -> Vec<u8> {
    format!("contents of {}", path).into_bytes()
}

fn table_of(paths: &[&str]) -> Option<AssetTable> {
    let entries = paths
        .iter()
        .map(|p| Entry { path: p.to_string(), data: contents_of(p) })
        .collect();
    AssetTable::new(entries)
}

fn bundled() -> AssetTable {
    AssetTable::bundled(asset_paths().into_iter().map(contents_of).collect())
}

#[test]
fn test_unix_like() {
    let table = bundled();
    assert!(get(&table, "data/zoo.csv").is_some());
    assert!(get(&table, "data/zoos.csv").is_none());
}

#[test]
fn test_windows_like() {
    let table = bundled();
    assert!(get(&table, "data\\zoo.csv").is_some());
    assert!(get(&table, "data\\zoos.csv").is_none());
}

#[test]
fn every_bundled_path_gives_its_contents() {
    let table = bundled();
    assert_eq!(table.len(), asset_paths().len());
    for p in asset_paths() {
        assert_eq!(get(&table, p), Some(contents_of(p).as_slice()));
    }
}

#[test]
fn backslash_path_equals_slash_path() {
    let table = bundled();
    for p in asset_paths() {
        let windows = p.replace('/', "\\");
        assert_eq!(get(&table, &windows), get(&table, p));
    }
    assert_eq!(get(&table, "fonts\\Roboto-Regular.ttf"), Some(contents_of("fonts/Roboto-Regular.ttf").as_slice()));
}

#[test]
fn missing_path_gives_none() {
    let table = bundled();
    assert_eq!(get(&table, "data/zoos.csv"), None);
    assert_eq!(get(&table, "data/zoo"), None);
    assert_eq!(get(&table, "zoo.csv"), None);
    assert_eq!(get(&table, ""), None);
    assert_eq!(get(&table, "data/zoo.csv/"), None);
}

#[test]
fn name_lookup_matches_path_lookup() {
    let table = bundled();
    assert_eq!(get_by_name(&table, "zoo.csv"), get(&table, "data/zoo.csv"));
    assert_eq!(get_by_name(&table, "zoo.csv"), Some(contents_of("data/zoo.csv").as_slice()));
    assert_eq!(get_by_name(&table, "halcyon.tmTheme"), get(&table, "themes/halcyon.tmTheme"));
}

#[test]
fn name_lookup_misses() {
    let table = bundled();
    assert_eq!(get_by_name(&table, "zoos.csv"), None);
    assert_eq!(get_by_name(&table, "data/zoo.csv"), None);
    assert_eq!(get_by_name(&table, "zoo"), None);
    assert_eq!(get_by_name(&table, ""), None);
}

#[test]
fn name_lookup_takes_first_in_order() {
    let table = table_of(&["a/x.txt", "b/x.txt", "c/y.txt"]).unwrap();
    assert_eq!(get_by_name(&table, "x.txt"), Some(contents_of("a/x.txt").as_slice()));
    assert_eq!(get_by_name(&table, "y.txt"), Some(contents_of("c/y.txt").as_slice()));
}

#[test]
fn name_lookup_without_directory() {
    let table = table_of(&["readme", "sub/readme.md"]).unwrap();
    assert_eq!(get_by_name(&table, "readme"), Some(contents_of("readme").as_slice()));
    assert_eq!(get_by_name(&table, "readme.md"), Some(contents_of("sub/readme.md").as_slice()));
}

#[test]
fn fonts_are_the_font_entries_in_order() {
    let table = bundled();
    let expected: Vec<Vec<u8>> = asset_paths()
        .into_iter()
        .filter(|p| p.starts_with("fonts/"))
        .map(contents_of)
        .collect();
    let got: Vec<Vec<u8>> = fonts(&table).into_iter().map(|d| d.to_vec()).collect();
    assert_eq!(got.len(), 28);
    assert_eq!(got, expected);
    assert_eq!(got[0], contents_of("fonts/FiraMath-Regular.otf"));
    assert_eq!(got[27], contents_of("fonts/Ubuntu-Regular.ttf"));
}

#[test]
fn fonts_twice_gives_the_same() {
    let table = bundled();
    assert_eq!(fonts(&table), fonts(&table));
}

#[test]
fn fonts_needs_the_directory() {
    let table = table_of(&["fonts", "fonts/a.ttf", "fontsx/b.ttf", "x/fonts/c.ttf"]).unwrap();
    assert_eq!(fonts(&table), vec![contents_of("fonts/a.ttf").as_slice()]);
}

#[test]
fn bundled_paths_strictly_ascend() {
    let paths = asset_paths();
    for w in paths.windows(2) {
        assert!(w[0].as_bytes() < w[1].as_bytes());
    }
    assert_eq!(paths.len(), BUNDLED_COUNT);
    assert!(table_of(&paths).is_some());
}

#[test]
fn bundled_table_pairs_paths_with_contents() {
    let table = bundled();
    assert_eq!(table.len(), BUNDLED_COUNT);
    assert_eq!(get(&table, "bib/bad.bib"), Some(contents_of("bib/bad.bib").as_slice()));
    assert_eq!(get(&table, "themes/halcyon.tmTheme"), Some(contents_of("themes/halcyon.tmTheme").as_slice()));
    assert_eq!(get_by_name(&table, "Roboto-Regular.ttf"), get(&table, "fonts/Roboto-Regular.ttf"));
    assert!(get_by_name(&table, "Roboto-Regular.ttf").is_some());
}

#[test]
fn new_refuses_unsorted_paths() {
    assert!(table_of(&["bib/works_too.bib", "bib/works.bib"]).is_none());
    assert!(table_of(&["b", "a"]).is_none());
}

#[test]
fn new_refuses_repeated_paths() {
    assert!(table_of(&["a/x", "a/x"]).is_none());
}

#[test]
fn new_refuses_backslash_paths() {
    assert!(table_of(&["a\\x"]).is_none());
}

#[test]
fn prefix_sorts_first() {
    assert!(table_of(&["ab", "abc"]).is_some());
    assert!(table_of(&["abc", "ab"]).is_none());
}

#[test]
fn empty_table() {
    let table = table_of(&[]).unwrap();
    assert_eq!(table.len(), 0);
    assert_eq!(get(&table, "data/zoo.csv"), None);
    assert_eq!(get_by_name(&table, "zoo.csv"), None);
    assert!(fonts(&table).is_empty());
}
