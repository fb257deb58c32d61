use blueflame::new_tab::speed_dial_tiles;
use blueflame::new_tab::{data_url, display_url, render, Tile, TileSource};
use blueflame::search::SearchEngine;

#[test]
fn rendered_html_mentions_engine_and_search_url() {
    let html = render(SearchEngine::Brave, &[], "");
    assert!(html.contains("Brave Search"));
    assert!(html.contains("search.brave.com"));
}

#[test]
fn data_url_has_base64_prefix() {
    let u = data_url(SearchEngine::DuckDuckGo, &[], "");
    assert!(u.starts_with("data:text/html;charset=utf-8;base64,"));
}

#[test]
fn speed_dial_renders_tiles() {
    let tiles = vec![
        Tile { title: "Rust".into(), url: "https://rust-lang.org".into(), source: TileSource::Bookmark },
        Tile { title: "".into(), url: "https://github.com/w1ck3ds0d4".into(), source: TileSource::History },
    ];
    let html = render(SearchEngine::DuckDuckGo, &tiles, "");
    assert!(html.contains("https://rust-lang.org"));
    assert!(html.contains(">Rust<"));
    assert!(html.contains("github.com"));
}

#[test]
fn speed_dial_shows_empty_hint_when_no_tiles() {
    let html = render(SearchEngine::DuckDuckGo, &[], "");
    assert!(html.contains("no visits yet"));
}

#[test]
fn html_escaping_blocks_injection() {
    let tiles = vec![Tile {
        title: "<script>alert(1)</script>".into(),
        url: "https://evil.example".into(),
        source: TileSource::History,
    }];
    let html = render(SearchEngine::DuckDuckGo, &tiles, "");
    assert!(!html.contains("<script>alert(1)</script>"));
    assert!(html.contains("&lt;script&gt;"));
}

#[test]
fn display_url_strips_www() {
    assert_eq!(display_url("https://www.rust-lang.org/learn"), "rust-lang.org");
    assert_eq!(display_url("not a url"), "not a url");
}

#[test]
fn tile_source_labels() {
    assert_eq!(TileSource::Bookmark.label(), "[b]");
    assert_eq!(TileSource::History.label(), "[h]");
}

fn bm(url: &str, title: &str) -> blueflame::storage::Bookmark {
    blueflame::storage::Bookmark { url: url.into(), title: title.into(), created_at: 0 }
}

fn seen(url: &str) -> blueflame::storage::Visit {
    blueflame::storage::Visit { id: 0, url: url.into(), title: url.into(), visited_at: 0, visit_count: 1 }
}

#[test]
fn speed_dial_prefers_bookmarks_and_dedupes() {
    let bookmarks = vec![bm("https://a.example", "A"), bm("https://a.example", "A again"), bm("https://b.example", "B")];
    let history = vec![seen("https://b.example"), seen("https://c.example"), seen("https://d.example")];
    let tiles = speed_dial_tiles(&bookmarks, &history, 3);
    let urls: Vec<&str> = tiles.iter().map(|t| t.url.as_str()).collect();
    assert_eq!(urls, vec!["https://a.example", "https://b.example", "https://c.example"]);
    assert_eq!(tiles[0].source, TileSource::Bookmark);
    assert_eq!(tiles[2].source, TileSource::History);
    let only_two = speed_dial_tiles(&bookmarks, &history, 1);
    assert_eq!(only_two.len(), 1);
    assert!(speed_dial_tiles(&Vec::new(), &Vec::new(), 8).is_empty());
}
