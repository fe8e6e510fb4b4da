use sitemap_count::report::{leaf_sitemaps, UrlCounts};
use sitemap_count::survey::Survey;

fn urlset(n: usize) -> String {
    let mut s = String::from("<urlset>");
    for i in 0..n {
        s.push_str(&format!("<url><loc>https://e.org/{}</loc></url>", i));
    }
    s.push_str("</urlset>");
    s
}

#[test]
fn leaves_fall_back_to_root() {
    assert_eq!(leaf_sitemaps("https://e.org/s.xml", Vec::new()), vec!["https://e.org/s.xml".to_string()]);
}

#[test]
fn leaves_are_the_children() {
    let c = vec!["a".to_string(), "b".to_string()];
    assert_eq!(leaf_sitemaps("r", c.clone()), c);
}

#[test]
fn record_overwrites_a_repeated_url() {
    let mut c = UrlCounts::new();
    c.record("a".to_string(), 4);
    c.record("b".to_string(), 2);
    c.record("a".to_string(), 9);
    assert_eq!(c.entries(), &vec![("a".to_string(), 9), ("b".to_string(), 2)]);
    assert_eq!(c.total(), Some(11));
}

#[test]
fn total_of_nothing_is_zero() {
    assert_eq!(UrlCounts::new().total(), Some(0));
}

#[test]
fn total_that_overflows_is_none() {
    let mut c = UrlCounts::new();
    c.record("a".to_string(), usize::MAX);
    assert_eq!(c.total(), Some(usize::MAX));
    c.record("b".to_string(), 1);
    assert_eq!(c.total(), None);
}

#[test]
fn survey_of_leaf_root_counts_root() {
    let root = "https://e.org/sitemap.xml";
    let doc = urlset(3);
    let mut s = Survey::start(root, &doc).unwrap();
    assert_eq!(s.next_url(), Some(root.to_string()));
    s.deliver(&doc).unwrap();
    assert!(s.finished());
    assert_eq!(s.next_url(), None);
    assert_eq!(s.counts_so_far().entries(), &vec![(root.to_string(), 3)]);
    assert_eq!(s.counts_so_far().total(), Some(3));
}

#[test]
fn survey_of_index_counts_each_child() {
    let index = "<sitemapindex><sitemap><loc>https://e.org/a.xml</loc></sitemap><sitemap><loc>https://e.org/b.xml</loc></sitemap></sitemapindex>";
    let mut s = Survey::start("https://e.org/index.xml", index).unwrap();
    let mut fetched = Vec::new();
    while let Some(url) = s.next_url() {
        let doc = if url.ends_with("a.xml") { urlset(5) } else { urlset(7) };
        fetched.push(url);
        s.deliver(&doc).unwrap();
    }
    assert_eq!(fetched, vec!["https://e.org/a.xml".to_string(), "https://e.org/b.xml".to_string()]);
    assert_eq!(
        s.counts_so_far().entries(),
        &vec![("https://e.org/a.xml".to_string(), 5), ("https://e.org/b.xml".to_string(), 7)]
    );
    assert_eq!(s.counts_so_far().total(), Some(12));
}

#[test]
fn survey_stops_on_malformed_leaf() {
    let mut s = Survey::start("r", "<urlset></urlset>").unwrap();
    assert!(s.deliver("<urlset><url></urlset>").is_err());
    assert!(!s.finished());
    assert_eq!(s.counts_so_far().total(), Some(0));
}

#[test]
fn survey_refuses_malformed_root() {
    assert!(Survey::start("r", "<sitemapindex><sitemap></sitemapindex>").is_err());
}
