use sitemap_count::normalize::{clean_xml_content, decode_body, replace_chars, trim_chars, FetchError};
use sitemap_count::scan::{count_urls, extract_sitemaps, scan_locs, ParseError};

#[test]
fn clean_decodes_each_entity_once() {
    assert_eq!(clean_xml_content("&amp;lt;"), "&lt;");
}

#[test]
fn clean_replaces_the_four_entities() {
    assert_eq!(clean_xml_content("&lt;a&gt; &quot;x&quot; &amp; y"), "<a> \"x\" & y");
}

#[test]
fn clean_trims_both_ends() {
    assert_eq!(clean_xml_content(" \n\t <urlset/>\r\n "), "<urlset/>");
    assert_eq!(clean_xml_content("\u{3000}x\u{a0}"), "x");
    assert_eq!(clean_xml_content("   "), "");
    assert_eq!(clean_xml_content(""), "");
}

#[test]
fn clean_keeps_other_references() {
    assert_eq!(clean_xml_content("&apos;&#65;&lt"), "&apos;&#65;&lt");
}

#[test]
fn replace_is_left_to_right_without_overlap() {
    let s: Vec<char> = "aaaa".chars().collect();
    let p: Vec<char> = "aa".chars().collect();
    let r: Vec<char> = "b".chars().collect();
    assert_eq!(replace_chars(&s, &p, &r), vec!['b', 'b']);
    let s: Vec<char> = "aaa".chars().collect();
    assert_eq!(replace_chars(&s, &p, &r), vec!['b', 'a']);
}

#[test]
fn trim_of_white_space_only_is_empty() {
    let s: Vec<char> = " \u{2028} ".chars().collect();
    assert_eq!(trim_chars(&s), Vec::<char>::new());
    let s: Vec<char> = " a b ".chars().collect();
    assert_eq!(trim_chars(&s), vec!['a', ' ', 'b']);
}

#[test]
fn decode_body_cleans_utf8() {
    assert_eq!(decode_body(b"  &lt;x&gt; \n"), Ok("<x>".to_string()));
    assert_eq!(decode_body("é".as_bytes()), Ok("é".to_string()));
}

#[test]
fn decode_body_refuses_invalid_utf8() {
    assert_eq!(decode_body(&[0x66, 0xff, 0x66]), Err(FetchError::EncodingFailure));
}

#[test]
fn extract_two_children_in_order() {
    let doc = "<sitemapindex><sitemap><loc>A</loc></sitemap><sitemap><loc>B</loc></sitemap></sitemapindex>";
    assert_eq!(extract_sitemaps(doc), Ok(vec!["A".to_string(), "B".to_string()]));
}

#[test]
fn extract_from_urlset_is_empty() {
    assert_eq!(extract_sitemaps("<urlset><url><loc>X</loc></url></urlset>"), Ok(Vec::new()));
}

#[test]
fn extract_trims_and_unescapes_text() {
    let doc = "<sitemapindex>\n  <sitemap>\n    <loc>\n  https://e.org/a?x=1&amp;y=2  </loc>\n  </sitemap>\n</sitemapindex>";
    assert_eq!(extract_sitemaps(doc), Ok(vec!["https://e.org/a?x=1&y=2".to_string()]));
}

#[test]
fn extract_matches_local_names() {
    let doc = "<sm:sitemapindex xmlns:sm=\"u\"><sm:sitemap><sm:loc>A</sm:loc></sm:sitemap></sm:sitemapindex>";
    assert_eq!(extract_sitemaps(doc), Ok(vec!["A".to_string()]));
}

#[test]
fn extract_ignores_loc_outside_sitemap() {
    let doc = "<sitemapindex><loc>no</loc><sitemap><lastmod>d</lastmod><loc>A</loc></sitemap></sitemapindex>";
    assert_eq!(extract_sitemaps(doc), Ok(vec!["A".to_string()]));
}

#[test]
fn extract_refuses_unknown_entity_in_loc() {
    let doc = "<sitemapindex><sitemap><loc>a&bogus;b</loc></sitemap></sitemapindex>";
    assert_eq!(extract_sitemaps(doc), Err(ParseError));
}

#[test]
fn count_two_urls() {
    assert_eq!(count_urls("<urlset><url><loc>X</loc></url><url><loc>Y</loc></url></urlset>"), Ok(2));
}

#[test]
fn count_skips_loc_outside_url() {
    assert_eq!(count_urls("<urlset><loc>ignored</loc><url><loc>X</loc></url></urlset>"), Ok(1));
}

#[test]
fn count_of_index_is_zero() {
    let doc = "<sitemapindex><sitemap><loc>A</loc></sitemap></sitemapindex>";
    assert_eq!(count_urls(doc), Ok(0));
}

#[test]
fn count_of_empty_document_is_zero() {
    assert_eq!(count_urls(""), Ok(0));
}

#[test]
fn malformed_mismatched_end_is_refused() {
    let doc = "<urlset><url><loc>X</loc></urlset>";
    assert_eq!(count_urls(doc), Err(ParseError));
    assert_eq!(extract_sitemaps("<sitemapindex><sitemap><loc>A</loc></sitemapindex>"), Err(ParseError));
}

#[test]
fn malformed_unclosed_tag_is_refused() {
    assert_eq!(count_urls("<urlset><url><loc>X</loc></url><url"), Err(ParseError));
    assert_eq!(extract_sitemaps("<sitemapindex><sitemap><loc>A</loc></sitemap><sitemap"), Err(ParseError));
}

#[test]
fn scan_collects_texts_of_named_parent() {
    let doc = "<a><b><loc>1</loc></b><c><loc>2</loc></c><b><loc>3</loc></b></a>";
    assert_eq!(scan_locs(doc, true, &b"b".to_vec()), Ok(vec!["1".to_string(), "3".to_string()]));
}
