use bsz::sitemap::parse_sitemap;

#[test]
fn sitemap_page_urls() {
    let xml = r#"<?xml version="1.0"?>
<urlset xmlns="http://www.sitemaps.org/schemas/sitemap/0.9">
  <url><loc> https://a.com/x </loc></url>
  <url><loc>https://a.com/nested.xml</loc></url>
  <url><lastmod>2024</lastmod><loc>https://a.com/y</loc></url>
</urlset>"#;
    assert_eq!(parse_sitemap(xml), Some(vec!["https://a.com/x".to_string(), "https://a.com/y".to_string()]));
    assert_eq!(parse_sitemap("<not closed"), None);
}
