pub mod clean_urls;
