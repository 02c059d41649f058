// Crawling, reading and summarizing published course-evaluation reports.
//
// `crawl` discovers report ids and decides the retry rounds, `page` and `parser` read a
// report page into a record, `stats` turns response counts into weighted means, and
// `ingest` shapes the rows that are stored. The I/O around them lives outside the library.

pub mod catalog;
pub mod crawl;
pub mod ingest;
pub mod model;
pub mod page;
pub mod parser;
pub mod pattern;
pub mod session;
pub mod settings;
pub mod stats;
pub mod text;
