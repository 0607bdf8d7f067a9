//! A link-discovering fetcher: a FIFO queue, an arena tree of discovered
//! resources, a content-type classifier, a link extractor, the breadth-first
//! crawl engine and the bookkeeping of the download phase.
pub mod command;
pub mod content;
pub mod crawl;
pub mod dispatch;
pub mod links;
pub mod queue;
pub mod spinner;
pub mod text;
pub mod tree;

pub use command::{command_from_words, parse_command, Command};
pub use content::{ContentType, TextType};
pub use crawl::{CrawlAction, Crawler, PageOutcome};
pub use dispatch::{download_plan, file_name_for_hash, hash_file_name, DownloadJob, DownloadPool};
pub use links::{find_https_links_with_parser, links_from_attrs};
pub use queue::Queue;
pub use spinner::Spinner;
pub use tree::{Tree, TreeNode, ROOT};
