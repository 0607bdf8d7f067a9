use rget::{download_plan, hash_file_name, CrawlAction, Crawler, PageOutcome, Tree, ROOT};
use std::collections::HashMap;
use std::hash::{DefaultHasher, Hash, Hasher};

fn links(v: &[&str]) -> PageOutcome {
    PageOutcome::Links(v.iter().map(|s| s.to_string()).collect())
}

/// Runs a crawl against a fixed set of pages; an address without a page is
/// terminal.
fn run(root: &str, max_depth: usize, pages: &HashMap<&str, Vec<&str>>) -> (Tree<String>, Vec<String>) {
    let mut c = Crawler::new(root.to_string(), max_depth);
    let mut fetched = Vec::new();
    loop {
        match c.next_action() {
            CrawlAction::Done => break,
            CrawlAction::Fetch(url) => {
                let outcome = match pages.get(url.as_str()) {
                    Some(ls) => links(ls),
                    None => PageOutcome::Terminal,
                };
                fetched.push(url);
                c.record(outcome);
            }
        }
    }
    (c.into_tree(), fetched)
}

fn values(t: &Tree<String>) -> Vec<String> {
    t.traverse().into_iter().cloned().collect()
}

#[test]
fn depth_one_gives_root_and_its_links() {
    let mut pages = HashMap::new();
    pages.insert("https://r/", vec!["https://r/a", "https://r/b", "https://r/c"]);
    pages.insert("https://r/a", vec!["https://r/deeper"]);
    let (t, fetched) = run("https://r/", 1, &pages);
    assert_eq!(values(&t), vec!["https://r/", "https://r/a", "https://r/b", "https://r/c"]);
    assert_eq!(t.root().children().len(), 3);
    assert_eq!(fetched, vec!["https://r/"]);
}

#[test]
fn depth_zero_fetches_root_only() {
    let mut pages = HashMap::new();
    pages.insert("https://r/", vec!["https://r/a", "https://r/b"]);
    let (t, fetched) = run("https://r/", 0, &pages);
    assert_eq!(fetched, vec!["https://r/"]);
    assert_eq!(t.len(), 1);
    assert!(t.root().children().is_empty());
}

#[test]
fn depth_two_crawl_then_plan_downloads() {
    let mut pages = HashMap::new();
    pages.insert("https://r/", vec!["https://r/a", "https://r/b"]);
    pages.insert("https://r/a", vec!["https://r/a/1"]);
    pages.insert("https://r/b", vec!["https://r/b/1"]);
    let (t, _) = run("https://r/", 2, &pages);
    let plan = download_plan(&t);
    let urls: Vec<&str> = plan.iter().map(|j| j.url.as_str()).collect();
    assert_eq!(urls, vec!["https://r/", "https://r/a", "https://r/b"]);
    for job in &plan {
        let mut h = DefaultHasher::new();
        job.url.hash(&mut h);
        assert_eq!(job.file_name, format!("{:x}", h.finish()));
        assert_eq!(job.file_name, hash_file_name(job.url.clone()));
    }
}

#[test]
fn depth_three_expands_two_levels() {
    let mut pages = HashMap::new();
    pages.insert("https://r/", vec!["https://r/a", "https://r/b"]);
    pages.insert("https://r/a", vec!["https://r/a/1"]);
    pages.insert("https://r/b", vec!["https://r/b/1"]);
    pages.insert("https://r/a/1", vec!["https://r/too/deep"]);
    let (t, fetched) = run("https://r/", 3, &pages);
    assert_eq!(
        values(&t),
        vec!["https://r/", "https://r/a", "https://r/b", "https://r/a/1", "https://r/b/1"]
    );
    assert_eq!(fetched, vec!["https://r/", "https://r/a", "https://r/b"]);
    assert_eq!(t.depth(), 3);
}

#[test]
fn terminal_pages_still_close_their_level() {
    let mut pages = HashMap::new();
    pages.insert("https://r/", vec!["https://r/pdf", "https://r/html"]);
    pages.insert("https://r/html", vec!["https://r/next"]);
    pages.insert("https://r/next", vec!["https://r/last"]);
    let (t, fetched) = run("https://r/", 4, &pages);
    assert_eq!(
        fetched,
        vec!["https://r/", "https://r/pdf", "https://r/html", "https://r/next"]
    );
    assert_eq!(t.len(), 5);
    assert_eq!(t.depth(), 4);
}

#[test]
fn crawl_stops_when_nothing_waits() {
    let pages = HashMap::new();
    let (t, fetched) = run("https://r/", 10, &pages);
    assert_eq!(fetched, vec!["https://r/"]);
    assert_eq!(t.len(), 1);
}

#[test]
fn repeated_urls_become_separate_nodes() {
    let mut pages = HashMap::new();
    pages.insert("https://r/", vec!["https://r/", "https://r/"]);
    let (t, _) = run("https://r/", 1, &pages);
    assert_eq!(values(&t), vec!["https://r/", "https://r/", "https://r/"]);
}

#[test]
fn state_is_exposed_between_steps() {
    let mut c = Crawler::new("https://r/".to_string(), 2);
    assert!(!c.awaiting());
    match c.next_action() {
        CrawlAction::Fetch(u) => assert_eq!(u, "https://r/"),
        CrawlAction::Done => panic!("the root is always fetched"),
    }
    assert!(c.awaiting());
    assert!(c.wants_links());
    assert!(c.failure_aborts());
    c.record(links(&["https://r/x"]));
    assert!(!c.awaiting());
    assert_eq!(c.tree().depth(), 2);
    assert_eq!(c.tree().node(ROOT).children(), &vec![1]);
    assert!(matches!(c.next_action(), CrawlAction::Done));
}

#[test]
fn failures_below_the_root_do_not_abort() {
    let mut c = Crawler::new("https://r/".to_string(), 3);
    c.next_action();
    c.record(links(&["https://r/a", "https://r/b"]));
    match c.next_action() {
        CrawlAction::Fetch(u) => assert_eq!(u, "https://r/a"),
        CrawlAction::Done => panic!("a child waits"),
    }
    assert!(!c.failure_aborts());
    c.record(PageOutcome::Terminal);
    match c.next_action() {
        CrawlAction::Fetch(u) => assert_eq!(u, "https://r/b"),
        CrawlAction::Done => panic!("a sibling waits"),
    }
}

#[test]
fn depth_zero_wants_no_links() {
    let mut c = Crawler::new("https://r/".to_string(), 0);
    c.next_action();
    assert!(!c.wants_links());
    c.record(links(&["https://r/a"]));
    assert_eq!(c.tree().len(), 1);
}
