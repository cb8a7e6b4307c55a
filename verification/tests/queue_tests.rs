use xdcc_extractor::queue::JobQueue;

#[test]
fn queue_starts_empty() {
    let queue = JobQueue::new();

    assert!(queue.is_empty());
    assert_eq!(queue.len(), 0);
}

#[test]
fn queue_pushes_and_pops_in_order() {
    let mut queue = JobQueue::new();

    let first = "/downloads/first.rar".to_string();
    let second = "/downloads/second.rar".to_string();

    assert!(queue.push(first.clone()));
    assert!(queue.push(second.clone()));

    assert_eq!(queue.len(), 2);
    assert_eq!(queue.pop(), Some(first));
    assert_eq!(queue.pop(), Some(second));
    assert!(queue.is_empty());
}

#[test]
fn queue_ignores_duplicates() {
    let mut queue = JobQueue::new();

    let job = "/downloads/movie.rar".to_string();

    assert!(queue.push(job.clone()));
    assert!(!queue.push(job));

    assert_eq!(queue.len(), 1);
}

#[test]
fn queue_pop_on_empty_is_none() {
    let mut queue = JobQueue::new();
    assert_eq!(queue.pop(), None);
}

#[test]
fn queue_compares_paths_not_text() {
    let mut queue = JobQueue::new();
    assert!(queue.push("/a/b".to_string()));
    assert!(!queue.push("/a/b/".to_string()));
    assert!(!queue.push("/a//b".to_string()));
    assert_eq!(queue.len(), 1);
    assert_eq!(queue.pop().as_deref(), Some("/a/b"));
}
