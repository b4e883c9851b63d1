use dialog_core::commandfile::CommandFileTail;

/// Poll as the watcher does: given the file's current content, read what
/// lies beyond the tail's offset.
fn poll(tail: &mut CommandFileTail, content: &str) -> Vec<String> {
    let len = content.len() as u64;
    if !tail.check_len(len) {
        return Vec::new();
    }
    let start = tail.offset() as usize;
    tail.take_text(len, &content[start..])
}

#[test]
fn reads_only_new_appends() {
    let mut tail = CommandFileTail::new(false, "old: content\n".len() as u64);
    assert!(poll(&mut tail, "old: content\n").is_empty());
    let content = "old: content\ntitle: New\nprogress: 3\n";
    assert_eq!(poll(&mut tail, content), vec!["title: New", "progress: 3"]);
    assert!(poll(&mut tail, content).is_empty());
}

#[test]
fn truncation_resets_to_start() {
    let mut tail = CommandFileTail::new(false, "a: 1\nb: 2\n".len() as u64);
    assert!(poll(&mut tail, "").is_empty());
    assert_eq!(tail.offset(), 0);
    assert_eq!(poll(&mut tail, "title: fresh\n"), vec!["title: fresh"]);
}

#[test]
fn partial_lines_carry_over() {
    let mut tail = CommandFileTail::new(true, 0);
    assert!(poll(&mut tail, "title: ha").is_empty());
    assert_eq!(poll(&mut tail, "title: half then whole\n"), vec!["title: half then whole"]);
}

#[test]
fn blank_lines_are_dropped() {
    let mut tail = CommandFileTail::new(true, 0);
    assert_eq!(poll(&mut tail, "\n  \ntitle: x\n\t\nquit:\n"), vec!["title: x", "quit:"]);
}

#[test]
fn two_chunks_read_like_one() {
    let mut whole = CommandFileTail::new(true, 0);
    let all = whole.take_text(20, "a: 1\nb: 2\nc: 3");
    let mut split = CommandFileTail::new(true, 0);
    let mut parts = split.take_text(7, "a: 1\nb:");
    parts.extend(split.take_text(20, " 2\nc: 3"));
    assert_eq!(all, parts);
    assert_eq!(all, vec!["a: 1", "b: 2"]);
    let rest = whole.take_text(21, "\n");
    assert_eq!(rest, vec!["c: 3"]);
    assert_eq!(split.take_text(21, "\n"), rest);
}
