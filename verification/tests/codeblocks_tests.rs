use shellai::codeblocks::extract_code_blocks;

#[test]
fn two_blocks_tagged_and_untagged() {
    // One bash-tagged and one untagged block: both extracted, in source
    // order, each trimmed.
    let reply = "First do this:\n```bash\necho one\n```\nthen that:\n```\n  echo two  \n```\nend.";
    let blocks = extract_code_blocks(reply);
    assert_eq!(blocks.len(), 2);
    assert_eq!(blocks[0], "echo one");
    assert_eq!(blocks[1], "echo two");
}

#[test]
fn no_fences_no_blocks() {
    let blocks = extract_code_blocks("just prose, nothing to run");
    assert!(blocks.is_empty());
}

#[test]
fn sh_tag_is_recognized() {
    let blocks = extract_code_blocks("```sh\npwd\n```");
    assert_eq!(blocks, vec!["pwd".to_string()]);
}

#[test]
fn unclosed_fence_yields_nothing() {
    let blocks = extract_code_blocks("```bash\necho never closed");
    assert!(blocks.is_empty());
}

#[test]
fn bodies_are_trimmed() {
    let blocks = extract_code_blocks("``` \n\t  ls -l  \n ```");
    assert_eq!(blocks, vec!["ls -l".to_string()]);
}

#[test]
fn other_language_tag_stays_in_body() {
    // A tag other than bash or sh is not consumed; only the sh prefix of
    // shell is.
    let blocks = extract_code_blocks("```python\nprint(1)\n```");
    assert_eq!(blocks, vec!["python\nprint(1)".to_string()]);
}

#[test]
fn empty_block_is_kept_empty() {
    let blocks = extract_code_blocks("``````");
    assert_eq!(blocks, vec![String::new()]);
}
