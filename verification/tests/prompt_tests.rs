use shellai::prompt::{
    build_directory_aware_prompt, build_system_prompt, default_system_prompt, dir_name_or_unknown,
    system_prompt_or_default, DirSnapshot,
};

#[test]
fn test_build_system_prompt() {
    let prompt = build_system_prompt("/home/user/project", "project", "📄 a.txt\n");
    assert!(prompt.contains("Current working directory:"));
    assert!(prompt.contains("Directory name:"));
    assert!(prompt.contains("Directory structure:"));
    assert!(prompt.contains("/home/user/project"));
    assert!(prompt.contains("📄 a.txt"));
}

#[test]
fn test_build_directory_aware_prompt() {
    let base_prompt = "This is a test prompt.";
    let prompt = build_directory_aware_prompt(base_prompt, "/srv/data", "data", "📁 sub/\n");
    assert!(prompt.contains("Current working directory:"));
    assert!(prompt.contains("Directory name:"));
    assert!(prompt.contains("Directory structure:"));
    assert!(prompt.contains(base_prompt));
}

#[test]
fn scan_failure_falls_back_to_default_verbatim() {
    // A failed scan hands no snapshot over; the prompt is the fixed default,
    // word for word, and nothing fails.
    let fallback = system_prompt_or_default(None);
    assert_eq!(fallback, default_system_prompt());
    assert!(fallback.starts_with("You are ShellAI, a helpful AI assistant in a terminal environment."));
    assert!(!fallback.contains("Current working directory:"));
}

#[test]
fn snapshot_prompt_carries_the_snapshot() {
    let snapshot = DirSnapshot {
        path: "/work".to_string(),
        name: "work".to_string(),
        tree: "📄 notes.md\n".to_string(),
    };
    let prompt = system_prompt_or_default(Some(&snapshot));
    assert_eq!(
        prompt,
        build_system_prompt("/work", "work", "📄 notes.md\n")
    );
    assert!(prompt.contains("Current working directory: /work\n"));
}

#[test]
fn missing_directory_name_becomes_unknown() {
    assert_eq!(dir_name_or_unknown(None), "unknown");
    assert_eq!(dir_name_or_unknown(Some("proj".to_string())), "proj");
}
