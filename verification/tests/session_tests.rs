use shellai::codeblocks::extract_code_blocks;
use shellai::openai::classify_response;
use shellai::session::{get_available_models, select_model, should_execute, turn_action, TurnAction};

#[test]
fn catalog_lists_the_three_models() {
    let models = get_available_models();
    assert_eq!(models.len(), 3);
    assert_eq!(models[0].name, "GPT-4");
    assert_eq!(models[0].model_id, "gpt-4");
    assert_eq!(models[1].name, "GPT-3.5 Turbo");
    assert_eq!(models[1].model_id, "gpt-3.5-turbo");
    assert_eq!(models[2].name, "GPT-4o");
    assert_eq!(models[2].model_id, "gpt-4o");
    for model in &models {
        assert!(!model.description.is_empty());
    }
}

#[test]
fn numeric_selection_picks_a_model() {
    let models = get_available_models();
    let picked = select_model(&models, Some(2)).expect("2 picks the second model");
    assert_eq!(picked.model_id, "gpt-3.5-turbo");
    assert!(select_model(&models, Some(0)).is_none());
    assert!(select_model(&models, Some(4)).is_none());
    assert!(select_model(&models, None).is_none());
}

#[test]
fn empty_submission_is_skipped() {
    assert_eq!(turn_action(""), TurnAction::Skip);
    assert_eq!(turn_action("list files"), TurnAction::Ask);
}

#[test]
fn only_y_confirms_execution() {
    assert!(should_execute("y"));
    assert!(should_execute("Y"));
    assert!(should_execute("  y \n"));
    assert!(!should_execute("yes"));
    assert!(!should_execute("n"));
    assert!(!should_execute(""));
    assert!(!should_execute(" "));
}

#[test]
fn declined_block_is_skipped_and_the_loop_continues() {
    // One full turn against a canned endpoint answer: the prompt is sent,
    // the reply carries one bash block, the operator declines, nothing runs,
    // and the next turn proceeds.
    assert_eq!(turn_action("list files"), TurnAction::Ask);
    let endpoint_body =
        "{\"choices\":[{\"message\":{\"role\":\"assistant\",\"content\":\"Run this:\\n```bash\\necho hi\\n```\"}}]}";
    let reply = classify_response(true, endpoint_body.to_string()).expect("a reply is owed");
    assert_eq!(reply, "Run this:\n```bash\necho hi\n```");
    let blocks = extract_code_blocks(&reply);
    assert_eq!(blocks, vec!["echo hi".to_string()]);
    let mut executed: usize = 0;
    for _block in &blocks {
        if should_execute("n") {
            executed += 1;
        }
    }
    assert_eq!(executed, 0);
    assert_eq!(turn_action("and now?"), TurnAction::Ask);
}
