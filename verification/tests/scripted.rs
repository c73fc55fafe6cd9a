use ostrich::policy::{SelectionPicker, StaticWriter};
use ostrich::querier::{PromptError, Querier, Script};
use std::cell::RefCell;

fn quiet_line(_line: String) {}

fn script_of(lines: &[&str]) -> Script {
    let mut owned: Vec<String> = Vec::new();
    for line in lines {
        owned.push(String::from(*line));
    }
    Script::new(owned)
}

#[test]
fn script_hands_out_its_lines_in_order() {
    let mut script = script_of(&["a", "", "c"]);
    assert_eq!(script.lines_read(), 0);
    assert_eq!(script.next_line(), Some(String::from("a")));
    assert_eq!(script.lines_read(), 1);
    assert_eq!(script.next_line(), Some(String::new()));
    assert_eq!(script.next_line(), Some(String::from("c")));
    assert_eq!(script.lines_read(), 3);
    assert_eq!(script.next_line(), None);
    assert_eq!(script.next_line(), None);
    assert_eq!(script.lines_read(), 3);
}

#[test]
fn scripted_menu_prompt_reads_foo_then_create_and_no_further() {
    let menu = SelectionPicker::new(Box::new(["create", "edit"]), "Write 'create' or 'edit'");
    let mut script = script_of(&["foo", "create", "edit"]);
    let result = Querier::new().prompt_script(&menu, quiet_line, &mut script);
    assert_eq!(result, Some(Ok(String::from("create"))));
    assert_eq!(script.lines_read(), 2);
    assert_eq!(script.next_line(), Some(String::from("edit")));
}

#[test]
fn scripted_field_prompt_reads_empty_then_name() {
    let field = StaticWriter::new("Write filename");
    let mut script = script_of(&["", "hello.txt"]);
    let result = Querier::new().prompt_script(&field, quiet_line, &mut script);
    assert_eq!(result, Some(Ok(String::from("hello.txt"))));
    assert_eq!(script.lines_read(), 2);
}

#[test]
fn scripted_prompt_reads_exactly_to_the_first_accepted_line() {
    let menu = SelectionPicker::new(Box::new(["create", "edit"]), "Pick one");
    let lines = ["a", "b", "c", "d", "edit", "create", "e"];
    for querier in [Querier::new(), Querier::bounded(5), Querier::bounded(50)] {
        let mut script = script_of(&lines);
        let result = querier.prompt_script(&menu, quiet_line, &mut script);
        assert_eq!(result, Some(Ok(String::from("edit"))));
        assert_eq!(script.lines_read(), 5);
    }
}

#[test]
fn scripted_prompt_times_out_after_exactly_three_lines() {
    let menu = SelectionPicker::new(Box::new(["create", "edit"]), "Pick one");
    let mut script = script_of(&["a", "b", "c", "d", "e"]);
    let result = Querier::bounded(3).prompt_script(&menu, quiet_line, &mut script);
    assert_eq!(result, Some(Err(PromptError::PromptTimeout)));
    assert_eq!(script.lines_read(), 3);
}

#[test]
fn scripted_prompt_times_out_before_a_later_accepted_line() {
    let menu = SelectionPicker::new(Box::new(["create", "edit"]), "Pick one");
    let mut script = script_of(&["a", "b", "create"]);
    let result = Querier::bounded(2).prompt_script(&menu, quiet_line, &mut script);
    assert_eq!(result, Some(Err(PromptError::PromptTimeout)));
    assert_eq!(script.lines_read(), 2);
}

#[test]
fn scripted_prompt_without_a_limit_has_no_outcome_when_the_source_runs_dry() {
    let menu = SelectionPicker::new(Box::new(["create", "edit"]), "Pick one");
    let mut script = script_of(&["a", "b", "c"]);
    let result = Querier::new().prompt_script(&menu, quiet_line, &mut script);
    assert_eq!(result, None);
    assert_eq!(script.lines_read(), 3);
    let mut nothing = script_of(&[]);
    assert_eq!(Querier::new().prompt_script(&menu, quiet_line, &mut nothing), None);
    assert_eq!(nothing.lines_read(), 0);
}

#[test]
fn scripted_prompt_under_a_wide_limit_has_no_outcome_when_the_source_runs_dry() {
    let field = StaticWriter::new("Write filename");
    let mut script = script_of(&["", ""]);
    let result = Querier::bounded(3).prompt_script(&field, quiet_line, &mut script);
    assert_eq!(result, None);
    assert_eq!(script.lines_read(), 2);
}

#[test]
fn scripted_prompt_without_attempts_reads_nothing() {
    let field = StaticWriter::new("Write filename");
    let mut script = script_of(&["ready"]);
    let result = Querier::bounded(0).prompt_script(&field, quiet_line, &mut script);
    assert_eq!(result, Some(Err(PromptError::PromptTimeout)));
    assert_eq!(script.lines_read(), 0);
}

#[test]
fn scripted_prompts_go_on_where_the_last_one_stopped() {
    let menu = SelectionPicker::new(Box::new(["create", "edit"]), "Write 'create' or 'edit'");
    let field = StaticWriter::new("Write filename");
    let mut script = script_of(&["open", "edit", "", "notes.txt", "create"]);
    let shown: RefCell<Vec<String>> = RefCell::new(Vec::new());
    let querier = Querier::new();
    let choice = querier.prompt_script(
        &menu,
        |line: String| shown.borrow_mut().push(line),
        &mut script,
    );
    assert_eq!(choice, Some(Ok(String::from("edit"))));
    assert_eq!(script.lines_read(), 2);
    let name = querier.prompt_script(
        &field,
        |line: String| shown.borrow_mut().push(line),
        &mut script,
    );
    assert_eq!(name, Some(Ok(String::from("notes.txt"))));
    assert_eq!(script.lines_read(), 4);
    let expected: Vec<String> = vec![
        String::from("Write 'create' or 'edit'"),
        String::from("Write 'create' or 'edit'"),
        String::from("Write filename"),
        String::from("Write filename"),
    ];
    assert_eq!(*shown.borrow(), expected);
}
