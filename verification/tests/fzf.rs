//! Choosing from a list.

use kv_cli::fzf::{picker_args, picker_input, select, selection, SelectError};

fn items(list: &[&str]) -> Vec<String> {
    list.iter().map(|s| s.to_string()).collect()
}

#[test]
fn every_item_stands_behind_its_number() {
    let input = picker_input(&items(&["alpha", "be\tta", ""]));
    assert_eq!(input, "0\talpha\n1\tbe\tta\n2\t\n");
    assert_eq!(picker_input(&Vec::new()), "");
}

#[test]
fn the_number_is_hidden() {
    let rest = ["--prompt", "Select key > ", "--with-nth", "2..", "--delimiter", "\t"];
    assert_eq!(picker_args(false, "Select key > "), rest);
    let many = picker_args(true, "Select key > ");
    assert_eq!(many[0], "--multi");
    assert_eq!(many[1..], rest);
}

#[test]
fn chosen_lines_come_back_in_their_order() {
    let list = items(&["a", "b\tc", "d\r", "e"]);
    let input = picker_input(&list);
    let lines: Vec<&str> = input.split_terminator('\n').collect();
    let output = format!("{}\n{}\n", lines[2], lines[1]);
    assert_eq!(selection(&output, 4), Ok(vec![2, 1]));
    assert_eq!(select(output.as_bytes(), 4), Ok(vec![2, 1]));
}

#[test]
fn lines_without_a_number_are_passed_over() {
    assert_eq!(selection("x\tfoo\n1\tbar", 2), Ok(vec![1]));
    assert_eq!(selection("99999999999999999999\tx\n0\ty\n", 2), Ok(vec![0]));
    assert_eq!(selection("+1\tx", 2), Ok(vec![1]));
}

#[test]
fn nothing_chosen_is_an_error() {
    assert_eq!(select(b"", 3), Err(SelectError::Nothing));
    assert_eq!(select(b"\n", 3), Err(SelectError::Nothing));
    assert_eq!(selection("none", 3), Err(SelectError::Nothing));
}

#[test]
fn a_number_of_no_item_is_an_error() {
    assert_eq!(selection("0\ta\n7\tb\n9\tc", 3), Err(SelectError::OutOfRange(7)));
    assert_eq!(selection("0\ta", 0), Err(SelectError::OutOfRange(0)));
}

#[test]
fn output_need_not_be_utf8() {
    assert_eq!(select(b"1\t\xff\xfe\n", 2), Ok(vec![1]));
    assert_eq!(select(b"\xff1\tx\n", 2), Err(SelectError::Nothing));
}
