use todos::Command;
use todos::select_command;

#[test]
fn add_flag_selects_add() {
    let c = select_command(Some(String::from("buy milk")), false, None, None, None);
    assert!(matches!(c, Command::Add(ref d) if d == "buy milk"));
}

#[test]
fn add_wins_over_every_other_flag() {
    let c = select_command(Some(String::from("x")), true, Some(1), Some(2), Some(3));
    assert!(matches!(c, Command::Add(ref d) if d == "x"));
}

#[test]
fn list_wins_over_later_flags() {
    let c = select_command(None, true, Some(1), Some(2), Some(3));
    assert!(matches!(c, Command::List));
}

#[test]
fn complete_wins_over_reopen_and_delete() {
    let c = select_command(None, false, Some(4), Some(5), Some(6));
    assert!(matches!(c, Command::Complete(4)));
}

#[test]
fn reopen_wins_over_delete() {
    let c = select_command(None, false, None, Some(5), Some(6));
    assert!(matches!(c, Command::Reopen(5)));
}

#[test]
fn delete_alone_selects_delete() {
    let c = select_command(None, false, None, None, Some(6));
    assert!(matches!(c, Command::Delete(6)));
}

#[test]
fn no_flag_is_a_no_op() {
    let c = select_command(None, false, None, None, None);
    assert!(matches!(c, Command::NoOp));
}
