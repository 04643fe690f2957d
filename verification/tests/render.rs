use todos::Todo;
use todos::format_added;
use todos::format_completed;
use todos::format_deleted;
use todos::format_i32;
use todos::format_reopened;
use todos::render_task_line;

#[test]
fn decimal_rendering_of_small_numbers() {
    assert_eq!(format_i32(0), "0");
    assert_eq!(format_i32(7), "7");
    assert_eq!(format_i32(42), "42");
    assert_eq!(format_i32(123456), "123456");
}

#[test]
fn decimal_rendering_of_negative_numbers() {
    assert_eq!(format_i32(-1), "-1");
    assert_eq!(format_i32(-987), "-987");
}

#[test]
fn decimal_rendering_of_extremes() {
    assert_eq!(format_i32(i32::MAX), "2147483647");
    assert_eq!(format_i32(i32::MIN), "-2147483648");
}

#[test]
fn open_task_renders_plain() {
    let t = Todo::new(3, String::from("buy milk"), false);
    assert_eq!(render_task_line(&t), "3: buy milk");
}

#[test]
fn completed_task_renders_struck_through() {
    let t = Todo::new(1, String::from("ab"), true);
    assert_eq!(render_task_line(&t), "1: \u{336}a\u{336}b");
}

#[test]
fn confirmation_lines_carry_id_and_description() {
    let t = Todo::new(12, String::from("water plants"), false);
    assert_eq!(format_added(&t), "Added: 12: water plants");
    assert_eq!(format_completed(&t), "Completed: 12: water plants");
    assert_eq!(format_reopened(&t), "Reopened: 12: water plants");
}

#[test]
fn deletion_confirmation_echoes_only_the_id() {
    assert_eq!(format_deleted(5), "Deleted: 5");
    assert_eq!(format_deleted(-3), "Deleted: -3");
}
