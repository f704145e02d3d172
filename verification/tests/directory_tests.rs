use exercises::directory::Directory;
use exercises::parser::{parse, AddCommand, ParseError};

#[test]
fn parse_accepts_four_tokens() {
    let cmd = parse("Add Sally to Engineering\n").unwrap();
    assert_eq!(cmd.employee, "Sally");
    assert_eq!(cmd.department, "Engineering");
}

#[test]
fn parse_rejects_blank_line() {
    assert_eq!(parse(""), Err(ParseError::BadFormat));
    assert_eq!(parse("   \t \n"), Err(ParseError::BadFormat));
}

#[test]
fn parse_rejects_wrong_token_counts() {
    assert_eq!(parse("nonsense"), Err(ParseError::BadFormat));
    assert_eq!(parse("Add Sally to"), Err(ParseError::BadFormat));
    assert_eq!(
        parse("Add Sally to Engineering today"),
        Err(ParseError::BadFormat)
    );
}

#[test]
fn parse_ignores_verb_and_preposition() {
    let a = parse("Add Sally to Engineering").unwrap();
    let b = parse("Move Sally into Engineering").unwrap();
    assert_eq!(
        a,
        AddCommand {
            employee: String::from("Sally"),
            department: String::from("Engineering"),
        }
    );
    assert_eq!(a, b);
}

#[test]
fn parse_tolerates_mixed_whitespace() {
    let cmd = parse("\tAdd\t Amir \n to  Sales \r\n").unwrap();
    assert_eq!(cmd.employee, "Amir");
    assert_eq!(cmd.department, "Sales");
}

#[test]
fn single_add() {
    let mut dir = Directory::new();
    assert!(dir.apply_line("Add Sally to Engineering\n"));
    let snap = dir.dump();
    assert_eq!(snap.len(), 1);
    assert_eq!(snap[0].0, "Engineering");
    assert_eq!(snap[0].1, vec![String::from("Sally")]);
}

#[test]
fn two_departments() {
    let mut dir = Directory::new();
    assert!(dir.apply_line("Add Sally to Engineering\n"));
    assert!(dir.apply_line("Add Amir to Sales\n"));
    let snap = dir.dump();
    assert_eq!(snap.len(), 2);
    assert_eq!(snap[0].0, "Engineering");
    assert_eq!(snap[0].1, vec![String::from("Sally")]);
    assert_eq!(snap[1].0, "Sales");
    assert_eq!(snap[1].1, vec![String::from("Amir")]);
}

#[test]
fn same_department_order_preserved() {
    let mut dir = Directory::new();
    assert!(dir.apply_line("Add Sally to Engineering\n"));
    assert!(dir.apply_line("Add Jin to Engineering\n"));
    let snap = dir.dump();
    assert_eq!(snap.len(), 1);
    assert_eq!(snap[0].0, "Engineering");
    assert_eq!(snap[0].1, vec![String::from("Sally"), String::from("Jin")]);
}

#[test]
fn malformed_then_valid() {
    let mut dir = Directory::new();
    assert!(!dir.apply_line("nonsense\n"));
    assert_eq!(dir.dump().len(), 0);
    assert!(dir.apply_line("Add Sally to Engineering\n"));
    let snap = dir.dump();
    assert_eq!(snap.len(), 1);
    assert_eq!(snap[0].0, "Engineering");
    assert_eq!(snap[0].1, vec![String::from("Sally")]);
}

#[test]
fn extra_whitespace_tolerated() {
    let mut dir = Directory::new();
    assert!(dir.apply_line("  Add   Sally   to   Engineering  \n"));
    let snap = dir.dump();
    assert_eq!(snap.len(), 1);
    assert_eq!(snap[0].0, "Engineering");
    assert_eq!(snap[0].1, vec![String::from("Sally")]);
}

#[test]
fn duplicate_employee_allowed() {
    let mut dir = Directory::new();
    assert!(dir.apply_line("Add Sally to Engineering\n"));
    assert!(dir.apply_line("Add Sally to Engineering\n"));
    let snap = dir.dump();
    assert_eq!(snap.len(), 1);
    assert_eq!(snap[0].0, "Engineering");
    assert_eq!(snap[0].1, vec![String::from("Sally"), String::from("Sally")]);
}

#[test]
fn add_does_not_touch_other_departments() {
    let mut dir = Directory::new();
    assert!(dir.apply_line("Add Sally to Engineering\n"));
    assert!(dir.apply_line("Add Amir to Sales\n"));
    assert!(dir.apply_line("Add Jin to Sales\n"));
    let snap = dir.dump();
    assert_eq!(snap[0].1, vec![String::from("Sally")]);
    assert_eq!(snap[1].1, vec![String::from("Amir"), String::from("Jin")]);
}

#[test]
fn dump_twice_equal() {
    let mut dir = Directory::new();
    assert!(dir.apply_line("Add Sally to Engineering\n"));
    assert!(dir.apply_line("Add Amir to Sales\n"));
    let first = dir.dump();
    let second = dir.dump();
    assert_eq!(first, second);
}
