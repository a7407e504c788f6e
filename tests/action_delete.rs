use dtedit::plane::Plane;

const EX_001: &str = r#"
┌─────────────────────────────────────┐
│ Order options                       │
├───┬───────────┬───────╥─────────────┴───────╥─────────────┬───────────┐
│ U │           │       ║    Order options    ║             │           │
│   │ Customer  │ Order ╟──────────┬──────────╢ Description │ Reference │
│   │   type    │ size  ║ Discount │ Priority ║             │           │
│   ├───────────┼───────╫──────────┼──────────╫─────────────┼───────────┤
│   │"Business",│  <10, ║   0.10,  │"Normal", ║             │           │
│   │"Private"  │ >=10  ║   0.15,  │ "High",  ║             │           │
│   │           │       ║   0.05   │ "Low"    ║             │           │
╞═══╪═══════════╪═══════╬══════════╪══════════╬═════════════╪═══════════╡
│ 1 │"Business" │  <10  ║   0.10   │ "Normal" ║ Small order │   Ref 1   │
├───┼───────────┼───────╫──────────┼──────────╫─────────────┼───────────┤
│ 2 │"Business" │ >=10  ║   0.15   │ "High"   ║ Large order │   Ref 2   │
├───┼───────────┼───────╫──────────┼──────────╫─────────────┼───────────┤
│ 3 │"Private"  │   -   ║   0.05   │ "Low"    ║ All orders  │   Ref 3   │
└───┴───────────┴───────╨──────────┴──────────╨─────────────┴───────────┘
"#;

const EX_002: &str = r#"
┌────────────────────────────┐
│ Order options              │
├───┬──┬───────╥─────────────┴───────╥─────────────┬───────────┐
│ U │  │       ║    Order options    ║             │           │
│   │  │ Order ╟──────────┬──────────╢ Description │ Reference │
│   │  │ size  ║ Discount │ Priority ║             │           │
│   ├──┼───────╫──────────┼──────────╫─────────────┼───────────┤
│   │  │  <10, ║   0.10,  │"Normal", ║             │           │
│   │  │ >=10  ║   0.15,  │ "High",  ║             │           │
│   │  │       ║   0.05   │ "Low"    ║             │           │
╞═══╪══╪═══════╬══════════╪══════════╬═════════════╪═══════════╡
│ 1 │  │  <10  ║   0.10   │ "Normal" ║ Small order │   Ref 1   │
├───┼──┼───────╫──────────┼──────────╫─────────────┼───────────┤
│ 2 │  │ >=10  ║   0.15   │ "High"   ║ Large order │   Ref 2   │
├───┼──┼───────╫──────────┼──────────╫─────────────┼───────────┤
│ 3 │  │   -   ║   0.05   │ "Low"    ║ All orders  │   Ref 3   │
└───┴──┴───────╨──────────┴──────────╨─────────────┴───────────┘
"#;

/// The rows of the plane as lines of text.
fn text(plane: &Plane) -> String {
  let lines: Vec<String> = plane.rows().iter().map(|row| row.columns.iter().collect::<String>()).collect();
  lines.join("\n")
}

/// Checks that the plane holds the expected text.
fn eq(expected: &str, plane: &Plane) {
  assert_eq!(expected.trim(), text(plane));
}

/// Checks the cursor position.
fn eq_cursor(row: usize, col: usize, plane: &Plane) {
  assert_eq!(row, plane.cursor_row());
  assert_eq!(col, plane.cursor_col());
}

/// Runs an action a number of times.
fn repeat<F: FnMut()>(count: usize, mut action: F) {
  for _ in 0..count {
    action();
  }
}

const EXPECTED_0001: &str = r#"
┌────────────────────────────────────┐
│ Order options                      │
├──┬───────────┬───────╥─────────────┴───────╥─────────────┬───────────┐
│ U│           │       ║    Order options    ║             │           │
│  │ Customer  │ Order ╟──────────┬──────────╢ Description │ Reference │
│  │   type    │ size  ║ Discount │ Priority ║             │           │
│  ├───────────┼───────╫──────────┼──────────╫─────────────┼───────────┤
│  │"Business",│  <10, ║   0.10,  │"Normal", ║             │           │
│  │"Private"  │ >=10  ║   0.15,  │ "High",  ║             │           │
│  │           │       ║   0.05   │ "Low"    ║             │           │
╞══╪═══════════╪═══════╬══════════╪══════════╬═════════════╪═══════════╡
│ 1│"Business" │  <10  ║   0.10   │ "Normal" ║ Small order │   Ref 1   │
├──┼───────────┼───────╫──────────┼──────────╫─────────────┼───────────┤
│ 2│"Business" │ >=10  ║   0.15   │ "High"   ║ Large order │   Ref 2   │
├──┼───────────┼───────╫──────────┼──────────╫─────────────┼───────────┤
│ 3│"Private"  │   -   ║   0.05   │ "Low"    ║ All orders  │   Ref 3   │
└──┴───────────┴───────╨──────────┴──────────╨─────────────┴───────────┘
"#;

#[test]
fn _0001() {
  let plane = &mut Plane::new(EX_001);
  assert_eq!(1, plane.cursor_col());
  assert_eq!(1, plane.cursor_row());
  plane.cursor_move(3, 2);
  plane.delete_char_before();
  eq(EXPECTED_0001, plane);
}

const EXPECTED_0002: &str = r#"
┌─────────────────────────────────────┐
│ Order options                       │
├───┬───────────┬───────╥─────────────┴───────╥─────────────┬───────────┐
│ U │           │       ║    Order options    ║             │           │
│   │ Custome   │ Order ╟──────────┬──────────╢ Description │ Reference │
│   │   type    │ size  ║ Discount │ Priority ║             │           │
│   ├───────────┼───────╫──────────┼──────────╫─────────────┼───────────┤
│   │"Business",│  <10, ║   0.10,  │"Normal", ║             │           │
│   │"Private"  │ >=10  ║   0.15,  │ "High",  ║             │           │
│   │           │       ║   0.05   │ "Low"    ║             │           │
╞═══╪═══════════╪═══════╬══════════╪══════════╬═════════════╪═══════════╡
│ 1 │"Business" │  <10  ║   0.10   │ "Normal" ║ Small order │   Ref 1   │
├───┼───────────┼───────╫──────────┼──────────╫─────────────┼───────────┤
│ 2 │"Business" │ >=10  ║   0.15   │ "High"   ║ Large order │   Ref 2   │
├───┼───────────┼───────╫──────────┼──────────╫─────────────┼───────────┤
│ 3 │"Private"  │   -   ║   0.05   │ "Low"    ║ All orders  │   Ref 3   │
└───┴───────────┴───────╨──────────┴──────────╨─────────────┴───────────┘
"#;

#[test]
fn _0002() {
  let plane = &mut Plane::new(EX_001);
  assert_eq!(1, plane.cursor_col());
  assert_eq!(1, plane.cursor_row());
  plane.cursor_move(3, 13);
  plane.delete_char_before();
  eq(EXPECTED_0002, plane);
}

const EXPECTED_0003: &str = r#"
┌────────────────────────────────────┐
│ Order options                      │
├───┬──────────┬───────╥─────────────┴───────╥─────────────┬───────────┐
│ U │          │       ║    Order options    ║             │           │
│   │ Customer │ Order ╟──────────┬──────────╢ Description │ Reference │
│   │   type   │ size  ║ Discount │ Priority ║             │           │
│   ├──────────┼───────╫──────────┼──────────╫─────────────┼───────────┤
│   │"Busine,  │  <10, ║   0.10,  │"Normal", ║             │           │
│   │"Private" │ >=10  ║   0.15,  │ "High",  ║             │           │
│   │          │       ║   0.05   │ "Low"    ║             │           │
╞═══╪══════════╪═══════╬══════════╪══════════╬═════════════╪═══════════╡
│ 1 │"Business"│  <10  ║   0.10   │ "Normal" ║ Small order │   Ref 1   │
├───┼──────────┼───────╫──────────┼──────────╫─────────────┼───────────┤
│ 2 │"Business"│ >=10  ║   0.15   │ "High"   ║ Large order │   Ref 2   │
├───┼──────────┼───────╫──────────┼──────────╫─────────────┼───────────┤
│ 3 │"Private" │   -   ║   0.05   │ "Low"    ║ All orders  │   Ref 3   │
└───┴──────────┴───────╨──────────┴──────────╨─────────────┴───────────┘
"#;

#[test]
fn _0003() {
  let plane = &mut Plane::new(EX_001);
  assert_eq!(1, plane.cursor_col());
  assert_eq!(1, plane.cursor_row());
  plane.cursor_move(6, 14);
  repeat(3, || {
    plane.delete_char_before();
  });
  eq(EXPECTED_0003, plane);
}

const EXPECTED_0004: &str = r#"
┌─────────────────────────────────────┐
│ Order options                       │
├───┬───────────┬───────╥─────────────┴───────╥─────────────┬───────────┐
│ U │           │       ║    Order options    ║             │           │
│   │ Cust      │ Order ╟──────────┬──────────╢ Description │ Reference │
│   │   type    │ size  ║ Discount │ Priority ║             │           │
│   ├───────────┼───────╫──────────┼──────────╫─────────────┼───────────┤
│   │"Business",│  <10, ║   0.10,  │"Normal", ║             │           │
│   │"Private"  │ >=10  ║   0.15,  │ "High",  ║             │           │
│   │           │       ║   0.05   │ "Low"    ║             │           │
╞═══╪═══════════╪═══════╬══════════╪══════════╬═════════════╪═══════════╡
│ 1 │"Business" │  <10  ║   0.10   │ "Normal" ║ Small order │   Ref 1   │
├───┼───────────┼───────╫──────────┼──────────╫─────────────┼───────────┤
│ 2 │"Business" │ >=10  ║   0.15   │ "High"   ║ Large order │   Ref 2   │
├───┼───────────┼───────╫──────────┼──────────╫─────────────┼───────────┤
│ 3 │"Private"  │   -   ║   0.05   │ "Low"    ║ All orders  │   Ref 3   │
└───┴───────────┴───────╨──────────┴──────────╨─────────────┴───────────┘
"#;

#[test]
fn _0004() {
  let plane = &mut Plane::new(EX_001);
  assert_eq!(1, plane.cursor_col());
  assert_eq!(1, plane.cursor_row());
  plane.cursor_move(3, 9);
  repeat(4, || {
    plane.delete_char();
  });
  eq(EXPECTED_0004, plane);
}

const EXPECTED_0005: &str = r#"
┌────────────────────────────────────┐
│ Order options                      │
├───┬──────────┬───────╥─────────────┴───────╥─────────────┬───────────┐
│ U │          │       ║    Order options    ║             │           │
│   │ Customer │ Order ╟──────────┬──────────╢ Description │ Reference │
│   │   type   │ size  ║ Discount │ Priority ║             │           │
│   ├──────────┼───────╫──────────┼──────────╫─────────────┼───────────┤
│   │"Business"│  <10, ║   0.10,  │"Normal", ║             │           │
│   │"Private" │ >=10  ║   0.15,  │ "High",  ║             │           │
│   │          │       ║   0.05   │ "Low"    ║             │           │
╞═══╪══════════╪═══════╬══════════╪══════════╬═════════════╪═══════════╡
│ 1 │"Business"│  <10  ║   0.10   │ "Normal" ║ Small order │   Ref 1   │
├───┼──────────┼───────╫──────────┼──────────╫─────────────┼───────────┤
│ 2 │"Business"│ >=10  ║   0.15   │ "High"   ║ Large order │   Ref 2   │
├───┼──────────┼───────╫──────────┼──────────╫─────────────┼───────────┤
│ 3 │"Private" │   -   ║   0.05   │ "Low"    ║ All orders  │   Ref 3   │
└───┴──────────┴───────╨──────────┴──────────╨─────────────┴───────────┘
"#;

#[test]
fn _0005() {
  let plane = &mut Plane::new(EX_001);
  eq_cursor(1, 1, plane);
  plane.cursor_move(6, 14);
  plane.delete_char();
  eq_cursor(7, 14, plane);
  eq(EXPECTED_0005, plane);
}

const EXPECTED_0006: &str = r#"
┌───────────────────────────┐
│ Order options             │
├───┬─┬───────╥─────────────┴───────╥─────────────┬───────────┐
│ U │ │       ║    Order options    ║             │           │
│   │ │ Order ╟──────────┬──────────╢ Description │ Reference │
│   │ │ size  ║ Discount │ Priority ║             │           │
│   ├─┼───────╫──────────┼──────────╫─────────────┼───────────┤
│   │ │  <10, ║   0.10,  │"Normal", ║             │           │
│   │ │ >=10  ║   0.15,  │ "High",  ║             │           │
│   │ │       ║   0.05   │ "Low"    ║             │           │
╞═══╪═╪═══════╬══════════╪══════════╬═════════════╪═══════════╡
│ 1 │ │  <10  ║   0.10   │ "Normal" ║ Small order │   Ref 1   │
├───┼─┼───────╫──────────┼──────────╫─────────────┼───────────┤
│ 2 │ │ >=10  ║   0.15   │ "High"   ║ Large order │   Ref 2   │
├───┼─┼───────╫──────────┼──────────╫─────────────┼───────────┤
│ 3 │ │   -   ║   0.05   │ "Low"    ║ All orders  │   Ref 3   │
└───┴─┴───────╨──────────┴──────────╨─────────────┴───────────┘
"#;

#[test]
fn _0006() {
  let plane = &mut Plane::new(EX_002);
  eq_cursor(1, 1, plane);
  plane.cursor_move(14, 4);
  plane.delete_char();
  eq_cursor(15, 5, plane);
  eq(EXPECTED_0006, plane);
}