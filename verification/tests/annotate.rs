use minesweeper::annotate;

fn owned(rows: &[&str]) -> Vec<String> {
    rows.iter().map(|r| r.to_string()).collect()
}

#[test]
fn no_rows() {
    let field: [&str; 0] = [];
    let out = annotate(&field);
    assert!(out.is_empty());
}

#[test]
fn single_mine() {
    assert_eq!(annotate(&["*"]), owned(&["*"]));
}

#[test]
fn single_empty_cell() {
    assert_eq!(annotate(&[" "]), owned(&[" "]));
}

#[test]
fn rows_of_length_zero() {
    assert_eq!(annotate(&["", ""]), owned(&["", ""]));
}

#[test]
fn no_mines_output_identical() {
    assert_eq!(annotate(&["   ", "   "]), owned(&["   ", "   "]));
}

#[test]
fn center_mine_marks_all_eight_neighbors() {
    assert_eq!(annotate(&["   ", " * ", "   "]), owned(&["111", "1*1", "111"]));
}

#[test]
fn corner_mines() {
    assert_eq!(annotate(&["* *", "   ", "* *"]), owned(&["*2*", "242", "*2*"]));
}

#[test]
fn all_mines_unchanged() {
    assert_eq!(annotate(&["**", "**"]), owned(&["**", "**"]));
}

#[test]
fn horizontal_strip() {
    assert_eq!(annotate(&["*  *"]), owned(&["*11*"]));
}

#[test]
fn vertical_strip() {
    assert_eq!(annotate(&["*", " ", " ", "*"]), owned(&["*", "1", "1", "*"]));
}

#[test]
fn mixed_grid() {
    assert_eq!(
        annotate(&["*   ", "    ", "  * "]),
        owned(&["*1  ", "1211", " 1*1"])
    );
}

#[test]
fn count_of_three() {
    assert_eq!(annotate(&["***", "   "]), owned(&["***", "232"]));
}

#[test]
fn count_of_five() {
    assert_eq!(annotate(&["***", "* *", "   "]), owned(&["***", "*5*", "121"]));
}

#[test]
fn count_of_six() {
    assert_eq!(annotate(&["***", "* *", "*  "]), owned(&["***", "*6*", "*31"]));
}

#[test]
fn count_of_seven() {
    assert_eq!(annotate(&["***", "* *", "** "]), owned(&["***", "*7*", "**2"]));
}

#[test]
fn count_of_eight() {
    assert_eq!(annotate(&["***", "* *", "***"]), owned(&["***", "*8*", "***"]));
}

#[test]
fn same_input_same_output() {
    let field = ["  *  ", " *** ", "  *  "];
    let first = annotate(&field);
    let second = annotate(&field);
    assert_eq!(first, second);
}

#[test]
fn output_dimensions_match_input() {
    let field = ["* * ", "    ", " ** "];
    let out = annotate(&field);
    assert_eq!(out.len(), field.len());
    for (row_out, row_in) in out.iter().zip(field.iter()) {
        assert_eq!(row_out.chars().count(), row_in.chars().count());
    }
}

#[test]
fn mines_preserved_at_every_position() {
    let field = ["* * ", "  **", "*   "];
    let out = annotate(&field);
    for (row_out, row_in) in out.iter().zip(field.iter()) {
        for (c_out, c_in) in row_out.chars().zip(row_in.chars()) {
            if c_in == '*' {
                assert_eq!(c_out, '*');
            }
        }
    }
}
