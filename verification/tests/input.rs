use luckybox::input::{choose_column, handle_column_input, ColumnInput};

#[test]
fn a_number_from_1_to_3_names_a_column_from_0() {
    assert_eq!(handle_column_input("1", &[0, 1, 2]), ColumnInput::Chosen(0));
    assert_eq!(handle_column_input("2", &[0, 1, 2]), ColumnInput::Chosen(1));
    assert_eq!(handle_column_input("3", &[0, 1, 2]), ColumnInput::Chosen(2));
}

#[test]
fn whitespace_around_the_number_is_dropped() {
    assert_eq!(handle_column_input("2\n", &[0, 1, 2]), ColumnInput::Chosen(1));
    assert_eq!(handle_column_input("  3 \r\n", &[0, 1, 2]), ColumnInput::Chosen(2));
    assert_eq!(handle_column_input("\t1", &[0]), ColumnInput::Chosen(0));
}

#[test]
fn a_sign_before_the_number_is_read() {
    assert_eq!(handle_column_input("+2", &[0, 1, 2]), ColumnInput::Chosen(1));
    assert_eq!(handle_column_input("-2", &[0, 1, 2]), ColumnInput::NotANumber);
    assert_eq!(handle_column_input("+", &[0, 1, 2]), ColumnInput::NotANumber);
    assert_eq!(handle_column_input("003", &[0, 1, 2]), ColumnInput::Chosen(2));
}

#[test]
fn a_full_column_is_not_chosen() {
    assert_eq!(handle_column_input("2", &[0, 2]), ColumnInput::Unavailable);
    assert_eq!(handle_column_input("1", &[]), ColumnInput::Unavailable);
    assert_eq!(handle_column_input("3", &[0, 2]), ColumnInput::Chosen(2));
}

#[test]
fn a_number_out_of_range_is_not_chosen() {
    assert_eq!(handle_column_input("0", &[0, 1, 2]), ColumnInput::Unavailable);
    assert_eq!(handle_column_input("4", &[0, 1, 2]), ColumnInput::Unavailable);
    assert_eq!(handle_column_input("18446744073709551615", &[0, 1, 2]), ColumnInput::Unavailable);
}

#[test]
fn text_that_is_no_number_is_told_apart() {
    assert_eq!(handle_column_input("", &[0, 1, 2]), ColumnInput::NotANumber);
    assert_eq!(handle_column_input("\n", &[0, 1, 2]), ColumnInput::NotANumber);
    assert_eq!(handle_column_input("two", &[0, 1, 2]), ColumnInput::NotANumber);
    assert_eq!(handle_column_input("2.0", &[0, 1, 2]), ColumnInput::NotANumber);
    assert_eq!(handle_column_input("1 2", &[0, 1, 2]), ColumnInput::NotANumber);
    assert_eq!(
        handle_column_input("99999999999999999999999999", &[0, 1, 2]),
        ColumnInput::NotANumber
    );
}

#[test]
fn a_parsed_number_chooses_among_the_open_columns() {
    assert_eq!(choose_column(None, &[0, 1, 2]), ColumnInput::NotANumber);
    assert_eq!(choose_column(Some(0), &[0, 1, 2]), ColumnInput::Unavailable);
    assert_eq!(choose_column(Some(1), &[0, 1, 2]), ColumnInput::Chosen(0));
    assert_eq!(choose_column(Some(3), &[1, 2]), ColumnInput::Chosen(2));
    assert_eq!(choose_column(Some(1), &[1, 2]), ColumnInput::Unavailable);
    assert_eq!(choose_column(Some(4), &[0, 1, 2, 3]), ColumnInput::Unavailable);
    assert_eq!(choose_column(Some(usize::MAX), &[0, 1, 2]), ColumnInput::Unavailable);
}
