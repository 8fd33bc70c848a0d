use ocl_tutorials::countup::{create_countup_vector, create_countup_vector2d};
use ocl_tutorials::render::{decimal, render_vector, render_vector2d, split_rows};
use ocl_tutorials::setup::{first_of, SetupError};

#[test]
fn countup_vector_of_eight_counts_from_zero() {
    assert_eq!(create_countup_vector(8), vec![0, 1, 2, 3, 4, 5, 6, 7]);
}

#[test]
fn countup_vector_of_zero_is_empty() {
    assert!(create_countup_vector(0).is_empty());
}

#[test]
fn countup_vector_every_element_equals_its_index() {
    let v = create_countup_vector(24);
    assert_eq!(v.len(), 24);
    for (i, x) in v.iter().enumerate() {
        assert_eq!(*x as usize, i);
    }
}

#[test]
fn countup_vector2d_of_eight_has_sixty_four_cells_in_row_major_order() {
    let v = create_countup_vector2d(8);
    assert_eq!(v.len(), 64);
    for x in 0..8 {
        for y in 0..8 {
            assert_eq!(v[8 * x + y] as usize, 8 * x + y);
        }
    }
}

#[test]
fn countup_vector2d_of_zero_and_one() {
    assert!(create_countup_vector2d(0).is_empty());
    assert_eq!(create_countup_vector2d(1), vec![0]);
}

#[test]
fn decimal_text_of_integers() {
    assert_eq!(decimal(0), "0");
    assert_eq!(decimal(7), "7");
    assert_eq!(decimal(10), "10");
    assert_eq!(decimal(-42), "-42");
    assert_eq!(decimal(i32::MAX), "2147483647");
    assert_eq!(decimal(i32::MIN), "-2147483648");
}

#[test]
fn render_vector_prints_prefix_cells() {
    assert_eq!(render_vector(&vec![1, -2, 30], 2), "|1|\t|-2|\t");
    assert_eq!(render_vector(&vec![1, 2], 0), "");
}

#[test]
fn render_vector_of_sevens() {
    let text = render_vector(&vec![7; 3], 3);
    assert_eq!(text, "|7|\t|7|\t|7|\t");
}

#[test]
fn render_vector2d_square_grid() {
    let v = create_countup_vector2d(2);
    assert_eq!(render_vector2d(&v, 2, 2), "|0|\t|1|\t\n|2|\t|3|\t\n");
}

#[test]
fn render_vector2d_uses_declared_row_length() {
    let v = create_countup_vector(6);
    assert_eq!(render_vector2d(&v, 3, 2), "|0|\t|1|\t\n|2|\t|3|\t\n|4|\t|5|\t\n");
    assert_eq!(render_vector2d(&v, 2, 3), "|0|\t|1|\t|2|\t\n|3|\t|4|\t|5|\t\n");
}

#[test]
fn render_vector2d_ignores_values_past_the_grid() {
    let v = vec![1, 2, 3, 4, 5];
    assert_eq!(render_vector2d(&v, 2, 2), "|1|\t|2|\t\n|3|\t|4|\t\n");
    assert_eq!(render_vector2d(&v, 0, 2), "");
}

#[test]
fn split_rows_is_row_major() {
    let v = create_countup_vector(6);
    assert_eq!(split_rows(&v, 2, 3), vec![vec![0, 1, 2], vec![3, 4, 5]]);
    assert_eq!(split_rows(&v, 3, 2), vec![vec![0, 1], vec![2, 3], vec![4, 5]]);
}

#[test]
fn split_rows_laid_end_to_end_give_the_grid_values_once_each() {
    let v = create_countup_vector(24);
    let rows = split_rows(&v, 6, 4);
    let flat: Vec<i32> = rows.into_iter().flatten().collect();
    assert_eq!(flat, v);
    let rows = split_rows(&v, 3, 5);
    let flat: Vec<i32> = rows.into_iter().flatten().collect();
    assert_eq!(flat, v[..15].to_vec());
}

#[test]
fn first_of_empty_list_reports_missing_platform() {
    let none: Vec<u32> = Vec::new();
    assert_eq!(first_of(&none, SetupError::NoPlatform), Err(SetupError::NoPlatform));
    assert_eq!(first_of(&none, SetupError::NoDevice), Err(SetupError::NoDevice));
}

#[test]
fn first_of_picks_the_first_entry() {
    assert_eq!(first_of(&vec![9u32, 4, 1], SetupError::NoDevice), Ok(9));
}

#[test]
fn setup_error_messages() {
    assert_eq!(SetupError::NoPlatform.message(), "no compute platform is available");
    assert_eq!(SetupError::NoDevice.message(), "no device is available on the platform");
}
