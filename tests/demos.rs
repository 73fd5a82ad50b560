use kv_iter::squares::square_trace;
use kv_iter::table::{table_by_flat_map, table_by_loops};
use kv_iter::words::flatten_words;

fn expected_table() -> String {
    let mut s = String::new();
    for i in 1..10 {
        for j in 1..=i {
            s.push_str(&format!("| {i} * {j}={:2}|", i * j));
        }
        s.push('\n');
    }
    s
}

#[test]
fn table_rows_by_loops() {
    let text = String::from_utf8(table_by_loops()).unwrap();
    assert_eq!(text, expected_table());
    assert!(text.starts_with("| 1 * 1= 1|\n| 2 * 1= 2|| 2 * 2= 4|\n"));
    assert!(text.ends_with("| 9 * 8=72|| 9 * 9=81|\n"));
    assert_eq!(text.lines().count(), 9);
}

#[test]
fn table_by_flat_map_matches_loops() {
    assert_eq!(table_by_flat_map(), table_by_loops());
}

#[test]
fn squares_below_twenty_pass_and_are_summed() {
    let (lines, sum) = square_trace(10);
    let text: Vec<String> = lines.into_iter().map(|l| String::from_utf8(l).unwrap()).collect();
    let expected = vec![
        "value 0", "value pass 0", "value 1", "value pass 1", "value 4", "value pass 4",
        "value 9", "value pass 9", "value 16", "value pass 16", "value 25", "value 36",
        "value 49", "value 64", "value 81",
    ];
    assert_eq!(text, expected);
    assert_eq!(sum, 30);
}

#[test]
fn square_trace_of_nothing() {
    let (lines, sum) = square_trace(0);
    assert!(lines.is_empty());
    assert_eq!(sum, 0);
}

#[test]
fn flattened_words() {
    let words: Vec<Vec<char>> =
        ["alpha", "beta", "gamma"].iter().map(|w| w.chars().collect()).collect();
    let merged: String = flatten_words(&words).into_iter().collect();
    assert_eq!(merged, "alphabetagamma");
    assert!(flatten_words(&Vec::new()).is_empty());
    assert_eq!(flatten_words(&vec![vec![], vec!['x'], vec![]]), vec!['x']);
}
