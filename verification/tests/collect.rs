use std::collections::HashMap;

use juno::collect::map_of_maps;

#[test]
fn test_map_of_maps() {
    let output = map_of_maps(
        &vec![1u64, 2],
        &vec![1u64, 2, 3],
        vec![
            vec![1, 2, 3],
            vec![1, 2, 3],
            vec![1, 2, 3],
            vec![1, 2, 3],
            vec![1, 2, 3],
            vec![1, 2, 3],
        ],
    );

    let expected_output = HashMap::from([
        (
            1u64,
            HashMap::from([(1u64, vec![1, 2, 3]), (2u64, vec![1, 2, 3]), (3u64, vec![1, 2, 3])]),
        ),
        (
            2u64,
            HashMap::from([(1u64, vec![1, 2, 3]), (2u64, vec![1, 2, 3]), (3u64, vec![1, 2, 3])]),
        ),
    ]);

    assert_eq!(output, expected_output);
}

#[test]
fn test_map_of_maps_distinct_rows() {
    let output = map_of_maps(
        &vec![10u64, 20],
        &vec![7u64],
        vec![vec!["a"], vec!["b"]],
    );
    assert_eq!(output[&10][&7], vec!["a"]);
    assert_eq!(output[&20][&7], vec!["b"]);
    assert_eq!(output.len(), 2);
}

#[test]
fn test_map_of_maps_empty_columns() {
    let output = map_of_maps::<i32>(&vec![1u64, 2], &vec![], Vec::new());
    assert!(output.is_empty());
}
