use solid_angle::{check_dimensions, map_into, zip_with, DimensionMismatch};

type Tet = [[f64; 3]; 4];

fn edge_sum(t: Tet) -> f64 {
    (t[1][0] - t[0][0]) + (t[2][1] - t[0][1]) + (t[3][2] - t[0][2])
}

fn sample_tets(n: usize) -> Vec<Tet> {
    (0..n)
        .map(|i| {
            let s = i as f64;
            [
                [0.0, 0.0, 0.0],
                [1.0 + s, 0.0, 0.0],
                [0.0, 2.0 * s, 0.0],
                [0.0, 0.0, 3.0 - s],
            ]
        })
        .collect()
}

#[test]
fn map_into_fills_every_slot() {
    let tets = sample_tets(4);
    let mut out = vec![0.0; 4];
    assert_eq!(map_into(&tets, &mut out, edge_sum), Ok(()));
    assert_eq!(out, vec![4.0, 6.0, 8.0, 10.0]);
}

#[test]
fn map_into_empty_batch() {
    let tets: Vec<Tet> = Vec::new();
    let mut out: Vec<f64> = Vec::new();
    assert_eq!(map_into(&tets, &mut out, edge_sum), Ok(()));
    assert!(out.is_empty());
}

#[test]
fn map_into_mismatch_leaves_output_untouched() {
    let tets = sample_tets(3);
    let mut out = vec![7.5, -1.25];
    assert_eq!(map_into(&tets, &mut out, edge_sum), Err(DimensionMismatch));
    assert_eq!(out, vec![7.5, -1.25]);
}

#[test]
fn map_into_mismatch_more_slots_than_items() {
    let tets = sample_tets(2);
    let mut out = vec![1.0, 2.0, 3.0];
    assert_eq!(map_into(&tets, &mut out, edge_sum), Err(DimensionMismatch));
    assert_eq!(out, vec![1.0, 2.0, 3.0]);
}

#[test]
fn chunked_run_matches_whole_run() {
    let tets = sample_tets(37);
    let mut whole = vec![0.0; 37];
    map_into(&tets, &mut whole, edge_sum).unwrap();
    for size in [1usize, 2, 5, 10, 36, 37, 100] {
        let mut chunked = vec![0.0; 37];
        for (o, t) in chunked.chunks_mut(size).zip(tets.chunks(size)) {
            map_into(t, o, edge_sum).unwrap();
        }
        assert_eq!(
            chunked.iter().map(|x| x.to_bits()).collect::<Vec<u64>>(),
            whole.iter().map(|x| x.to_bits()).collect::<Vec<u64>>()
        );
    }
}

#[test]
fn zip_with_multiplies_elementwise() {
    let a = [1.0, 2.0, 3.0];
    let b = [4.0, 5.0, 6.0];
    assert_eq!(zip_with(&a, &b, |x: f64, y: f64| x * y), Ok(vec![4.0, 10.0, 18.0]));
}

#[test]
fn zip_with_empty() {
    let a: [f64; 0] = [];
    assert_eq!(zip_with(&a, &a, |x: f64, y: f64| x * y), Ok(Vec::new()));
}

#[test]
fn zip_with_mismatch() {
    let a = [1.0, 2.0, 3.0];
    let b = [4.0, 5.0];
    assert_eq!(zip_with(&a, &b, |x: f64, y: f64| x * y), Err(DimensionMismatch));
}

#[test]
fn check_dimensions_rule() {
    assert_eq!(check_dimensions(3, 3), Ok(()));
    assert_eq!(check_dimensions(0, 0), Ok(()));
    assert_eq!(check_dimensions(3, 2), Err(DimensionMismatch));
    assert_eq!(check_dimensions(0, 1), Err(DimensionMismatch));
}
