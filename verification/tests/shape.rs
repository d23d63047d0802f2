use autodiff::error::TensorError;
use autodiff::shape::{saturating_mul, try_broadcast, Shape};

fn shape(dims: &[usize]) -> Shape {
    Shape::from(dims)
}

#[test]
fn a_shape_keeps_its_extents() {
    let s = shape(&[2, 3, 4]);
    assert_eq!(s.ndims(), 3);
    assert_eq!(s.dims(), &[2, 3, 4]);
    let scalar = shape(&[]);
    assert_eq!(scalar.ndims(), 0);
    assert_eq!(scalar.dims(), &[] as &[usize]);
    assert_eq!(s.clone(), s);
    assert_ne!(s, scalar);
}

#[test]
fn the_volume_is_the_product_of_the_extents() {
    assert_eq!(shape(&[2, 3, 4]).volume(), 24);
    assert_eq!(shape(&[7]).volume(), 7);
    assert_eq!(shape(&[]).volume(), 1);
    assert_eq!(shape(&[5, 0, 3]).volume(), 0);
    assert_eq!(shape(&[usize::MAX, usize::MAX, 0]).volume(), 0);
    assert_eq!(shape(&[1, usize::MAX, 1]).volume(), usize::MAX);
}

#[test]
fn the_strides_count_the_elements_behind_each_dimension() {
    assert_eq!(shape(&[2, 3, 4]).strides().dims(), &[12, 4, 1]);
    assert_eq!(shape(&[5]).strides().dims(), &[1]);
    assert_eq!(shape(&[]).strides().dims(), &[] as &[usize]);
    assert_eq!(shape(&[3, 0, 2]).strides().dims(), &[0, 2, 1]);
}

#[test]
fn the_strides_saturate() {
    let big = 1usize << (usize::BITS - 1);
    assert_eq!(shape(&[2, big, 4]).strides().dims(), &[usize::MAX, 4, 1]);
    assert_eq!(shape(&[2, 0, big, 4]).strides().dims(), &[0, usize::MAX, 4, 1]);
    assert_eq!(shape(&[9, 1, usize::MAX]).strides().dims(), &[usize::MAX, usize::MAX, 1]);
}

#[test]
fn saturating_mul_stops_at_the_greatest_number() {
    assert_eq!(saturating_mul(6, 7), 42);
    assert_eq!(saturating_mul(0, usize::MAX), 0);
    assert_eq!(saturating_mul(usize::MAX, 1), usize::MAX);
    assert_eq!(saturating_mul(usize::MAX, 2), usize::MAX);
    assert_eq!(saturating_mul(1usize << (usize::BITS / 2), 1usize << (usize::BITS / 2)), usize::MAX);
}

#[test]
fn the_linear_index_is_row_major() {
    let s = shape(&[2, 3, 4]);
    assert_eq!(s.linear_index(&[0, 0, 0]), 0);
    assert_eq!(s.linear_index(&[0, 0, 3]), 3);
    assert_eq!(s.linear_index(&[0, 1, 0]), 4);
    assert_eq!(s.linear_index(&[1, 0, 0]), 12);
    assert_eq!(s.linear_index(&[1, 2, 3]), 23);
    assert_eq!(shape(&[5]).linear_index(&[4]), 4);
    assert_eq!(shape(&[]).linear_index(&[]), 0);
    let mut seen = Vec::new();
    for i in 0..2 {
        for j in 0..3 {
            for k in 0..4 {
                seen.push(s.linear_index(&[i, j, k]));
            }
        }
    }
    assert_eq!(seen, (0..24).collect::<Vec<usize>>());
}

#[test]
fn the_linear_index_agrees_with_the_strides() {
    let s = shape(&[3, 5, 2, 4]);
    let strides = s.strides();
    let index = [2usize, 4, 1, 3];
    let by_strides: usize = index.iter().zip(strides.dims()).map(|(i, s)| i * s).sum();
    assert_eq!(s.linear_index(&index), by_strides);
    assert_eq!(by_strides, 2 * 40 + 4 * 8 + 1 * 4 + 3);
}

#[test]
fn extents_broadcast_from_the_end() {
    assert_eq!(try_broadcast(&[2, 3], &[1, 3]).unwrap(), vec![2, 3]);
    assert_eq!(try_broadcast(&[2, 1], &[1, 3]).unwrap(), vec![2, 3]);
    assert_eq!(try_broadcast(&[5, 2, 3], &[3]).unwrap(), vec![5, 2, 3]);
    assert_eq!(try_broadcast(&[3], &[5, 2, 3]).unwrap(), vec![5, 2, 3]);
    assert_eq!(try_broadcast(&[4, 1, 6], &[7, 1]).unwrap(), vec![4, 7, 6]);
    assert_eq!(try_broadcast(&[], &[]).unwrap(), Vec::<usize>::new());
    assert_eq!(try_broadcast(&[], &[2, 3]).unwrap(), vec![2, 3]);
    assert_eq!(try_broadcast(&[1], &[0]).unwrap(), vec![0]);
    assert_eq!(try_broadcast(&[1, 1], &[1, 1]).unwrap(), vec![1, 1]);
}

#[test]
fn extents_that_differ_and_are_not_one_do_not_broadcast() {
    match try_broadcast(&[2, 3], &[2, 4]) {
        Err(TensorError::Broadcast { d1, d2 }) => assert_eq!((d1, d2), (3, 4)),
        _ => panic!("expected a broadcast error"),
    }
    match try_broadcast(&[5, 3, 7], &[6, 2, 7]) {
        Err(TensorError::Broadcast { d1, d2 }) => assert_eq!((d1, d2), (3, 2)),
        _ => panic!("expected a broadcast error"),
    }
    match try_broadcast(&[4], &[2, 0]) {
        Err(TensorError::Broadcast { d1, d2 }) => assert_eq!((d1, d2), (4, 0)),
        _ => panic!("expected a broadcast error"),
    }
}

#[test]
fn matmul_of_matrices() {
    let out = shape(&[2, 3]).can_broadcast_matmul(&shape(&[3, 4])).unwrap();
    assert_eq!(out.dims(), &[2, 4]);
}

#[test]
fn matmul_broadcasts_the_batch() {
    let out = shape(&[2, 3, 4, 5]).can_broadcast_matmul(&shape(&[1, 3, 5, 6])).unwrap();
    assert_eq!(out.dims(), &[2, 3, 4, 6]);
    let out = shape(&[7, 1, 4, 5]).can_broadcast_matmul(&shape(&[3, 5, 6])).unwrap();
    assert_eq!(out.dims(), &[7, 3, 4, 6]);
    let out = shape(&[4, 5]).can_broadcast_matmul(&shape(&[9, 8, 5, 6])).unwrap();
    assert_eq!(out.dims(), &[9, 8, 4, 6]);
}

#[test]
fn matmul_with_vectors() {
    let out = shape(&[3]).can_broadcast_matmul(&shape(&[3, 4])).unwrap();
    assert_eq!(out.dims(), &[1, 4]);
    let out = shape(&[2, 3]).can_broadcast_matmul(&shape(&[3])).unwrap();
    assert_eq!(out.dims(), &[2, 1]);
    let out = shape(&[3]).can_broadcast_matmul(&shape(&[3])).unwrap();
    assert_eq!(out.dims(), &[1, 1]);
}

#[test]
fn matmul_needs_one_dimension_at_least() {
    for (a, b) in [(shape(&[]), shape(&[2])), (shape(&[2]), shape(&[])), (shape(&[]), shape(&[]))] {
        match a.can_broadcast_matmul(&b) {
            Err(TensorError::InvalidOp(text)) => {
                assert_eq!(text, "matmul requires at least 1D tensors")
            },
            _ => panic!("expected an invalid operation"),
        }
    }
}

#[test]
fn matmul_needs_equal_inner_extents() {
    match shape(&[2, 3]).can_broadcast_matmul(&shape(&[4, 5])) {
        Err(TensorError::InvalidOp(text)) => {
            assert_eq!(text, "cannot matmul\na: [2, 3]\nb: [4, 5]")
        },
        _ => panic!("expected an invalid operation"),
    }
    match shape(&[10, 2, 3]).can_broadcast_matmul(&shape(&[4])) {
        Err(TensorError::InvalidOp(text)) => {
            assert_eq!(text, format!("cannot matmul\na: {:?}\nb: {:?}", [10, 2, 3], [4]))
        },
        _ => panic!("expected an invalid operation"),
    }
}

#[test]
fn matmul_needs_a_batch_that_broadcasts() {
    match shape(&[2, 4, 5]).can_broadcast_matmul(&shape(&[3, 5, 6])) {
        Err(TensorError::Broadcast { d1, d2 }) => assert_eq!((d1, d2), (2, 3)),
        _ => panic!("expected a broadcast error"),
    }
}

#[test]
fn a_shape_is_shown_with_its_extents() {
    assert_eq!(shape(&[2, 3]).to_text(), "Shape([2, 3])");
    assert_eq!(shape(&[]).to_text(), "Shape([])");
    assert_eq!(shape(&[0]).to_text(), "Shape([0])");
    assert_eq!(shape(&[10, 205, 9]).to_text(), format!("Shape({:?})", [10, 205, 9]));
    assert_eq!(shape(&[usize::MAX]).to_text(), format!("Shape({:?})", [usize::MAX]));
}

#[test]
fn a_shape_is_indexed_by_dimension() {
    let s = shape(&[2, 3, 4]);
    assert_eq!(s[0], 2);
    assert_eq!(s[1], 3);
    assert_eq!(s[2], 4);
}
