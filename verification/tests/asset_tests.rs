use physics_sync::mesh::merge_indices;
use physics_sync::mesh::vertex_count;
use physics_sync::mesh::ModelGeometry;
use physics_sync::names::find_last_dot;
use physics_sync::names::split_reference;
use physics_sync::names::texture_key;
use physics_sync::names::DOT;

fn bytes(text: &str) -> Vec<u8> {
    text.as_bytes().to_vec()
}

#[test]
fn vertex_count_is_the_shortest_list() {
    assert_eq!(vertex_count(0, 0, 0), Some(0));
    assert_eq!(vertex_count(12, 12, 8), Some(4));
    assert_eq!(vertex_count(12, 6, 8), Some(2));
    assert_eq!(vertex_count(12, 12, 2), Some(1));
    assert_eq!(vertex_count(12, 12, 0), Some(0));
    assert_eq!(vertex_count(7, 3, 2), Some(1));
}

#[test]
fn vertex_count_agrees_with_zipped_chunks() {
    for p in 0..10usize {
        for q in 0..10usize {
            for t in 0..8usize {
                let ps = vec![0u8; p];
                let qs = vec![0u8; q];
                let ts = vec![0u8; t];
                let mut whole = true;
                let mut n = 0;
                for ((a, b), c) in ps.chunks(3).zip(qs.chunks(3)).zip(ts.chunks(2)) {
                    whole = whole && a.len() == 3 && b.len() == 3 && c.len() == 2;
                    n += 1;
                }
                let expected = if whole { Some(n) } else { None };
                assert_eq!(vertex_count(p, q, t), expected, "{} {} {}", p, q, t);
            }
        }
    }
}

#[test]
fn vertex_count_refuses_a_vertex_cut_short() {
    assert_eq!(vertex_count(7, 9, 6), None);
    assert_eq!(vertex_count(9, 8, 6), None);
    assert_eq!(vertex_count(9, 9, 5), None);
    assert_eq!(vertex_count(usize::MAX - 1, usize::MAX, usize::MAX), None);
    assert_eq!(vertex_count(usize::MAX, usize::MAX, usize::MAX), Some(usize::MAX / 3));
    assert_eq!(vertex_count(usize::MAX, 3, 2), Some(1));
}

#[test]
fn indices_are_shifted_past_earlier_vertices() {
    let models = vec![
        ModelGeometry { vertices: 4, indices: vec![0, 1, 2, 2, 3, 0] },
        ModelGeometry { vertices: 3, indices: vec![0, 1, 2] },
        ModelGeometry { vertices: 0, indices: vec![] },
        ModelGeometry { vertices: 2, indices: vec![1, 0] },
    ];
    assert_eq!(merge_indices(&models), Some(vec![0, 1, 2, 2, 3, 0, 4, 5, 6, 8, 7]));
    assert_eq!(merge_indices(&vec![]), Some(vec![]));
}

#[test]
fn index_that_no_longer_fits_gives_nothing() {
    let models = vec![
        ModelGeometry { vertices: 1, indices: vec![u32::MAX] },
        ModelGeometry { vertices: 1, indices: vec![u32::MAX - 1] },
    ];
    assert_eq!(merge_indices(&models), Some(vec![u32::MAX, u32::MAX]));
    let over = vec![
        ModelGeometry { vertices: 2, indices: vec![] },
        ModelGeometry { vertices: 1, indices: vec![0, u32::MAX - 1] },
    ];
    assert_eq!(merge_indices(&over), None);
    let far = vec![
        ModelGeometry { vertices: usize::MAX, indices: vec![] },
        ModelGeometry { vertices: usize::MAX, indices: vec![] },
        ModelGeometry { vertices: 1, indices: vec![0] },
    ];
    assert_eq!(merge_indices(&far), None);
    let unused = vec![
        ModelGeometry { vertices: usize::MAX, indices: vec![7] },
        ModelGeometry { vertices: 1, indices: vec![] },
    ];
    assert_eq!(merge_indices(&unused), Some(vec![7]));
}

#[test]
fn last_dot_is_found() {
    assert_eq!(DOT, b'.');
    assert_eq!(find_last_dot(&bytes("a.b.c")), Some(3));
    assert_eq!(find_last_dot(&bytes(".")), Some(0));
    assert_eq!(find_last_dot(&bytes("abc")), None);
    assert_eq!(find_last_dot(&bytes("")), None);
}

#[test]
fn reference_splits_like_rsplitn() {
    for name in ["quad.mtl", "quad", "a.b.c", ".hidden", "trailing.", "", "..", "caf\u{e9}.mt\u{e9}l"] {
        let mut parts = name.rsplitn(2, '.');
        let last = parts.next();
        let first = parts.next();
        let expected = match (first, last) {
            (None, Some(st)) => (st, "mtl"),
            (Some(nm), Some(ex)) => (nm, ex),
            _ => unreachable!(),
        };
        let (stem, extension) = split_reference(&bytes(name));
        assert_eq!((stem, extension), (bytes(expected.0), bytes(expected.1)), "{}", name);
    }
}

#[test]
fn reference_examples() {
    assert_eq!(split_reference(&bytes("quad.mtl")), (bytes("quad"), bytes("mtl")));
    assert_eq!(split_reference(&bytes("quad")), (bytes("quad"), bytes("mtl")));
    assert_eq!(split_reference(&bytes("a.b.c")), (bytes("a.b"), bytes("c")));
    assert_eq!(split_reference(&bytes("trailing.")), (bytes("trailing"), bytes("")));
}

#[test]
fn texture_key_is_the_stem_or_default() {
    assert_eq!(texture_key(Some(&bytes("wood.png"))), bytes("wood"));
    assert_eq!(texture_key(Some(&bytes("a.b.png"))), bytes("a.b"));
    assert_eq!(texture_key(Some(&bytes("wood"))), bytes("default"));
    assert_eq!(texture_key(Some(&bytes(""))), bytes("default"));
    assert_eq!(texture_key(Some(&bytes(".png"))), bytes(""));
    assert_eq!(texture_key(None), bytes("default"));
}
