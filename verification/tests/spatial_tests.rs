use cp_ai::spatial::{component_size, cut_fraction, offensive_cut_value, OwnedGraph};

fn line5() -> Vec<Vec<usize>> {
    vec![vec![1], vec![0, 2], vec![1, 3], vec![2, 4], vec![3]]
}

#[test]
fn component_size_excludes_node() {
    let adj = line5();
    assert_eq!(component_size(&adj, 0, None), 5);
    assert_eq!(component_size(&adj, 0, Some(2)), 2);
    assert_eq!(component_size(&adj, 0, Some(0)), 0);
}

#[test]
fn cut_fraction_leaf_is_zero() {
    let adj = line5();
    assert_eq!(cut_fraction(&adj, 0, 4).0, 0);
}

#[test]
fn cut_fraction_articulation() {
    let adj = line5();
    let f = cut_fraction(&adj, 0, 2);
    assert!((f.0 as f64 / f.1 as f64 - 2.0 / 4.0).abs() < 1e-9, "expected 0.5, got {:?}", f);
    assert_eq!(f, (2, 4));
    let f1 = cut_fraction(&adj, 0, 1);
    assert!((f1.0 as f64 / f1.1 as f64 - 3.0 / 4.0).abs() < 1e-9, "expected 0.75, got {:?}", f1);
}

#[test]
fn cut_fraction_hq_is_one() {
    let adj = line5();
    let f = cut_fraction(&adj, 0, 0);
    assert_eq!(f.0, f.1);
}

#[test]
fn cut_fraction_star_center() {
    let adj = vec![vec![1, 2, 3], vec![0], vec![0], vec![0]];
    let f = cut_fraction(&adj, 1, 0);
    assert!((f.0 as f64 / f.1 as f64 - 2.0 / 3.0).abs() < 1e-9, "expected 0.667, got {:?}", f);
}

/// Column-major board of `w` by `h` tiles with its orthogonal neighbours.
fn board4(w: usize, h: usize) -> Vec<Vec<usize>> {
    let mut nb = vec![Vec::new(); w * h];
    for x in 0..w {
        for y in 0..h {
            let i = x * h + y;
            if x > 0 {
                nb[i].push((x - 1) * h + y);
            }
            if x + 1 < w {
                nb[i].push((x + 1) * h + y);
            }
            if y > 0 {
                nb[i].push(x * h + y - 1);
            }
            if y + 1 < h {
                nb[i].push(x * h + y + 1);
            }
        }
    }
    nb
}

#[test]
fn offensive_cut_value_line() {
    // 6x3 board; the enemy (player 1) holds (0,0)..(3,0) with its HQ at (0,0).
    let (w, h) = (6usize, 3usize);
    let at = |x: usize, y: usize| x * h + y;
    let nb = board4(w, h);
    let mut owners: Vec<Option<usize>> = vec![None; w * h];
    let line = [at(0, 0), at(1, 0), at(2, 0), at(3, 0)];
    for &t in &line {
        owners[t] = Some(1);
    }
    let hq_of = vec![None, Some(line[0])];
    let frac = |attacker: usize, t: usize, owners: &Vec<Option<usize>>| {
        let (n, d) = offensive_cut_value(owners, &nb, &hq_of, attacker, t);
        n as f64 / d as f64
    };
    assert!((frac(0, line[0], &owners) - 1.0).abs() < 1e-9);
    let f1 = frac(0, line[1], &owners);
    assert!((f1 - 2.0 / 3.0).abs() < 1e-9, "expected 0.667 got {f1}");
    let f2 = frac(0, line[2], &owners);
    assert!((f2 - 1.0 / 3.0).abs() < 1e-9, "expected 0.333 got {f2}");
    assert_eq!(frac(0, line[3], &owners), 0.0);
    let neutral = at(5, 2);
    owners[neutral] = None;
    assert_eq!(frac(0, neutral, &owners), 0.0);
    assert_eq!(frac(1, line[2], &owners), 0.0);
}

#[test]
fn owned_graph_counts_and_cuts() {
    let (w, h) = (6usize, 3usize);
    let nb = board4(w, h);
    let mut owners: Vec<Option<usize>> = vec![None; w * h];
    for x in 0..4 {
        owners[x * h] = Some(1);
    }
    let g = OwnedGraph::build(&owners, &nb, Some(0), 1);
    assert_eq!(g.owned_count(), 4);
    assert_eq!(g.cut_fraction_of(3), (2, 3));
    assert_eq!(g.cut_fraction_of(1), (0, 1));
}
