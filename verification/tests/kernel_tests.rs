use cavalier_contours::polyline::{
    BooleanOp as KernelOp, PlineCreation, PlineSource, PlineSourceMut, Polyline as KernelPolyline,
};
use cavalier_contours::static_aabb2d_index::{
    Control as KernelControl, StaticAABB2DIndex as KernelIndex, StaticAABB2DIndexBuilder,
};
use cavalier_contours_web_ffi::{
    Aabb, BooleanOp, Control, NeighborSearch, Polyline, StaticAABB2DIndex, Vertex,
};

fn polyline(data: &[f64], closed: bool) -> Polyline<f64> {
    Polyline::new(data, closed, |a: f64| a.is_finite()).unwrap()
}

fn index(data: &[f64], node_size: usize) -> StaticAABB2DIndex<f64> {
    StaticAABB2DIndex::new(data, node_size, |a: f64| a.is_finite()).unwrap()
}

fn to_kernel(p: &Polyline<f64>) -> KernelPolyline<f64> {
    p.check(|a: f64| a.is_finite()).unwrap();
    let mut result = KernelPolyline::with_capacity(p.length(), p.is_closed());
    for i in 0..p.length() {
        let v = p.vertex(i);
        result.add(v.x, v.y, v.bulge);
    }
    result
}

fn from_kernel(p: &KernelPolyline<f64>) -> Polyline<f64> {
    let vertexes = p
        .iter_vertexes()
        .map(|v| Vertex { x: v.x, y: v.y, bulge: v.bulge })
        .collect();
    Polyline::from_vertexes(vertexes, p.is_closed(), |a: f64| a.is_finite()).unwrap()
}

fn build(framed: &StaticAABB2DIndex<f64>) -> KernelIndex<f64> {
    let mut builder =
        StaticAABB2DIndexBuilder::new_with_node_size(framed.count(), framed.node_size());
    for i in 0..framed.count() {
        let b = framed.item_box(i);
        builder.add(b.min_x, b.min_y, b.max_x, b.max_y);
    }
    builder.build().unwrap()
}

fn kernel_op(op: BooleanOp) -> KernelOp {
    match op {
        BooleanOp::Or => KernelOp::Or,
        BooleanOp::And => KernelOp::And,
        BooleanOp::Not => KernelOp::Not,
        BooleanOp::Xor => KernelOp::Xor,
    }
}

fn neighbors(index: &KernelIndex<f64>, x: f64, y: f64, max_results: u32, max_distance: f64) -> Vec<usize> {
    let mut search = NeighborSearch::new(max_results);
    if !search.is_done() {
        let limit = max_distance * max_distance;
        let mut visitor = |i: usize, dist: f64| match search.visit(i, dist <= limit) {
            Control::Continue => KernelControl::Continue,
            Control::Break => KernelControl::Break(()),
        };
        let _: KernelControl<()> = index.visit_neighbors(x, y, &mut visitor);
    }
    search.into_found()
}

fn square_at(x: f64, y: f64, side: f64) -> Polyline<f64> {
    polyline(
        &[x, y, 0.0, x + side, y, 0.0, x + side, y + side, 0.0, x, y + side, 0.0],
        true,
    )
}

fn grid_boxes() -> Vec<f64> {
    let mut data = Vec::new();
    for i in 0..40 {
        let x = (i % 8) as f64 * 10.0;
        let y = (i / 8) as f64 * 10.0;
        data.extend_from_slice(&[x, y, x + 4.0, y + 3.0]);
    }
    data
}

#[test]
fn kernel_round_trip_keeps_polyline() {
    let p = polyline(&[0.0, 0.0, 1.0, 10.0, 0.0, -0.5, 3.0, 4.0, 0.0], true);
    let back = from_kernel(&to_kernel(&p));
    assert_eq!(back, p);
    assert_eq!(polyline(&back.vertex_data(), back.is_closed()), p);
}

#[test]
fn square_area_follows_direction() {
    let p = square_at(0.0, 0.0, 10.0);
    let k = to_kernel(&p);
    assert_eq!(k.area(), 100.0);
    assert_eq!(k.path_length(), 40.0);
    let mut inverted = p.clone();
    inverted.invert_direction(|b: f64| -b);
    assert_eq!(inverted.length(), 4);
    assert!(inverted.is_closed());
    assert_eq!(to_kernel(&inverted).area(), -100.0);
    assert_eq!(inverted.vertex(0), Vertex { x: 0.0, y: 10.0, bulge: 0.0 });
}

#[test]
fn cycled_square_keeps_area() {
    let mut p = square_at(0.0, 0.0, 10.0);
    p.cycle_vertexes(3);
    assert_eq!(to_kernel(&p).area(), 100.0);
    assert_eq!(p.vertex(0), Vertex { x: 0.0, y: 10.0, bulge: 0.0 });
}

#[test]
fn outward_offset_of_square_grows_area() {
    let p = square_at(0.0, 0.0, 10.0);
    let found = to_kernel(&p).parallel_offset(-1.0);
    assert_eq!(found.len(), 1);
    let grown = from_kernel(&found[0]);
    let area = to_kernel(&grown).area();
    assert!(area > 100.0);
    let expected = 100.0 + 40.0 + std::f64::consts::PI;
    assert!((area - expected).abs() < 1e-6);
    let source = to_kernel(&p);
    for i in 0..grown.length() {
        let v = grown.vertex(i);
        let near = source
            .closest_point(cavalier_contours::core::math::Vector2::new(v.x, v.y), 1e-5)
            .unwrap();
        assert!((near.distance - 1.0).abs() < 1e-6);
    }
}

#[test]
fn inward_offset_past_radius_leaves_nothing() {
    let circle = polyline(&[0.0, 0.0, 1.0, 10.0, 0.0, 1.0], true);
    let k = to_kernel(&circle);
    assert!(k.parallel_offset(5.0).is_empty());
    assert!(k.parallel_offset(7.5).is_empty());
    assert_eq!(k.parallel_offset(2.0).len(), 1);
}

#[test]
fn boolean_and_with_itself_gives_itself() {
    let p = square_at(0.0, 0.0, 10.0);
    let k = to_kernel(&p);
    let op = BooleanOp::from_code(1).unwrap();
    let found = k.boolean(&k, kernel_op(op));
    assert_eq!(found.pos_plines.len(), 1);
    assert!(found.neg_plines.is_empty());
    let kept = from_kernel(&found.pos_plines[0].pline);
    assert_eq!(kept.length(), 4);
    assert_eq!(to_kernel(&kept).area(), 100.0);
}

#[test]
fn boolean_of_disjoint_squares() {
    let a = to_kernel(&square_at(0.0, 0.0, 10.0));
    let b = to_kernel(&square_at(20.0, 0.0, 5.0));
    let joined = a.boolean(&b, kernel_op(BooleanOp::from_code(0).unwrap()));
    assert_eq!(joined.pos_plines.len(), 2);
    assert!(joined.neg_plines.is_empty());
    let mut areas: Vec<f64> = joined.pos_plines.iter().map(|p| from_kernel(&p.pline)).map(|p| to_kernel(&p).area()).collect();
    areas.sort_by(|x, y| x.partial_cmp(y).unwrap());
    assert_eq!(areas, vec![25.0, 100.0]);
    let common = a.boolean(&b, kernel_op(BooleanOp::from_code(1).unwrap()));
    assert!(common.pos_plines.is_empty());
    assert!(common.neg_plines.is_empty());
}

#[test]
fn query_with_a_box_finds_that_box() {
    let data = grid_boxes();
    let framed = index(&data, 4);
    let index = build(&framed);
    for i in 0..framed.count() {
        let b = framed.item_box(i);
        let found = index.query(b.min_x, b.min_y, b.max_x, b.max_y);
        assert!(found.contains(&i));
        assert_eq!(found, vec![i]);
    }
}

#[test]
fn neighbors_come_nearest_first() {
    let data = grid_boxes();
    let index = build(&index(&data, 4));
    assert_eq!(neighbors(&index, 1.0, 0.5, 1, f64::INFINITY), vec![0]);
    assert_eq!(neighbors(&index, 1.0, 0.5, 3, f64::INFINITY), vec![0, 1, 8]);
    assert_eq!(neighbors(&index, 1.0, 0.5, 0, f64::INFINITY), Vec::<usize>::new());
    assert_eq!(neighbors(&index, 1.0, 0.5, 5, 9.2), vec![0, 1]);
    assert_eq!(neighbors(&index, 1.0, 0.5, 5, 9.0), vec![0, 1]);
    assert_eq!(neighbors(&index, 1.0, 0.5, 5, 8.9), vec![0]);
    assert_eq!(neighbors(&index, 1.0, 0.5, 5, 0.0), vec![0]);
    assert_eq!(neighbors(&index, -100.0, -100.0, 5, 1.0), Vec::<usize>::new());
    assert_eq!(neighbors(&index, 1.0, 1.0, 100, f64::INFINITY).len(), 40);
}

#[test]
fn neighbors_are_closer_than_the_rest() {
    let data = grid_boxes();
    let framed = index(&data, 4);
    let index = build(&framed);
    let (x, y) = (33.0, 17.5);
    let dist = |b: Aabb<f64>| {
        let dx = (b.min_x - x).max(0.0).max(x - b.max_x);
        let dy = (b.min_y - y).max(0.0).max(y - b.max_y);
        dx * dx + dy * dy
    };
    let found = neighbors(&index, x, y, 7, f64::INFINITY);
    assert_eq!(found.len(), 7);
    let worst = found.iter().map(|&i| dist(framed.item_box(i))).fold(0.0, f64::max);
    for i in 0..framed.count() {
        if !found.contains(&i) {
            assert!(dist(framed.item_box(i)) >= worst);
        }
    }
    for w in found.windows(2) {
        assert!(dist(framed.item_box(w[0])) <= dist(framed.item_box(w[1])));
    }
}

#[test]
fn tree_data_of_a_built_index() {
    let data = grid_boxes();
    let index = build(&index(&data, 4));
    let bounds = index.level_bounds();
    let scaled = StaticAABB2DIndex::<f64>::level_bounds(bounds);
    assert_eq!(scaled.len(), bounds.len());
    assert_eq!(scaled[0], 160);
    for i in 0..bounds.len() {
        assert_eq!(scaled[i] as usize, 4 * bounds[i]);
    }
    let boxes: Vec<Aabb<f64>> = index
        .all_boxes()
        .iter()
        .map(|b| Aabb { min_x: b.min_x, min_y: b.min_y, max_x: b.max_x, max_y: b.max_y })
        .collect();
    let flat = StaticAABB2DIndex::all_boxes(&boxes);
    assert_eq!(flat.len(), 4 * boxes.len());
    assert_eq!(*scaled.last().unwrap() as usize, flat.len());
    for (i, b) in boxes.iter().enumerate() {
        assert_eq!(&flat[4 * i..4 * i + 4], &[b.min_x, b.min_y, b.max_x, b.max_y]);
    }
}

#[test]
fn approximated_arc_stays_within_error() {
    let eps = 0.01;
    let half_circle = polyline(&[0.0, 0.0, 1.0, 2.0, 0.0, 0.0], false);
    let lines = from_kernel(&to_kernel(&half_circle).arcs_to_approx_lines(eps).unwrap());
    assert!(lines.length() > 2);
    let data = lines.position_data();
    assert_eq!(data.len(), 2 * lines.length());
    let radial = |x: f64, y: f64| ((x - 1.0) * (x - 1.0) + y * y).sqrt();
    for i in 0..lines.length() {
        let v = lines.vertex(i);
        assert_eq!(v.bulge, 0.0);
        assert!((radial(v.x, v.y) - 1.0).abs() < 1e-9);
        if i + 1 < lines.length() {
            let w = lines.vertex(i + 1);
            let mid = radial((v.x + w.x) / 2.0, (v.y + w.y) / 2.0);
            assert!(1.0 - mid <= eps + 1e-9);
        }
    }
}

fn lens() -> Polyline<f64> {
    polyline(&[0.0, 0.0, 0.5, 4.0, 0.0, 0.25, 4.0, 3.0, -1.0, 1.0, 5.0, 0.0], true)
}

#[test]
fn invert_direction_agrees_with_kernel() {
    for closed in [true, false] {
        let mut p = lens();
        p.set_is_closed(closed);
        let mut k = to_kernel(&p);
        k.invert_direction_mut();
        p.invert_direction(|b: f64| -b);
        assert_eq!(p, from_kernel(&k));
    }
    let mut one = polyline(&[1.0, 2.0, 0.5], true);
    let mut k = to_kernel(&one);
    k.invert_direction_mut();
    one.invert_direction(|b: f64| -b);
    assert_eq!(one, from_kernel(&k));
    assert_eq!(one.vertex_data(), vec![1.0, 2.0, 0.5]);
}

#[test]
fn inverted_polyline_winds_the_other_way() {
    let p = lens();
    let mut q = p.clone();
    q.invert_direction(|b: f64| -b);
    let (a, b) = (to_kernel(&p).area(), to_kernel(&q).area());
    assert!(a > 0.0);
    assert!((a + b).abs() < 1e-9);
    assert!((to_kernel(&p).path_length() - to_kernel(&q).path_length()).abs() < 1e-9);
    q.invert_direction(|b: f64| -b);
    assert_eq!(q, p);
}

#[test]
fn scale_and_translate_agree_with_kernel() {
    let mut p = lens();
    let mut k = to_kernel(&p);
    k.scale_mut(2.5);
    p.scale(|a| 2.5 * a);
    assert_eq!(p, from_kernel(&k));
    k.translate_mut(-3.0, 7.0);
    p.translate(|x| x + -3.0, |y| y + 7.0);
    assert_eq!(p, from_kernel(&k));
    assert_eq!(p.vertex(1), Vertex { x: 7.0, y: 7.0, bulge: 0.25 });
}

#[test]
fn segment_count_agrees_with_kernel() {
    for n in 0..5usize {
        for closed in [true, false] {
            let data: Vec<f64> = (0..3 * n).map(|i| i as f64).collect();
            let p = polyline(&data, closed);
            assert_eq!(p.segment_count(), to_kernel(&p).segment_count());
        }
    }
}

#[test]
fn neighbors_are_distinct_items() {
    let data = grid_boxes();
    let index = build(&index(&data, 4));
    for k in [0u32, 1, 5, 40, 41, 1000] {
        let found = neighbors(&index, 12.0, 31.0, k, f64::INFINITY);
        assert_eq!(found.len(), (k as usize).min(40));
        let mut seen = found.clone();
        seen.sort();
        seen.dedup();
        assert_eq!(seen.len(), found.len());
        assert!(found.iter().all(|&i| i < 40));
    }
}
