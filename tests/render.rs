use ml_gui::bitmap::{expected_img, image_pair, intensity, Bitmap};
use ml_gui::diagram::{architecture_diagram, Snapshot, SnapshotError};
use ml_gui::draw::{Fill, Pixel, Point, Segment, Stroke};
use ml_gui::graph::output_graph;
use ml_gui::layout::Rect;
use ml_gui::plot::cost_plot;
use ml_gui::UNIT;

fn seg(x0: i64, y0: i64, x1: i64, y1: i64, stroke: Stroke) -> Segment {
    Segment { from: Point { x: x0, y: y0 }, to: Point { x: x1, y: y1 }, stroke }
}

#[test]
fn cost_plot_axes_only_without_costs() {
    let r = Rect { x: 165, y: 86, w: 253, h: 394 };
    let lines = cost_plot(r, &vec![]);
    assert_eq!(
        lines,
        vec![
            seg(177, 124, 177, 461, Stroke::Axis),
            seg(406, 461, 177, 461, Stroke::Axis),
        ]
    );
}

#[test]
fn cost_plot_of_three_costs() {
    let r = Rect { x: 165, y: 86, w: 253, h: 394 };
    let lines = cost_plot(r, &vec![900_000, 500_000, 100_000]);
    assert_eq!(lines.len(), 4);
    assert_eq!(lines[2], seg(253, 124, 329, 274, Stroke::Cost { red: 141, green: 114 }));
    assert_eq!(lines[3], seg(329, 274, 406, 424, Stroke::Cost { red: 28, green: 227 }));
}

#[test]
fn cost_plot_of_zero_costs_stays_on_the_floor() {
    let r = Rect { x: 0, y: 0, w: 100, h: 100 };
    let lines = cost_plot(r, &vec![0, 0]);
    assert_eq!(lines[2], seg(50, 95, 95, 95, Stroke::Cost { red: 0, green: 255 }));
}

#[test]
fn cost_plot_single_cost_has_no_stretch() {
    let r = Rect { x: 0, y: 0, w: 100, h: 100 };
    assert_eq!(cost_plot(r, &vec![3]).len(), 2);
}

fn snapshot_2_3_1() -> Snapshot {
    let weights = vec![
        vec![vec![1, 2, 3], vec![4, 5, 6]],
        vec![vec![7], vec![8], vec![9]],
    ];
    let biases = vec![vec![-1, 0, 1], vec![2]];
    Snapshot::new(weights, biases, vec![2, 3, 1]).unwrap()
}

#[test]
fn diagram_of_a_2_3_1_network() {
    let s = snapshot_2_3_1();
    let d = architecture_diagram(Rect { x: 0, y: 0, w: 280, h: 280 }, &s);
    let sizes: Vec<usize> = d.neurons.iter().map(|l| l.len()).collect();
    assert_eq!(sizes, vec![2, 3, 1]);
    let edges: Vec<usize> = d.edges.iter().map(|l| l.len()).collect();
    assert_eq!(edges, vec![6, 3]);
    assert_eq!(edges.iter().sum::<usize>(), 9);
    assert!(d.neurons[0].iter().all(|n| n.fill == Fill::Input));
    let hidden: Vec<Fill> = d.neurons[1].iter().map(|n| n.fill).collect();
    assert_eq!(hidden, vec![Fill::Bias(-1), Fill::Bias(0), Fill::Bias(1)]);
    assert_eq!(d.neurons[2][0].fill, Fill::Bias(2));
}

#[test]
fn diagram_geometry() {
    let s = snapshot_2_3_1();
    let d = architecture_diagram(Rect { x: 0, y: 0, w: 280, h: 280 }, &s);
    assert_eq!(d.neurons[0][0].radius, 6);
    let centres: Vec<Vec<Point>> =
        d.neurons.iter().map(|l| l.iter().map(|n| n.center).collect()).collect();
    assert_eq!(
        centres,
        vec![
            vec![Point { x: 60, y: 98 }, Point { x: 60, y: 182 }],
            vec![Point { x: 140, y: 56 }, Point { x: 140, y: 140 }, Point { x: 140, y: 224 }],
            vec![Point { x: 220, y: 140 }],
        ]
    );
    assert_eq!(d.edges[0][5], seg(60, 182, 140, 224, Stroke::Weight(6)));
    assert_eq!(d.edges[1][1], seg(140, 140, 220, 140, Stroke::Weight(8)));
}

#[test]
fn snapshot_shapes_are_checked() {
    assert_eq!(Snapshot::new(vec![], vec![], vec![]).unwrap_err(), SnapshotError::NoLayers);
    assert_eq!(
        Snapshot::new(vec![vec![vec![1]]], vec![vec![1]], vec![1, 0]).unwrap_err(),
        SnapshotError::EmptyLayer
    );
    assert_eq!(
        Snapshot::new(vec![vec![vec![1, 2]]], vec![vec![1]], vec![1, 1]).unwrap_err(),
        SnapshotError::Mismatch
    );
    assert_eq!(
        Snapshot::new(vec![vec![vec![1]]], vec![], vec![1, 1]).unwrap_err(),
        SnapshotError::Mismatch
    );
    assert!(Snapshot::new(vec![], vec![], vec![4]).is_ok());
}

#[test]
fn output_graph_clips_what_leaves_the_plot() {
    let r = Rect { x: 0, y: 0, w: 200, h: 200 };
    let lines = output_graph(r, &vec![0, UNIT, -UNIT], &vec![0, 10 * UNIT, 0]);
    assert_eq!(
        lines,
        vec![
            seg(10, 20, 10, 190, Stroke::Axis),
            seg(190, 190, 10, 190, Stroke::Axis),
            seg(10, 105, 100, 63, Stroke::Reference),
            seg(100, 63, 190, 147, Stroke::Reference),
        ]
    );
}

#[test]
fn output_graph_draws_the_network_inside() {
    let r = Rect { x: 0, y: 0, w: 200, h: 200 };
    let lines = output_graph(r, &vec![0, UNIT], &vec![UNIT, 0, 5]);
    assert_eq!(lines.len(), 4);
    assert_eq!(lines[3], seg(10, 63, 190, 105, Stroke::Network));
}

#[test]
fn output_graph_empty_without_data() {
    let r = Rect { x: 0, y: 0, w: 200, h: 200 };
    assert!(output_graph(r, &vec![], &vec![1, 2]).is_empty());
    assert!(output_graph(r, &vec![1, 2], &vec![]).is_empty());
}

#[test]
fn intensities() {
    assert_eq!(intensity(-5), 0);
    assert_eq!(intensity(0), 0);
    assert_eq!(intensity(500_000), 127);
    assert_eq!(intensity(UNIT), 255);
    assert_eq!(intensity(3 * UNIT), 255);
}

#[test]
fn bitmaps_check_their_size() {
    assert!(Bitmap::new(2, 2, vec![0, 1, 2]).is_none());
    assert!(Bitmap::new(2, 2, vec![0, 1, 2, 3]).is_some());
    let b = Bitmap::from_values(2, 1, &vec![UNIT, 0]).unwrap();
    assert_eq!(b.pixels, vec![255, 0]);
    assert!(Bitmap::from_values(2, 2, &vec![UNIT, 0]).is_none());
}

#[test]
fn rgba_copies_grey() {
    let b = Bitmap::new(1, 2, vec![7, 200]).unwrap();
    assert_eq!(
        b.to_rgba(),
        vec![Pixel { r: 7, g: 7, b: 7, a: 255 }, Pixel { r: 200, g: 200, b: 200, a: 255 }]
    );
}

#[test]
fn image_pair_side_by_side() {
    let r = Rect { x: 0, y: 0, w: 100, h: 100 };
    let e = Some(Bitmap::new(2, 2, vec![0, 0, 0, 255]).unwrap());
    let o = Some(Bitmap::new(2, 2, vec![9, 9, 9, 9]).unwrap());
    let p = image_pair(r, &e, &o).unwrap();
    assert_eq!(p.expected_at, Point { x: 44, y: 47 });
    assert_eq!(p.output_at, Point { x: 50, y: 47 });
    assert_eq!(p.zoom, 3);
    assert_eq!(p.expected[3], Pixel { r: 255, g: 255, b: 255, a: 255 });
    assert_eq!(p.output[0], Pixel { r: 9, g: 9, b: 9, a: 255 });
}

#[test]
fn image_pair_skips_missing_or_mismatched() {
    let r = Rect { x: 0, y: 0, w: 100, h: 100 };
    let e = Some(Bitmap::new(2, 2, vec![0; 4]).unwrap());
    let o = Some(Bitmap::new(4, 1, vec![0; 4]).unwrap());
    assert!(image_pair(r, &e, &o).is_none());
    assert!(image_pair(r, &e, &None).is_none());
    assert!(image_pair(r, &None, &o).is_none());
}

#[test]
fn expected_digit_image() {
    let values: Vec<i64> = (0..784).map(|i| if i == 0 { UNIT } else { 0 }).collect();
    let b = expected_img(&values);
    assert_eq!((b.width, b.height), (28, 28));
    assert_eq!(b.pixels[0], 255);
    assert_eq!(b.pixels[1], 0);
    let dark = expected_img(&vec![UNIT; 10]);
    assert_eq!(dark.pixels, vec![0; 784]);
}
