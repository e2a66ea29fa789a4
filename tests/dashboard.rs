use ml_gui::bitmap::Bitmap;
use ml_gui::diagram::Snapshot;
use ml_gui::draw::{Fill, Stroke};
use ml_gui::gui::{predicted_class, Command, Key, GUI};
use ml_gui::layout::{LayoutError, Rect};
use ml_gui::section::Section;
use ml_gui::widget::{Drawing, Widget, WidgetState, WidgetType};
use ml_gui::UNIT;

fn tiny_snapshot() -> Snapshot {
    Snapshot::new(vec![vec![vec![0]]], vec![vec![0]], vec![1, 1]).unwrap()
}

fn costs_of(w: &Widget) -> Vec<u64> {
    match &w.state {
        WidgetState::CostPlot(h) => h.costs.clone(),
        _ => panic!("not a cost plot"),
    }
}

#[test]
fn two_cost_plots_end_at_the_right_inset() {
    let mut gui = GUI::new(720, 480);
    gui.set_sections(&vec![vec![WidgetType::CostPlot], vec![WidgetType::CostPlot]]).unwrap();
    let s = tiny_snapshot();
    for cost in [900_000u64, 500_000, 100_000] {
        gui.update(cost, &s, &vec![]);
    }
    let drawings = gui.render();
    assert_eq!(drawings.len(), 2);
    for (i, section) in drawings.iter().enumerate() {
        let w = gui.sections[i].widgets[0].rect;
        let right_inset = (w.x + w.w - w.w * 50 / 1000) as i64;
        match &section[0] {
            Drawing::Lines(lines) => {
                let last = lines.last().unwrap();
                assert_eq!(last.to.x, right_inset);
                match last.stroke {
                    Stroke::Cost { red, green } => assert!(green > red),
                    _ => panic!("not a cost stroke"),
                }
            },
            _ => panic!("a cost plot draws lines"),
        }
    }
    assert_eq!(gui.sections[1].widgets[0].rect, Rect { x: 453, y: 86, w: 253, h: 394 });
}

#[test]
fn output_image_without_data_draws_nothing() {
    let w = Widget::new(Rect { x: 0, y: 0, w: 100, h: 100 }, WidgetType::OutputImg);
    assert!(matches!(w.render(), Drawing::Nothing));
    assert!(w.draw_image().is_none());
}

#[test]
fn architecture_without_snapshot_draws_nothing() {
    let w = Widget::new(Rect { x: 0, y: 0, w: 100, h: 100 }, WidgetType::Architecture);
    assert!(matches!(w.render(), Drawing::Nothing));
}

#[test]
fn architecture_widget_draws_the_pushed_network() {
    let mut w = Widget::new(Rect { x: 0, y: 0, w: 280, h: 280 }, WidgetType::Architecture);
    let s = Snapshot::new(
        vec![vec![vec![1, 2, 3], vec![4, 5, 6]], vec![vec![7], vec![8], vec![9]]],
        vec![vec![10, 20, 30], vec![40]],
        vec![2, 3, 1],
    )
    .unwrap();
    w.update(0, &s, 1, &vec![]);
    match w.render() {
        Drawing::Diagram(d) => {
            let discs: usize = d.neurons.iter().map(|l| l.len()).sum();
            let edges: usize = d.edges.iter().map(|l| l.len()).sum();
            assert_eq!(discs, 6);
            assert_eq!(edges, 2 * 3 + 3 * 1);
            assert_eq!(d.neurons[0].len(), 2);
            assert_eq!(d.neurons[1].iter().map(|n| n.fill).collect::<Vec<_>>(),
                vec![Fill::Bias(10), Fill::Bias(20), Fill::Bias(30)]);
            assert_eq!(d.neurons[2][0].fill, Fill::Bias(40));
        },
        _ => panic!("a diagram was expected"),
    }
}

#[test]
fn output_image_lays_outputs_like_the_expected_image() {
    let mut w = Widget::new(Rect { x: 0, y: 0, w: 100, h: 100 }, WidgetType::OutputImg);
    let s = tiny_snapshot();
    w.update(0, &s, 1, &vec![UNIT, 0, 0, UNIT]);
    assert!(matches!(w.render(), Drawing::Nothing));
    w.set_expected_image(&Bitmap::new(2, 2, vec![0, 255, 255, 0]).unwrap());
    w.update(0, &s, 1, &vec![UNIT, 0, 0, UNIT]);
    match w.render() {
        Drawing::Images(p) => {
            assert_eq!(p.output[0].r, 255);
            assert_eq!(p.expected[1].r, 255);
        },
        _ => panic!("images were expected"),
    }
    w.update(0, &s, 1, &vec![UNIT; 3]);
    assert!(matches!(w.render(), Drawing::Nothing));
}

#[test]
fn output_graph_widget_uses_reference_and_outputs() {
    let mut w = Widget::new(Rect { x: 0, y: 0, w: 200, h: 200 }, WidgetType::OutputGraph);
    assert!(matches!(w.render(), Drawing::Lines(ref l) if l.is_empty()));
    w.set_dense_data(&vec![0, UNIT]);
    w.update(0, &tiny_snapshot(), 1, &vec![UNIT, 0]);
    match w.render() {
        Drawing::Lines(l) => assert_eq!(l.len(), 4),
        _ => panic!("lines were expected"),
    }
}

#[test]
fn widgets_ignore_data_of_other_kinds() {
    let mut w = Widget::new(Rect { x: 0, y: 0, w: 100, h: 100 }, WidgetType::CostPlot);
    w.set_dense_data(&vec![1, 2, 3]);
    w.set_expected_image(&Bitmap::new(1, 1, vec![0]).unwrap());
    assert_eq!(w.widget_type(), WidgetType::CostPlot);
    assert!(costs_of(&w).is_empty());
    let mut g = Widget::new(Rect { x: 0, y: 0, w: 100, h: 100 }, WidgetType::OutputGraph);
    g.pop_cost();
    g.set_cost_expiration(true, 3);
    assert_eq!(g.widget_type(), WidgetType::OutputGraph);
}

#[test]
fn section_stacks_its_widgets() {
    let mut s = Section::new(Rect { x: 151, y: 66, w: 281, h: 414 });
    assert_eq!(s.set_widgets(&vec![]), Err(LayoutError::Empty));
    s.set_widgets(&vec![WidgetType::CostPlot, WidgetType::OutputGraph, WidgetType::Architecture])
        .unwrap();
    let kinds: Vec<WidgetType> = s.widgets.iter().map(|w| w.widget_type()).collect();
    assert_eq!(kinds, vec![WidgetType::CostPlot, WidgetType::OutputGraph, WidgetType::Architecture]);
    assert_eq!(s.widgets[1].rect, Rect { x: 165, y: 224, w: 253, h: 118 });
    assert_eq!(s.set_widgets(&vec![WidgetType::CostPlot; 21]), Err(LayoutError::Crowded));
    assert_eq!(s.widgets.len(), 3);
}

#[test]
fn set_sections_refuses_bad_lists() {
    let mut gui = GUI::new(720, 480);
    assert_eq!(gui.set_sections(&vec![]), Err(LayoutError::Empty));
    assert_eq!(
        gui.set_sections(&vec![vec![WidgetType::CostPlot], vec![]]),
        Err(LayoutError::Empty)
    );
    assert_eq!(
        gui.set_sections(&vec![vec![WidgetType::CostPlot]; 83]),
        Err(LayoutError::Crowded)
    );
    assert_eq!(
        gui.set_sections(&vec![vec![WidgetType::CostPlot], vec![WidgetType::CostPlot; 21]]),
        Err(LayoutError::Crowded)
    );
    assert!(gui.sections.is_empty());
}

#[test]
fn tick_counts_epochs_and_expires_costs() {
    let mut gui = GUI::new(720, 480);
    gui.set_sections(&vec![vec![WidgetType::CostPlot]]).unwrap();
    gui.set_epochs_per_second(20);
    gui.set_cost_expiration(true, 39);
    let s = tiny_snapshot();
    gui.update(1, &s, &vec![]);
    gui.update(2, &s, &vec![]);
    assert_eq!(gui.epochs, 40);
    assert_eq!(costs_of(&gui.sections[0].widgets[0]), vec![2]);
}

#[test]
fn keys_drive_the_dashboard() {
    let mut gui = GUI::new(720, 480);
    gui.set_sections(&vec![vec![WidgetType::CostPlot]]).unwrap();
    let s = tiny_snapshot();
    for c in 0..250u64 {
        gui.update(c, &s, &vec![]);
    }
    assert_eq!(gui.press(Key::Backspace), Command::Nothing);
    assert_eq!(costs_of(&gui.sections[0].widgets[0]).len(), 150);
    assert_eq!(gui.press(Key::Space), Command::Nothing);
    assert!(!gui.will_train);
    assert_eq!(gui.press(Key::Space), Command::Nothing);
    assert!(gui.will_train);
    assert_eq!(gui.press(Key::F), Command::PrintOutputs);
    assert_eq!(gui.press(Key::I), Command::SaveImage);
    assert_eq!(gui.press(Key::S), Command::SaveModel);
    assert_eq!(gui.press(Key::Other), Command::Unbound);
    assert_eq!(gui.epochs, 250);
    assert_eq!(gui.press(Key::R), Command::ResetNetwork);
    assert_eq!(gui.epochs, 0);
    assert!(costs_of(&gui.sections[0].widgets[0]).is_empty());
    gui.update(5, &s, &vec![]);
    assert_eq!(gui.press(Key::L), Command::LoadModel);
    assert!(costs_of(&gui.sections[0].widgets[0]).is_empty());
}

#[test]
fn predicted_class_takes_the_last_largest() {
    assert_eq!(predicted_class(&vec![]), None);
    assert_eq!(predicted_class(&vec![3, 9, 1]), Some(1));
    assert_eq!(predicted_class(&vec![9, 2, 9, 4]), Some(2));
    assert_eq!(predicted_class(&vec![-5]), Some(0));
}
