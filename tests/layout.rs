use tui_layout::center_test::CenterTest;
use tui_layout::element::{add_ref, wrap, ElemRef, Element, RenderStep, UiTree};
use tui_layout::geometry::{MeasureSize, Point, Rect, Size};
use tui_layout::grid::{resolve_tracks, Grid, GridLength};
use tui_layout::match_box::MatchBoxStyle;
use tui_layout::test_view::TestView;
use tui_layout::ui_root::UiRoot;
use tui_layout::wrap_box::{compute_lines, lines_extent, Line, WrapAlign, WrapBox, WrapMode};

fn leaf(tree: &mut UiTree, w: i32, h: i32) -> ElemRef {
    wrap(tree, Element::Leaf(Size { w, h }))
}

fn ms(w: Option<i32>, h: Option<i32>) -> MeasureSize {
    MeasureSize { w, h }
}

fn rect(x: i32, y: i32, w: i32, h: i32) -> Rect {
    Rect { pos: Point { x, y }, size: Size { w, h } }
}

#[test]
fn static_grid_reports_declared_sums_whatever_the_constraint() {
    let mut tree = UiTree::new();
    let a = leaf(&mut tree, 50, 50);
    let g = Grid::new(
        vec![(a, (1, 0))],
        vec![GridLength::Static(2), GridLength::Static(3)],
        vec![GridLength::Static(4), GridLength::Static(6)],
    );
    let grid = wrap(&mut tree, Element::Grid(g));
    for c in [ms(None, None), ms(Some(100), Some(100)), ms(Some(1), Some(0))] {
        tree.measure(grid, c);
        assert_eq!(tree.desired_size(grid), ms(Some(10), Some(5)));
    }
}

#[test]
fn static_grid_sum_beyond_the_integer_range_is_clamped() {
    let mut tree = UiTree::new();
    let g = Grid::new(
        vec![],
        vec![GridLength::Static(i32::MAX), GridLength::Static(5)],
        vec![GridLength::Static(1)],
    );
    let grid = wrap(&mut tree, Element::Grid(g));
    tree.measure(grid, ms(None, None));
    assert_eq!(tree.desired_size(grid), ms(Some(1), Some(i32::MAX)));
}

#[test]
fn single_dynamic_row_takes_all_free_height() {
    let rows = vec![GridLength::Static(2), GridLength::Dynamic(1), GridLength::Content];
    let content = vec![0, 0, 1];
    assert_eq!(resolve_tracks(&rows, &content, Some(10)), vec![2, 7, 1]);
    assert_eq!(resolve_tracks(&rows, &content, Some(3)), vec![2, 0, 1]);
    assert_eq!(resolve_tracks(&rows, &content, Some(1)), vec![2, 0, 1]);
    assert_eq!(resolve_tracks(&rows, &content, None), vec![2, 0, 1]);
}

#[test]
fn single_dynamic_row_in_a_grid() {
    let mut tree = UiTree::new();
    let a = leaf(&mut tree, 3, 1);
    let g = Grid::new(
        vec![(a, (2, 0))],
        vec![GridLength::Static(2), GridLength::Dynamic(1), GridLength::Content],
        vec![GridLength::Static(5)],
    );
    let grid = wrap(&mut tree, Element::Grid(g));
    tree.measure(grid, ms(Some(5), Some(10)));
    assert_eq!(tree.desired_size(grid), ms(Some(5), Some(10)));
    tree.arrange(grid, rect(0, 0, 5, 10));
    assert_eq!(tree.rect(a), rect(0, 9, 5, 1));
}

#[test]
fn two_dynamic_columns_split_by_weight() {
    let cols = vec![GridLength::Dynamic(1), GridLength::Dynamic(3)];
    assert_eq!(resolve_tracks(&cols, &vec![0, 0], Some(40)), vec![10, 30]);
}

#[test]
fn two_dynamic_columns_in_a_grid() {
    let mut tree = UiTree::new();
    let a = leaf(&mut tree, 1, 1);
    let b = leaf(&mut tree, 1, 1);
    let g = Grid::new(
        vec![(a, (0, 0)), (b, (0, 1))],
        vec![GridLength::Static(1)],
        vec![GridLength::Dynamic(1), GridLength::Dynamic(3)],
    );
    let grid = wrap(&mut tree, Element::Grid(g));
    tree.measure(grid, ms(Some(40), Some(1)));
    assert_eq!(tree.desired_size(grid), ms(Some(40), Some(1)));
    tree.arrange(grid, rect(2, 3, 40, 1));
    assert_eq!(tree.rect(a), rect(2, 3, 10, 1));
    assert_eq!(tree.rect(b), rect(12, 3, 30, 1));
}

#[test]
fn rounding_remainders_are_not_lost() {
    let cols = vec![GridLength::Dynamic(1), GridLength::Dynamic(1), GridLength::Dynamic(1)];
    let r = resolve_tracks(&cols, &vec![0, 0, 0], Some(10));
    assert_eq!(r.iter().sum::<i32>(), 10);
    assert_eq!(r, vec![3, 4, 3]);
    let four = vec![GridLength::Dynamic(1); 4];
    assert_eq!(resolve_tracks(&four, &vec![0; 4], Some(2)), vec![1, 0, 1, 0]);
}

#[test]
fn zero_weights_get_nothing() {
    let cols = vec![GridLength::Dynamic(0), GridLength::Static(2)];
    assert_eq!(resolve_tracks(&cols, &vec![0, 0], Some(10)), vec![0, 2]);
}

fn items(ws: &[i32], h: i32) -> Vec<(i32, i32)> {
    ws.iter().map(|w| (*w, h)).collect()
}

#[test]
fn lines_partition_the_children_in_order() {
    let cases: Vec<(Vec<i32>, Option<i32>)> = vec![
        (vec![], Some(3)),
        (vec![1, 2, 3, 4, 5, 6], Some(6)),
        (vec![9, 1, 9, 1], Some(5)),
        (vec![0, 0, 7, 0], Some(0)),
        (vec![3, 3, 3], None),
    ];
    for (ws, limit) in cases {
        let lines = compute_lines(&items(&ws, 1), limit);
        let total: usize = lines.iter().map(|l| l.count).sum();
        assert_eq!(total, ws.len());
        assert!(lines.iter().all(|l| l.count >= 1));
        let mut start = 0;
        for l in &lines {
            let sum: i32 = ws[start..start + l.count].iter().sum();
            assert_eq!(l.main, sum);
            start += l.count;
        }
    }
}

#[test]
fn three_children_wrap_into_two_lines() {
    let lines = compute_lines(&items(&[5, 5, 5], 2), Some(12));
    assert_eq!(
        lines,
        vec![Line { main: 10, cross: 2, count: 2 }, Line { main: 5, cross: 2, count: 1 }]
    );
    assert_eq!(lines_extent(&lines, 1), (10, 2 * 2 + 1));
}

#[test]
fn wrap_box_rows_scenario() {
    let mut tree = UiTree::new();
    let kids: Vec<ElemRef> = (0..3).map(|_| leaf(&mut tree, 5, 2)).collect();
    let b = WrapBox::new(kids.clone(), WrapMode::Rows, WrapAlign::Begin, 1);
    let wb = wrap(&mut tree, Element::WrapBox(b));
    tree.measure(wb, ms(Some(12), None));
    assert_eq!(tree.desired_size(wb), ms(Some(10), Some(5)));
    tree.arrange(wb, rect(1, 1, 12, 5));
    assert_eq!(tree.rect(kids[0]), rect(1, 1, 5, 2));
    assert_eq!(tree.rect(kids[1]), rect(6, 1, 5, 2));
    assert_eq!(tree.rect(kids[2]), rect(1, 4, 5, 2));
}

#[test]
fn wrap_box_stretches_children_to_the_line() {
    let mut tree = UiTree::new();
    let a = leaf(&mut tree, 2, 1);
    let b = leaf(&mut tree, 2, 3);
    let c = leaf(&mut tree, 4, 1);
    let bx = WrapBox::new(vec![a, b, c], WrapMode::Rows, WrapAlign::Stretch, 0);
    let wb = wrap(&mut tree, Element::WrapBox(bx));
    tree.measure(wb, ms(Some(5), None));
    assert_eq!(tree.desired_size(wb), ms(Some(4), Some(4)));
    tree.arrange(wb, rect(0, 0, 5, 4));
    assert_eq!(tree.rect(a), rect(0, 0, 2, 3));
    assert_eq!(tree.rect(b), rect(2, 0, 2, 3));
    assert_eq!(tree.rect(c), rect(0, 3, 4, 1));
}

#[test]
fn wrap_box_columns() {
    let mut tree = UiTree::new();
    let a = leaf(&mut tree, 3, 2);
    let b = leaf(&mut tree, 1, 2);
    let c = leaf(&mut tree, 2, 2);
    let bx = WrapBox::new(vec![a, b, c], WrapMode::Cols, WrapAlign::Begin, 2);
    let wb = wrap(&mut tree, Element::WrapBox(bx));
    tree.measure(wb, ms(None, Some(4)));
    assert_eq!(tree.desired_size(wb), ms(Some(7), Some(4)));
    tree.arrange(wb, rect(0, 0, 7, 4));
    assert_eq!(tree.rect(a), rect(0, 0, 3, 2));
    assert_eq!(tree.rect(b), rect(0, 2, 3, 2));
    assert_eq!(tree.rect(c), rect(5, 0, 2, 2));
}

#[test]
fn empty_wrap_box_has_zero_size() {
    let mut tree = UiTree::new();
    let bx = WrapBox::new(vec![], WrapMode::Rows, WrapAlign::Begin, 3);
    let wb = wrap(&mut tree, Element::WrapBox(bx));
    tree.measure(wb, ms(Some(10), Some(10)));
    assert_eq!(tree.desired_size(wb), ms(Some(0), Some(0)));
    assert!(tree.render(wb).is_empty());
}

#[test]
fn oversized_child_gets_its_own_line() {
    let lines = compute_lines(&items(&[2, 20, 2], 1), Some(10));
    assert_eq!(
        lines,
        vec![
            Line { main: 2, cross: 1, count: 1 },
            Line { main: 20, cross: 1, count: 1 },
            Line { main: 2, cross: 1, count: 1 },
        ]
    );
    assert_eq!(lines_extent(&lines, 0), (20, 3));
}

#[test]
fn measuring_twice_gives_the_same_size() {
    let mut tree = UiTree::new();
    let a = leaf(&mut tree, 8, 1);
    let b = leaf(&mut tree, 3, 2);
    let g = Grid::new(
        vec![(a, (0, 0)), (b, (1, 1))],
        vec![GridLength::Content, GridLength::Dynamic(2)],
        vec![GridLength::Content, GridLength::Dynamic(1)],
    );
    let grid = wrap(&mut tree, Element::Grid(g));
    tree.measure(grid, ms(Some(30), Some(9)));
    let first = tree.desired_size(grid);
    tree.measure(grid, ms(Some(30), Some(9)));
    assert_eq!(tree.desired_size(grid), first);
    assert_eq!(first, ms(Some(30), Some(9)));
}

#[test]
fn arrange_and_render_keep_desired_sizes() {
    let mut tree = UiTree::new();
    let a = leaf(&mut tree, 4, 1);
    let b = leaf(&mut tree, 6, 1);
    let bx = WrapBox::new(vec![a, b], WrapMode::Rows, WrapAlign::Begin, 0);
    let wb = wrap(&mut tree, Element::WrapBox(bx));
    tree.measure(wb, ms(Some(8), None));
    let before: Vec<MeasureSize> = [a, b, wb].iter().map(|e| tree.desired_size(*e)).collect();
    tree.arrange(wb, rect(0, 0, 8, 2));
    let steps = tree.render(wb);
    let after: Vec<MeasureSize> = [a, b, wb].iter().map(|e| tree.desired_size(*e)).collect();
    assert_eq!(before, after);
    assert_eq!(
        steps,
        vec![RenderStep::Paint(a, rect(0, 0, 4, 1)), RenderStep::Paint(b, rect(0, 1, 6, 1))]
    );
}

#[test]
fn content_grid_scenario() {
    let mut tree = UiTree::new();
    let child = leaf(&mut tree, 8, 1);
    let g = Grid::new(vec![(child, (0, 0))], vec![GridLength::Content], vec![GridLength::Content]);
    let grid = wrap(&mut tree, Element::Grid(g));
    tree.measure(grid, ms(None, None));
    assert_eq!(tree.desired_size(grid), ms(Some(8), Some(1)));
    tree.arrange(grid, rect(0, 0, 8, 1));
    assert_eq!(tree.rect(child), rect(0, 0, 8, 1));
    assert_eq!(tree.render(grid), vec![RenderStep::Paint(child, rect(0, 0, 8, 1))]);
}

#[test]
fn center_test_centres_its_child() {
    let mut tree = UiTree::new();
    let child = leaf(&mut tree, 4, 2);
    let ct = wrap(&mut tree, Element::CenterTest(CenterTest::new(child)));
    tree.measure(ct, ms(Some(10), Some(7)));
    assert_eq!(tree.desired_size(ct), ms(Some(10), Some(7)));
    tree.arrange(ct, rect(1, 1, 10, 7));
    assert_eq!(tree.rect(child), rect(4, 3, 4, 2));
}

#[test]
fn test_view_lays_out_two_rows_and_places_the_cursor() {
    let mut tree = UiTree::new();
    let word_box = leaf(&mut tree, 9, 1);
    let match_box = leaf(&mut tree, 5, 1);
    let view = TestView::new(&mut tree, add_ref(&word_box), match_box);
    let v = wrap(&mut tree, Element::TestView(view));
    let root = UiRoot::new(v);
    let steps = root.resize(&mut tree, Size { w: 20, h: 6 });
    assert_eq!(tree.desired_size(v), ms(Some(20), Some(6)));
    assert_eq!(tree.rect(match_box), rect(0, 0, 20, 5));
    assert_eq!(tree.rect(word_box), rect(0, 5, 20, 1));
    assert_eq!(
        steps,
        vec![
            RenderStep::Paint(word_box, rect(0, 5, 20, 1)),
            RenderStep::Paint(match_box, rect(0, 0, 20, 5)),
            RenderStep::Cursor(word_box),
        ]
    );
}

#[test]
fn ui_root_runs_a_full_pass() {
    let mut tree = UiTree::new();
    let a = leaf(&mut tree, 3, 1);
    let root = UiRoot::new(a);
    let steps = root.resize(&mut tree, Size { w: 80, h: 24 });
    assert_eq!(tree.desired_size(a), ms(Some(3), Some(1)));
    assert_eq!(steps, vec![RenderStep::Paint(a, rect(0, 0, 80, 24))]);
    assert_eq!(tree.len(), 1);
}

#[test]
fn match_box_style_picks_the_colour_pair() {
    assert_eq!(MatchBoxStyle::Normal.color_pair(3, 4), None);
    assert_eq!(MatchBoxStyle::Reveal.color_pair(3, 4), Some(3));
    assert_eq!(MatchBoxStyle::Highlight.color_pair(3, 4), Some(4));
}

#[test]
fn content_column_takes_the_widest_child() {
    let mut tree = UiTree::new();
    let a = leaf(&mut tree, 3, 1);
    let b = leaf(&mut tree, 7, 2);
    let g = Grid::new(
        vec![(a, (0, 0)), (b, (1, 0))],
        vec![GridLength::Content, GridLength::Content],
        vec![GridLength::Content, GridLength::Static(2)],
    );
    let grid = wrap(&mut tree, Element::Grid(g));
    tree.measure(grid, ms(None, None));
    assert_eq!(tree.desired_size(grid), ms(Some(9), Some(3)));
    tree.arrange(grid, rect(0, 0, 9, 3));
    assert_eq!(tree.rect(a), rect(0, 0, 7, 1));
    assert_eq!(tree.rect(b), rect(0, 1, 7, 2));
}

#[test]
fn child_outside_the_grid_is_left_alone() {
    let mut tree = UiTree::new();
    let a = leaf(&mut tree, 3, 1);
    let g = Grid::new(vec![(a, (4, 4))], vec![GridLength::Content], vec![GridLength::Content]);
    let grid = wrap(&mut tree, Element::Grid(g));
    tree.measure(grid, ms(None, None));
    assert_eq!(tree.desired_size(grid), ms(Some(0), Some(0)));
    assert_eq!(tree.desired_size(a), ms(None, None));
    tree.arrange(grid, rect(5, 5, 0, 0));
    assert_eq!(tree.rect(a), rect(0, 0, 0, 0));
}

#[test]
fn a_shared_child_takes_its_last_placement() {
    let mut tree = UiTree::new();
    let a = leaf(&mut tree, 2, 1);
    let b = leaf(&mut tree, 2, 1);
    let bx = WrapBox::new(vec![a, b, a], WrapMode::Rows, WrapAlign::Begin, 0);
    let wb = wrap(&mut tree, Element::WrapBox(bx));
    tree.measure(wb, ms(None, None));
    assert_eq!(tree.desired_size(wb), ms(Some(6), Some(1)));
    tree.arrange(wb, rect(0, 0, 6, 1));
    assert_eq!(tree.rect(a), rect(4, 0, 2, 1));
    assert_eq!(tree.rect(b), rect(2, 0, 2, 1));
    assert_eq!(tree.render(wb).len(), 3);
}

#[test]
fn unconstrained_wrap_box_keeps_one_line() {
    let mut tree = UiTree::new();
    let kids: Vec<ElemRef> = (0..4).map(|i| leaf(&mut tree, 1, i + 1)).collect();
    let bx = WrapBox::new(kids, WrapMode::Cols, WrapAlign::End, 5);
    let wb = wrap(&mut tree, Element::WrapBox(bx));
    tree.measure(wb, ms(Some(1), None));
    assert_eq!(tree.desired_size(wb), ms(Some(1), Some(10)));
}

#[test]
fn content_grid_inside_a_static_cell() {
    let mut tree = UiTree::new();
    let child = leaf(&mut tree, 8, 1);
    let inner = Grid::new(vec![(child, (0, 0))], vec![GridLength::Content], vec![GridLength::Content]);
    let inner = wrap(&mut tree, Element::Grid(inner));
    let outer = Grid::new(vec![(inner, (0, 0))], vec![GridLength::Static(1)], vec![GridLength::Static(1)]);
    let outer = wrap(&mut tree, Element::Grid(outer));
    tree.measure(outer, ms(None, None));
    assert_eq!(tree.desired_size(outer), ms(Some(1), Some(1)));
    assert_eq!(tree.desired_size(inner), ms(Some(8), Some(1)));
    tree.arrange(inner, rect(0, 0, 8, 1));
    assert_eq!(tree.rect(child), rect(0, 0, 8, 1));
}
