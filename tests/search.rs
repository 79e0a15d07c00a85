use rutt::{find_path, find_path_with_context, GraphSearch, Grid, Maze, SearchContext, Vertex, Zero};

fn is_unit_step(a: Vertex, b: Vertex) -> bool {
    (a.0 - b.0).abs() + (a.1 - b.1).abs() == 1
}

fn open_maze(width: u32, height: u32, walls: &[(u32, u32)]) -> Maze {
    let mut cells = vec![true; (width * height) as usize];
    for &(x, y) in walls {
        cells[(y * width + x) as usize] = false;
    }
    Maze::new(width, height, cells)
}

#[test]
fn finds_result() {
    let grid = Grid::new(20);

    let from = (2, 3);
    let to = (3, 2);

    let path = find_path(&grid, from, to);

    assert_eq!(path[path.len() - 1], to);
}

#[test]
fn start_equal_to_goal_gives_single_vertex() {
    let grid = Grid::new(5);
    assert_eq!(find_path(&grid, (3, 4), (3, 4)), vec![(3, 4)]);
    let maze = open_maze(4, 4, &[]);
    assert_eq!(find_path(&maze, (0, 0), (0, 0)), vec![(0, 0)]);
}

#[test]
fn open_grid_path_scenario() {
    // coordinates 0..=9: a ten by ten grid
    let grid = Grid::new(9);
    let path = find_path(&grid, (1, 1), (8, 9));
    assert_eq!(path.len(), 16);
    assert_eq!(path[0], (1, 1));
    assert_eq!(path[path.len() - 1], (8, 9));
    for w in path.windows(2) {
        assert!(is_unit_step(w[0], w[1]));
    }
}

#[test]
fn open_grid_path_length_is_manhattan_distance() {
    let grid = Grid::new(12);
    let cases = [((0, 0), (12, 12)), ((5, 2), (1, 9)), ((7, 7), (7, 0)), ((3, 3), (4, 3))];
    for &(start, goal) in cases.iter() {
        let path = find_path(&grid, start, goal);
        let d = (start.0 - goal.0).abs() + (start.1 - goal.1).abs();
        assert_eq!(path.len() as i64 - 1, d);
        assert_eq!(path[0], start);
        assert_eq!(path[path.len() - 1], goal);
    }
}

#[test]
fn unreachable_goal_gives_empty_path() {
    let grid = Grid::new(5);
    assert!(find_path(&grid, (0, 0), (9, 9)).is_empty());
    // a wall column cuts the maze in two
    let maze = open_maze(5, 3, &[(2, 0), (2, 1), (2, 2)]);
    assert!(find_path(&maze, (0, 0), (4, 2)).is_empty());
}

#[test]
fn maze_path_goes_around_walls() {
    let maze = open_maze(5, 3, &[(2, 0), (2, 1)]);
    let path = find_path(&maze, (0, 0), (4, 0));
    assert_eq!(path.len(), 9);
    assert_eq!(path[0], (0, 0));
    assert_eq!(path[8], (4, 0));
    for w in path.windows(2) {
        assert!(is_unit_step(w[0], w[1]));
        assert!(maze.is_open(w[1].0 as u32, w[1].1 as u32));
    }
}

#[test]
fn maze_is_open_reads_cells() {
    let maze = open_maze(3, 2, &[(1, 0)]);
    assert!(maze.is_open(0, 0));
    assert!(!maze.is_open(1, 0));
    assert!(maze.is_open(2, 1));
    assert!(!maze.is_open(3, 0));
    assert!(!maze.is_open(0, 2));
    let short = Maze::new(3, 2, vec![true, true]);
    assert!(short.is_open(1, 0));
    assert!(!short.is_open(2, 0));
}

#[test]
fn repeated_search_is_deterministic() {
    let grid = Grid::new(15);
    let a = find_path(&grid, (2, 14), (13, 1));
    let b = find_path(&grid, (2, 14), (13, 1));
    assert_eq!(a, b);
}

#[test]
fn context_reuse_matches_fresh_contexts() {
    let maze = open_maze(6, 6, &[(3, 1), (3, 2), (3, 3), (1, 4)]);
    let mut shared = SearchContext::default();
    let mut first = Vec::new();
    let mut second = Vec::new();
    find_path_with_context(&maze, &mut shared, (0, 0), (5, 5), &mut first);
    find_path_with_context(&maze, &mut shared, (5, 0), (0, 5), &mut second);

    let mut fresh_a = SearchContext::default();
    let mut fresh_b = SearchContext::default();
    let mut expect_first = vec![(9, 9)];
    let mut expect_second = Vec::new();
    find_path_with_context(&maze, &mut fresh_a, (0, 0), (5, 5), &mut expect_first);
    find_path_with_context(&maze, &mut fresh_b, (5, 0), (0, 5), &mut expect_second);

    assert_eq!(first, expect_first);
    assert_eq!(second, expect_second);
    assert!(!first.is_empty());
    assert!(!second.is_empty());
}

#[test]
fn cleared_context_leaves_no_trace() {
    let grid = Grid::new(8);
    let mut context = SearchContext::default();
    let mut path = Vec::new();
    find_path_with_context(&grid, &mut context, (0, 0), (8, 8), &mut path);
    context.clear();
    context.clear();
    let mut again = Vec::new();
    find_path_with_context(&grid, &mut context, (1, 7), (6, 2), &mut again);
    assert_eq!(again, find_path(&grid, (1, 7), (6, 2)));
}

#[test]
fn find_path_equals_context_form() {
    let grid = Grid::new(10);
    let mut context = SearchContext::default();
    context.clear();
    let mut path = Vec::new();
    find_path_with_context(&grid, &mut context, (9, 0), (0, 10), &mut path);
    assert_eq!(path, find_path(&grid, (9, 0), (0, 10)));
}

#[test]
fn heuristic_is_manhattan_distance() {
    let grid = Grid::new(4);
    assert_eq!(grid.heuristic((0, 0), (3, 4)), 7);
    assert_eq!(grid.heuristic((3, 1), (1, 3)), 4);
    assert_eq!(grid.heuristic((i64::MIN, 0), (i64::MAX, 0)), u64::MAX);
}

#[test]
fn grid_neighbours_stay_inside() {
    let grid = Grid::new(3);
    let mut out = vec![((7, 7), 5)];
    grid.neighbours((0, 3), &mut out);
    assert_eq!(out, vec![((7, 7), 5), ((1, 3), 1), ((0, 2), 1)]);
    assert_eq!(grid.max_iterations(), usize::MAX);
}

#[test]
fn zero_is_additive_identity() {
    assert_eq!(<u64 as Zero>::zero(), 0);
    assert_eq!(<i32 as Zero>::zero() + 5, 5);
    assert_eq!(<u8 as Zero>::zero(), 0);
}
