use std::cell::RefCell;
use webmaths::scene::{Entry, Scene, Walk};

fn scene_of(skips: &[i32]) -> Scene<usize> {
    let mut entries = Vec::new();
    for (i, s) in skips.iter().enumerate() {
        entries.push(Entry { shape: i, bvh_skip: *s });
    }
    Scene { entries }
}

fn run(skips: &[i32], outcomes: &[Option<u32>], max_dist: u32) -> (Option<(usize, usize)>, Vec<usize>) {
    let scene = scene_of(skips);
    let seen: RefCell<Vec<usize>> = RefCell::new(Vec::new());
    let found = scene.trace_nearest(max_dist, |shape: &usize| {
        seen.borrow_mut().push(*shape);
        outcomes[*shape].map(|d| (d, *shape + 100))
    });
    (found, seen.into_inner())
}

#[test]
fn missed_proxy_hides_its_run() {
    let (found, seen) = run(&[2, 0, 0, 0], &[None, Some(1), Some(2), Some(7)], u32::MAX);
    assert_eq!(seen, vec![0, 3]);
    assert_eq!(found, Some((3, 103)));
}

#[test]
fn hit_proxy_lets_its_run_be_tested() {
    let (found, seen) = run(&[2, 0, 0, 0], &[Some(0), Some(5), Some(2), Some(7)], u32::MAX);
    assert_eq!(seen, vec![0, 1, 2, 3]);
    assert_eq!(found, Some((2, 102)));
}

#[test]
fn proxy_is_never_the_answer() {
    let (found, seen) = run(&[1, 0], &[Some(1), None], u32::MAX);
    assert_eq!(seen, vec![0, 1]);
    assert_eq!(found, None);
}

#[test]
fn first_of_equal_distances_wins() {
    let (found, _) = run(&[0, 0, 0], &[Some(4), Some(3), Some(3)], u32::MAX);
    assert_eq!(found, Some((1, 101)));
}

#[test]
fn hit_at_the_limit_is_not_taken() {
    let (found, seen) = run(&[0, 0], &[Some(10), Some(11)], 10);
    assert_eq!(seen, vec![0, 1]);
    assert_eq!(found, None);
    let (found, _) = run(&[0, 0], &[Some(10), Some(9)], 10);
    assert_eq!(found, Some((1, 101)));
}

#[test]
fn empty_scene_has_no_hit() {
    let (found, seen) = run(&[], &[], u32::MAX);
    assert_eq!(found, None);
    assert!(seen.is_empty());
}

#[test]
fn run_longer_than_the_list_ends_with_it() {
    let (found, seen) = run(&[5, 0, 0], &[None, Some(1), Some(1)], u32::MAX);
    assert_eq!(seen, vec![0]);
    assert_eq!(found, None);
}

#[test]
fn negative_skip_count_skips_nothing_and_is_no_leaf() {
    let (found, seen) = run(&[-3, 0, -1], &[None, Some(8), Some(2)], u32::MAX);
    assert_eq!(seen, vec![0, 1, 2]);
    assert_eq!(found, Some((1, 101)));
}

#[test]
fn runs_follow_one_another() {
    let skips = [1, 0, 2, 0, 0, 0];
    let outcomes = [None, Some(1), None, Some(1), Some(1), Some(9)];
    let (found, seen) = run(&skips, &outcomes, u32::MAX);
    assert_eq!(seen, vec![0, 2, 5]);
    assert_eq!(found, Some((5, 105)));
}

#[test]
fn proxy_inside_a_skipped_run_starts_no_run() {
    let skips = [2, 3, 0, 0, 0];
    let outcomes = [None, None, Some(1), Some(4), Some(3)];
    let (found, seen) = run(&skips, &outcomes, u32::MAX);
    assert_eq!(seen, vec![0, 3, 4]);
    assert_eq!(found, Some((4, 104)));
}

#[test]
fn scene_is_built_entry_by_entry() {
    let mut scene: Scene<char> = Scene::new();
    assert!(scene.entries.is_empty());
    scene.push('a', 1);
    scene.push('b', 0);
    assert_eq!(scene.entries.len(), 2);
    assert_eq!((scene.entries[0].shape, scene.entries[0].get_bvh_skip()), ('a', 1));
    assert_eq!((scene.entries[1].shape, scene.entries[1].get_bvh_skip()), ('b', 0));
}

#[test]
fn walk_steps_as_the_traversal_does() {
    let w: Walk<&str> = Walk::start(100);
    assert_eq!((w.skip, w.bound, w.best), (0, 100, None));
    assert!(w.wants_test());
    let w = w.advance(0, 0, Some((40, "far")));
    assert_eq!((w.skip, w.bound, w.best), (0, 40, Some((0, "far"))));
    let w = w.advance(1, 0, Some((40, "as far")));
    assert_eq!((w.bound, w.best), (40, Some((0, "far"))));
    let w = w.advance(2, 2, None);
    assert_eq!(w.skip, 2);
    assert!(!w.wants_test());
    let w = w.advance(3, 0, Some((1, "hidden")));
    assert_eq!((w.skip, w.bound, w.best), (1, 40, Some((0, "far"))));
    let w = w.advance(4, 7, None);
    assert_eq!(w.skip, 0);
    assert!(w.wants_test());
    let w = w.advance(5, 3, Some((2, "proxy")));
    assert_eq!((w.skip, w.bound, w.best), (0, 40, Some((0, "far"))));
    let w = w.advance(6, 0, Some((39, "near")));
    assert_eq!((w.skip, w.bound, w.best), (0, 39, Some((6, "near"))));
    let w = w.advance(7, -4, None);
    assert_eq!(w.skip, -4);
    assert!(w.wants_test());
}

#[test]
fn hit_keeps_what_the_probe_handed_back() {
    let scene = scene_of(&[0, 0]);
    let found = scene.trace_nearest(u32::MAX, |shape: &usize| Some((10 - *shape as u32, vec![*shape; 2])));
    assert_eq!(found, Some((1, vec![1, 1])));
}
