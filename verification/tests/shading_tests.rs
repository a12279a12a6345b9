use webmaths::shading::{choose_scatter, Scatter};

#[test]
fn failed_roulette_absorbs() {
    for d in [false, true] {
        for r in [false, true] {
            assert_eq!(choose_scatter(false, d, r), Scatter::Absorbed);
            assert!(!choose_scatter(false, d, r).recurses());
        }
    }
}

#[test]
fn draws_select_in_order() {
    assert_eq!(choose_scatter(true, true, false), Scatter::Diffuse);
    assert_eq!(choose_scatter(true, true, true), Scatter::Diffuse);
    assert_eq!(choose_scatter(true, false, true), Scatter::Mirror);
    assert_eq!(choose_scatter(true, false, false), Scatter::Dielectric);
    assert!(choose_scatter(true, false, false).recurses());
}
