use audioviz::visualization::{BufferLayout, VisualizationType};

#[test]
fn toggle_cycles_through_all_modes() {
    let mut t = VisualizationType::default();
    assert_eq!(t, VisualizationType::Bar);
    let mut seen = Vec::new();
    for _ in 0..5 {
        t = t.next();
        seen.push(t);
    }
    assert_eq!(
        seen,
        vec![
            VisualizationType::String,
            VisualizationType::CircleSplit,
            VisualizationType::Wave,
            VisualizationType::Polygon,
            VisualizationType::Bar,
        ]
    );
}

#[test]
fn bar_and_polygon_are_mono() {
    assert!(VisualizationType::Bar.needs_mono());
    assert!(VisualizationType::Polygon.needs_mono());
    assert!(!VisualizationType::String.needs_mono());
    assert!(!VisualizationType::CircleSplit.needs_mono());
    assert!(!VisualizationType::Wave.needs_mono());
    assert_eq!(VisualizationType::Wave.buffer_layout(), BufferLayout::Stereo);
    assert_eq!(VisualizationType::Bar.buffer_layout(), BufferLayout::Mono);
}
