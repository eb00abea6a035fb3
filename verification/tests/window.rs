use carrybox::window::window_size;

#[test]
fn window_sizes() {
    assert_eq!(window_size(1920, 1080), (1536, 918));
    assert_eq!(window_size(800, 600), (1024, 640));
    assert_eq!(window_size(3840, 2160), (1600, 1000));
    assert_eq!(window_size(0, 0), (1024, 640));
    assert_eq!(window_size(u32::MAX, u32::MAX), (1600, 1000));
}

#[test]
fn window_sizes_are_rounded_fractions() {
    for n in 0u32..5000 {
        let w = (((n as f64) * 0.80).round() as u32).clamp(1024, 1600);
        let h = (((n as f64) * 0.85).round() as u32).clamp(640, 1000);
        assert_eq!(window_size(n, n), (w, h));
    }
}
