use curve_plot::{
    draw_curve, generate_path, generate_points, setup_curve, setup_plot_ticks, ControlQuad, Curve,
    CurveRole, CurveStore, InvalidDomainError, PlotSettings, Point2, PolylinePoint, Rgba,
    ScaledPoint, Tension, TickMark, TickSettings,
};

fn p(x: i32, y: i32) -> Point2 {
    Point2 { x, y }
}

fn gray() -> Rgba {
    Rgba { r: 128, g: 128, b: 128, a: 255 }
}

fn curve(id: u32, role: CurveRole, segments: Vec<ControlQuad>) -> Curve {
    Curve { id, role, segments, color: gray() }
}

fn straight(a: Point2, b: Point2) -> ControlQuad {
    let (ax, ay, bx, by) = (a.x as i64, a.y as i64, b.x as i64, b.y as i64);
    ControlQuad {
        p0: a,
        c1: ScaledPoint { x: 3000 * ax + 1000 * (bx - ax), y: 3000 * ay + 1000 * (by - ay) },
        c2: ScaledPoint { x: 3000 * ax + 2000 * (bx - ax), y: 3000 * ay + 2000 * (by - ay) },
        p3: b,
    }
}

#[test]
fn store_starts_empty() {
    let store = CurveStore::new();
    assert!(store.get(CurveRole::Wave).is_none());
    assert!(store.get(CurveRole::Density).is_none());
}

#[test]
fn store_replace_twice_keeps_second() {
    let mut store = CurveStore::new();
    let c1 = curve(1, CurveRole::Wave, vec![straight(p(0, 0), p(1, 1))]);
    let c2 = curve(2, CurveRole::Wave, vec![straight(p(0, 0), p(2, 2))]);
    store.replace(CurveRole::Wave, c1.clone());
    store.replace(CurveRole::Wave, c2.clone());
    assert_eq!(store.get(CurveRole::Wave), Some(&c2));
    assert_ne!(store.get(CurveRole::Wave), Some(&c1));
    assert!(store.get(CurveRole::Density).is_none());
}

#[test]
fn store_roles_are_independent() {
    let mut store = CurveStore::new();
    let w = curve(1, CurveRole::Wave, vec![]);
    let d = curve(2, CurveRole::Density, vec![]);
    store.replace(CurveRole::Wave, w.clone());
    store.replace(CurveRole::Density, d.clone());
    assert_eq!(store.get(CurveRole::Wave), Some(&w));
    assert_eq!(store.get(CurveRole::Density), Some(&d));
}

#[test]
fn setup_curve_fits_with_standard_tension() {
    let mut store = CurveStore::new();
    let pts = vec![p(0, 0), p(1, 5), p(2, 1), p(3, 7)];
    setup_curve(&mut store, CurveRole::Density, gray(), 4, &pts);
    let c = store.get(CurveRole::Density).unwrap();
    assert_eq!(c.id, 4);
    assert_eq!(c.role, CurveRole::Density);
    assert_eq!(c.color, gray());
    let t = Tension { milli: 300 };
    assert_eq!(c.segments, generate_path(&pts, t, t));
    assert!(store.get(CurveRole::Wave).is_none());
}

#[test]
fn render_sample_fit_draw_endpoints() {
    let pts = generate_points(0, 10, 1, |x| x).unwrap();
    let t = Tension::standard();
    let c = curve(0, CurveRole::Wave, generate_path(&pts, t, t));
    let line = draw_curve(&c, 1000);
    assert_eq!(line.points.len(), 1000);
    assert_eq!(line.den, 3000 * 999i128 * 999 * 999);
    assert_eq!(line.points[0], PolylinePoint { x: 0, y: 0 });
    assert_eq!(line.points[999], PolylinePoint { x: 10 * line.den, y: 10 * line.den });
    assert_eq!(line.color, gray());
}

#[test]
fn render_midpoint_exact() {
    let c = curve(0, CurveRole::Wave, vec![straight(p(0, 0), p(3, 6))]);
    let line = draw_curve(&c, 3);
    assert_eq!(line.den, 24000);
    assert_eq!(
        line.points,
        vec![
            PolylinePoint { x: 0, y: 0 },
            PolylinePoint { x: 36000, y: 72000 },
            PolylinePoint { x: 72000, y: 144000 },
        ]
    );
}

#[test]
fn render_spans_all_segments() {
    let c = curve(
        0,
        CurveRole::Wave,
        vec![straight(p(0, 0), p(1, 4)), straight(p(1, 4), p(2, 0))],
    );
    let line = draw_curve(&c, 3);
    let d = line.den;
    assert_eq!(
        line.points,
        vec![
            PolylinePoint { x: 0, y: 0 },
            PolylinePoint { x: d, y: 4 * d },
            PolylinePoint { x: 2 * d, y: 0 },
        ]
    );
}

#[test]
fn render_linear_without_tension_stays_on_line() {
    let pts = generate_points(0, 10, 1, |x| x).unwrap();
    let c = curve(0, CurveRole::Wave, generate_path(&pts, Tension { milli: 0 }, Tension { milli: 300 }));
    let line = draw_curve(&c, 101);
    for q in &line.points {
        assert_eq!(q.x, q.y);
    }
}

#[test]
fn render_few_positions() {
    let c = curve(0, CurveRole::Wave, vec![straight(p(2, 3), p(4, 5))]);
    assert!(draw_curve(&c, 0).points.is_empty());
    let one = draw_curve(&c, 1);
    assert_eq!(one.den, 3000);
    assert_eq!(one.points, vec![PolylinePoint { x: 6000, y: 9000 }]);
}

#[test]
fn render_empty_curve() {
    let c = curve(0, CurveRole::Density, vec![]);
    assert!(draw_curve(&c, 1000).points.is_empty());
}

#[test]
fn ticks_default_settings() {
    let s = PlotSettings::default();
    let marks = setup_plot_ticks(&s).unwrap();
    assert_eq!(marks.len(), 21);
    assert_eq!(marks[0], TickMark { x: -10, bottom: -1, top: 1 });
    assert_eq!(marks[20], TickMark { x: 10, bottom: -1, top: 1 });
}

#[test]
fn ticks_are_scaled() {
    let s = PlotSettings {
        domain_range_start: -4,
        domain_range_end: 4,
        screen_scale_x: 3,
        screen_scale_y_psi: 1,
        screen_scale_y_pdf: 1,
        ticks: TickSettings { step: 4, half_height: 5 },
    };
    let marks = setup_plot_ticks(&s).unwrap();
    assert_eq!(
        marks,
        vec![
            TickMark { x: -12, bottom: -5, top: 5 },
            TickMark { x: 0, bottom: -5, top: 5 },
            TickMark { x: 12, bottom: -5, top: 5 },
        ]
    );
}

#[test]
fn ticks_invalid_domain() {
    let mut s = PlotSettings::default();
    s.ticks.step = 0;
    assert_eq!(setup_plot_ticks(&s), Err(InvalidDomainError));
    let mut r = PlotSettings::default();
    r.domain_range_start = 11;
    assert_eq!(setup_plot_ticks(&r), Err(InvalidDomainError));
}

#[test]
fn scale_y_by_role() {
    let mut s = PlotSettings::default();
    s.screen_scale_y_psi = 7;
    s.screen_scale_y_pdf = 9;
    assert_eq!(s.screen_scale_y(CurveRole::Wave), 7);
    assert_eq!(s.screen_scale_y(CurveRole::Density), 9);
}
