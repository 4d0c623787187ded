use wgpu_ui::widgets::{
    DrawCommand, Position, Ratio, Resources, Size, Triangle, Vertex, Widget, WidgetData, WidgetDesc,
    WidgetError,
};

fn vertices() -> [Vertex; 3] {
    [
        Vertex { position: [0, 400, 0], color: [255, 0, 0] },
        Vertex { position: [-400, -400, 0], color: [0, 255, 0] },
        Vertex { position: [400, -400, 0], color: [0, 0, 255] },
    ]
}

fn placement(x: i32, y: i32, z: i32, width: u32, height: u32) -> WidgetData {
    WidgetData {
        args: Vec::new(),
        position: Position { x, y, z },
        global_pos: Position { x: 0, y: 0, z: 0 },
        size: Size { width, height },
    }
}

fn res(k: u32) -> Resources {
    Resources { pipeline: k, vertex_buffer: k + 1, uniform_buffer: k + 2, bind_group: k + 3 }
}

fn value(r: Ratio) -> f64 {
    r.num as f64 / r.den as f64
}

#[test]
fn transform_at_origin_has_zero_translation() {
    let t = Triangle::new(vertices());
    let m = t.matrix(&placement(0, 0, 0, 800, 600));
    assert_eq!(m.translation_x, Ratio { num: 0, den: 800 });
    assert_eq!(m.translation_y, Ratio { num: 0, den: 600 });
    assert_eq!(m.translation_z, 0);
    assert_eq!(value(m.translation_x), 0.0);
    assert_eq!(value(m.translation_y), 0.0);
}

#[test]
fn transform_scales_translation_by_viewport() {
    let t = Triangle::new(vertices());
    let m = t.matrix(&placement(400, -400, 0, 800, 600));
    assert_eq!(m.translation_x, Ratio { num: 400, den: 800 });
    assert_eq!(m.translation_y, Ratio { num: -400, den: 600 });
    assert_eq!(m.translation_z, 0);
    assert_eq!(value(m.translation_x), 0.5);
    assert!((value(m.translation_y) - (-0.667)).abs() < 0.001);
    assert_eq!(m.scale_x, Ratio { num: 1, den: 800 });
    assert_eq!(m.scale_y, Ratio { num: 1, den: 600 });
}

#[test]
fn transform_adds_ancestor_offset() {
    let t = Triangle::new(vertices());
    let mut d = placement(100, 50, 7, 1000, 500);
    d.global_pos = Position { x: -300, y: 200, z: 9 };
    let m = t.matrix(&d);
    assert_eq!(m.translation_x, Ratio { num: -200, den: 1000 });
    assert_eq!(m.translation_y, Ratio { num: 250, den: 500 });
    assert_eq!(m.translation_z, 7);
}

#[test]
fn transform_handles_extreme_coordinates() {
    let t = Triangle::new(vertices());
    let mut d = placement(i32::MAX, i32::MIN, 0, u32::MAX, 1);
    d.global_pos = Position { x: i32::MAX, y: i32::MIN, z: 0 };
    let m = t.matrix(&d);
    assert_eq!(m.translation_x.num, 2 * (i32::MAX as i64));
    assert_eq!(m.translation_y.num, 2 * (i32::MIN as i64));
    assert_eq!(m.translation_x.den, u32::MAX as u64);
}

#[test]
fn update_before_init_is_rejected() {
    let mut t = Triangle::new(vertices());
    let d = placement(0, 0, 0, 800, 600);
    assert_eq!(t.update_data(&d), Err(WidgetError::NotInitialized));
}

#[test]
fn render_before_init_is_rejected() {
    let mut t = Triangle::new(vertices());
    assert_eq!(t.render_widget(), Err(WidgetError::NotInitialized));
}

#[test]
fn init_then_update_and_render_succeed() {
    let mut t = Triangle::new(vertices());
    let d = placement(400, -400, 0, 800, 600);
    let up = t.init_widget(res(10), &d);
    assert_eq!(up.buffer, 12);
    assert_eq!(up.transform, t.matrix(&d));
    let d2 = placement(0, 0, 0, 800, 600);
    let up2 = t.update_data(&d2).unwrap();
    assert_eq!(up2.buffer, 12);
    assert_eq!(up2.transform.translation_x, Ratio { num: 0, den: 800 });
    assert_eq!(
        t.render_widget(),
        Ok(DrawCommand { pipeline: 10, bind_group: 13, vertex_buffer: 11, vertices: 3, instances: 1 })
    );
}

#[test]
fn widget_desc_lifecycle() {
    let mut w = WidgetDesc { widget: Triangle::new(vertices()), data: placement(400, -400, 0, 800, 600) };
    assert_eq!(w.update(), Err(WidgetError::NotInitialized));
    assert_eq!(w.render(), Err(WidgetError::NotInitialized));
    let up = w.init(res(0));
    assert_eq!(up.transform.translation_x, Ratio { num: 400, den: 800 });
    assert_eq!(w.update().unwrap().buffer, 2);
    assert_eq!(w.render().unwrap().pipeline, 0);
    assert_eq!(w.widget.vertices()[1].position, [-400, -400, 0]);
}

#[test]
fn init_keeps_vertices_and_sets_resources() {
    let mut t = Triangle::new(vertices());
    assert!(t.resources.is_none());
    t.init_widget(res(4), &placement(1, 2, 3, 10, 10));
    assert_eq!(t.resources, Some(res(4)));
    let v = t.vertices();
    assert_eq!(v[0].position, [0, 400, 0]);
    assert_eq!(v[1].position, [-400, -400, 0]);
    assert_eq!(v[2].position, [400, -400, 0]);
    assert_eq!(v[2].color, [0, 0, 255]);
}
