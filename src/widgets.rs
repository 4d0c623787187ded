use vstd::prelude::*;

verus! {

/// A point in pixels.
#[derive(PartialEq, Eq, Structural, Clone, Copy, Debug)]
pub struct Position {
    pub x: i32,
    pub y: i32,
    pub z: i32,
}

/// Extent of a window or surface in physical pixels.
#[derive(PartialEq, Eq, Structural, Clone, Copy, Debug)]
pub struct Size {
    pub width: u32,
    pub height: u32,
}

/// Placement of a widget: free-form arguments (not interpreted here), local
/// position, the offset accumulated from its ancestors, and the viewport size.
pub struct WidgetData {
    pub args: Vec<(String, String)>,
    pub position: Position,
    pub global_pos: Position,
    pub size: Size,
}

/// The exact quotient `num / den`.
#[derive(PartialEq, Eq, Structural, Clone, Copy, Debug)]
pub struct Ratio {
    pub num: i64,
    pub den: u64,
}

/// A placement transform before the clip-space depth remap: a translation
/// composed with an axis scaling (`x` by `scale_x`, `y` by `scale_y`).
#[derive(PartialEq, Eq, Structural, Clone, Copy, Debug)]
pub struct Transform {
    pub translation_x: Ratio,
    pub translation_y: Ratio,
    pub translation_z: i64,
    pub scale_x: Ratio,
    pub scale_y: Ratio,
}

/// Translation `((P.x + G.x) / W, (P.y + G.y) / H, P.z)` and scaling `(1 / W, 1 / H)`.
pub open spec fn transform_of(d: &WidgetData) -> Transform {
    Transform {
        translation_x: Ratio {
            num: (d.position.x + d.global_pos.x) as i64,
            den: d.size.width as u64,
        },
        translation_y: Ratio {
            num: (d.position.y + d.global_pos.y) as i64,
            den: d.size.height as u64,
        },
        translation_z: d.position.z as i64,
        scale_x: Ratio { num: 1, den: d.size.width as u64 },
        scale_y: Ratio { num: 1, den: d.size.height as u64 },
    }
}

/// Handles of the GPU objects that a widget draws with.
#[derive(PartialEq, Eq, Structural, Clone, Copy, Debug)]
pub struct Resources {
    pub pipeline: u32,
    pub vertex_buffer: u32,
    pub uniform_buffer: u32,
    pub bind_group: u32,
}

/// A transform to be written into a uniform buffer.
#[derive(PartialEq, Eq, Structural, Clone, Copy, Debug)]
pub struct Upload {
    pub buffer: u32,
    pub transform: Transform,
}

/// One draw call into the shared render pass: bind `pipeline`, bind group 0 and
/// vertex buffer 0, then draw vertices `0..vertices` of instances `0..instances`.
#[derive(PartialEq, Eq, Structural, Clone, Copy, Debug)]
pub struct DrawCommand {
    pub pipeline: u32,
    pub bind_group: u32,
    pub vertex_buffer: u32,
    pub vertices: u32,
    pub instances: u32,
}

#[derive(PartialEq, Eq, Structural, Clone, Copy, Debug)]
pub enum WidgetError {
    /// `update` or `render` before `init`.
    NotInitialized,
}

/// A drawable with an init / update / render lifecycle.
pub trait Widget: Sized {
    /// The GPU objects given at `init`, none before.
    spec fn resources(&self) -> Option<Resources>;

    /// What the widget's uniform holds for the given placement.
    spec fn uniform_for(&self, data: &WidgetData) -> Transform;

    /// The draw call the widget issues with the given objects.
    spec fn draw_with(&self, res: Resources) -> DrawCommand;

    /// This widget once it holds the given objects, all else as it is.
    spec fn with_resources(&self, res: Resources) -> Self;

    /// Takes the widget's GPU objects and gives the initial uniform contents.
    fn init_widget(&mut self, resources: Resources, data: &WidgetData) -> (r: Upload)
        ensures
            *final(self) == old(self).with_resources(resources),
            final(self).resources() == Some(resources),
            r == (Upload { buffer: resources.uniform_buffer, transform: old(self).uniform_for(data) }),
            forall|d: &WidgetData| #[trigger] final(self).uniform_for(d) == old(self).uniform_for(d),
            forall|x: Resources| #[trigger] final(self).draw_with(x) == old(self).draw_with(x),
    ;

    /// The uniform contents for a changed placement.
    fn update_data(&mut self, data: &WidgetData) -> (r: Result<Upload, WidgetError>)
        ensures
            *final(self) == *old(self),
            r == match old(self).resources() {
                None => Err(WidgetError::NotInitialized),
                Some(res) => Ok(
                    Upload { buffer: res.uniform_buffer, transform: old(self).uniform_for(data) },
                ),
            },
    ;

    /// The draw call for this frame.
    fn render_widget(&mut self) -> (r: Result<DrawCommand, WidgetError>)
        ensures
            *final(self) == *old(self),
            r == match old(self).resources() {
                None => Err(WidgetError::NotInitialized),
                Some(res) => Ok(old(self).draw_with(res)),
            },
    ;
}

/// A corner of a triangle: position in pixels and colour channels.
#[derive(Clone, Copy, Debug)]
pub struct Vertex {
    pub position: [i32; 3],
    pub color: [u8; 3],
}

/// The reference widget: one coloured triangle.
pub struct Triangle {
    pub vertices: [Vertex; 3],
    /// Set by `init_widget`.
    pub resources: Option<Resources>,
}

impl Triangle {
    pub fn new(vertices: [Vertex; 3]) -> (r: Self)
        ensures
            r.resources is None,
            r.vertices == vertices,
    {
        Triangle { vertices, resources: None }
    }

    pub fn vertices(&self) -> (r: [Vertex; 3])
        ensures
            r == self.vertices,
    {
        self.vertices
    }

    /// The placement transform of a widget with placement `data`.
    pub fn matrix(&self, data: &WidgetData) -> (r: Transform)
        ensures
            r == transform_of(data),
    {
        Transform {
            translation_x: Ratio {
                num: data.position.x as i64 + data.global_pos.x as i64,
                den: data.size.width as u64,
            },
            translation_y: Ratio {
                num: data.position.y as i64 + data.global_pos.y as i64,
                den: data.size.height as u64,
            },
            translation_z: data.position.z as i64,
            scale_x: Ratio { num: 1, den: data.size.width as u64 },
            scale_y: Ratio { num: 1, den: data.size.height as u64 },
        }
    }
}

impl Widget for Triangle {
    open spec fn resources(&self) -> Option<Resources> {
        self.resources
    }

    open spec fn with_resources(&self, res: Resources) -> Self {
        Triangle { vertices: self.vertices, resources: Some(res) }
    }

    open spec fn uniform_for(&self, data: &WidgetData) -> Transform {
        transform_of(data)
    }

    open spec fn draw_with(&self, res: Resources) -> DrawCommand {
        DrawCommand {
            pipeline: res.pipeline,
            bind_group: res.bind_group,
            vertex_buffer: res.vertex_buffer,
            vertices: 3,
            instances: 1,
        }
    }

    fn init_widget(&mut self, resources: Resources, data: &WidgetData) -> (r: Upload) {
        let transform = self.matrix(data);
        self.resources = Some(resources);
        Upload { buffer: resources.uniform_buffer, transform }
    }

    fn update_data(&mut self, data: &WidgetData) -> (r: Result<Upload, WidgetError>) {
        match self.resources {
            None => Err(WidgetError::NotInitialized),
            Some(res) => Ok(Upload { buffer: res.uniform_buffer, transform: self.matrix(data) }),
        }
    }

    fn render_widget(&mut self) -> (r: Result<DrawCommand, WidgetError>) {
        match self.resources {
            None => Err(WidgetError::NotInitialized),
            Some(res) => Ok(
                DrawCommand {
                    pipeline: res.pipeline,
                    bind_group: res.bind_group,
                    vertex_buffer: res.vertex_buffer,
                    vertices: 3,
                    instances: 1,
                },
            ),
        }
    }
}

/// A widget together with its placement.
pub struct WidgetDesc<W> {
    pub widget: W,
    pub data: WidgetData,
}

impl<W: Widget> WidgetDesc<W> {
    /// Initialises the widget at its placement.
    pub fn init(&mut self, resources: Resources) -> (r: Upload)
        ensures
            final(self).widget == old(self).widget.with_resources(resources),
            final(self).widget.resources() == Some(resources),
            final(self).data == old(self).data,
            r == (Upload {
                buffer: resources.uniform_buffer,
                transform: old(self).widget.uniform_for(&old(self).data),
            }),
            forall|d: &WidgetData| #[trigger] final(self).widget.uniform_for(d) == old(self).widget.uniform_for(d),
            forall|x: Resources| #[trigger] final(self).widget.draw_with(x) == old(self).widget.draw_with(x),
    {
        self.widget.init_widget(resources, &self.data)
    }

    /// The uniform contents for the current placement.
    pub fn update(&mut self) -> (r: Result<Upload, WidgetError>)
        ensures
            *final(self) == *old(self),
            r == match old(self).widget.resources() {
                None => Err(WidgetError::NotInitialized),
                Some(res) => Ok(
                    Upload {
                        buffer: res.uniform_buffer,
                        transform: old(self).widget.uniform_for(&old(self).data),
                    },
                ),
            },
    {
        self.widget.update_data(&self.data)
    }

    /// The draw call for this frame.
    pub fn render(&mut self) -> (r: Result<DrawCommand, WidgetError>)
        ensures
            *final(self) == *old(self),
            r == match old(self).widget.resources() {
                None => Err(WidgetError::NotInitialized),
                Some(res) => Ok(old(self).widget.draw_with(res)),
            },
    {
        self.widget.render_widget()
    }
}

} // verus!
