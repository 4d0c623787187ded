use vstd::prelude::*;

use crate::widgets::{DrawCommand, Resources, Size, Upload, Widget, WidgetDesc, WidgetError};

verus! {

/// The dimensions the surface is configured with.
#[derive(PartialEq, Eq, Structural, Clone, Copy, Debug)]
pub struct SurfaceConfig {
    pub width: u32,
    pub height: u32,
}

/// The configuration after a resize to `s`: unchanged when either dimension is zero.
pub open spec fn resized(c: SurfaceConfig, s: Size) -> SurfaceConfig {
    if s.width == 0 || s.height == 0 {
        c
    } else {
        SurfaceConfig { width: s.width, height: s.height }
    }
}

/// Every widget of the list has been initialised.
pub open spec fn all_initialized<W: Widget>(ws: Seq<WidgetDesc<W>>) -> bool {
    forall|i: int| 0 <= i < ws.len() ==> (#[trigger] ws[i]).widget.resources() is Some
}

/// The draw calls of a frame: one per widget, in list order.
pub open spec fn draws_of<W: Widget>(ws: Seq<WidgetDesc<W>>) -> Seq<DrawCommand> {
    Seq::new(ws.len(), |i: int| ws[i].widget.draw_with(ws[i].widget.resources().unwrap()))
}

/// The uniform writes that bring every widget up to date with its placement, in list order.
pub open spec fn uploads_of<W: Widget>(ws: Seq<WidgetDesc<W>>) -> Seq<Upload> {
    Seq::new(
        ws.len(),
        |i: int|
            Upload {
                buffer: ws[i].widget.resources().unwrap().uniform_buffer,
                transform: ws[i].widget.uniform_for(&ws[i].data),
            },
    )
}

/// What one frame submits: uniform writes first, then the draw calls of one render pass.
pub struct Frame {
    pub uploads: Vec<Upload>,
    pub draws: Vec<DrawCommand>,
}

/// Surface state and the ordered list of widgets to draw.
///
/// A resize marks the widgets' transforms stale; the next frame writes all of
/// them before drawing.
pub struct RenderContext<W> {
    size: Size,
    config: SurfaceConfig,
    widgets: Vec<WidgetDesc<W>>,
    stale: bool,
}

impl<W: Widget> RenderContext<W> {
    pub closed spec fn spec_size(&self) -> Size {
        self.size
    }

    pub closed spec fn spec_config(&self) -> SurfaceConfig {
        self.config
    }

    pub closed spec fn widget_seq(&self) -> Seq<WidgetDesc<W>> {
        self.widgets@
    }

    pub closed spec fn is_stale(&self) -> bool {
        self.stale
    }

    /// A context whose surface is configured to `size`, drawing `widgets` in order.
    pub fn new(size: Size, widgets: Vec<WidgetDesc<W>>) -> (r: Self)
        ensures
            r.spec_size() == size,
            r.spec_config() == (SurfaceConfig { width: size.width, height: size.height }),
            r.widget_seq() == widgets@,
            !r.is_stale(),
    {
        RenderContext {
            size,
            config: SurfaceConfig { width: size.width, height: size.height },
            widgets,
            stale: false,
        }
    }

    /// The last window size adopted.
    pub fn size(&self) -> (r: Size)
        ensures
            r == self.spec_size(),
    {
        self.size
    }

    pub fn config(&self) -> (r: SurfaceConfig)
        ensures
            r == self.spec_config(),
    {
        self.config
    }

    /// The widgets in drawing order.
    pub fn widgets(&self) -> (r: &Vec<WidgetDesc<W>>)
        ensures
            r@ == self.widget_seq(),
    {
        &self.widgets
    }

    pub fn widget_count(&self) -> (r: usize)
        ensures
            r == self.widget_seq().len(),
    {
        self.widgets.len()
    }

    /// Initialises the widget at `index` with its GPU objects; none when there is no such widget.
    pub fn init_widget(&mut self, index: usize, resources: Resources) -> (r: Option<Upload>)
        ensures
            final(self).spec_size() == old(self).spec_size(),
            final(self).spec_config() == old(self).spec_config(),
            final(self).is_stale() == old(self).is_stale(),
            final(self).widget_seq().len() == old(self).widget_seq().len(),
            index >= old(self).widget_seq().len() ==> r is None && *final(self) == *old(self),
            index < old(self).widget_seq().len() ==> {
                let w = old(self).widget_seq()[index as int];
                &&& r == Some(
                    Upload {
                        buffer: resources.uniform_buffer,
                        transform: w.widget.uniform_for(&w.data),
                    },
                )
                &&& final(self).widget_seq()[index as int].widget == w.widget.with_resources(resources)
                &&& final(self).widget_seq()[index as int].widget.resources() == Some(resources)
                &&& final(self).widget_seq()[index as int].data == w.data
                &&& forall|i: int|
                    0 <= i < old(self).widget_seq().len() && i != index ==> final(self).widget_seq()[i]
                        == #[trigger] old(self).widget_seq()[i]
            },
    {
        if index >= self.widgets.len() {
            return None;
        }
        let r = self.widgets[index].init(resources);
        Some(r)
    }

    /// Adopts a new window size: no change when either dimension is zero; else the
    /// surface is reconfigured to it, every widget's viewport becomes it, and the
    /// transforms are marked stale. Returns whether the surface was reconfigured.
    pub fn resize(&mut self, new_size: Size) -> (r: bool)
        ensures
            r == (new_size.width != 0 && new_size.height != 0),
            final(self).spec_config() == resized(old(self).spec_config(), new_size),
            !r ==> *final(self) == *old(self),
            r ==> {
                &&& final(self).spec_size() == new_size
                &&& final(self).is_stale()
                &&& final(self).widget_seq().len() == old(self).widget_seq().len()
                &&& forall|i: int|
                    0 <= i < old(self).widget_seq().len() ==> {
                        let a = #[trigger] old(self).widget_seq()[i];
                        let b = final(self).widget_seq()[i];
                        &&& b.widget == a.widget
                        &&& b.data.size == new_size
                        &&& b.data.position == a.data.position
                        &&& b.data.global_pos == a.data.global_pos
                        &&& b.data.args == a.data.args
                    }
            },
    {
        if new_size.width == 0 || new_size.height == 0 {
            return false;
        }
        self.size = new_size;
        self.config = SurfaceConfig { width: new_size.width, height: new_size.height };
        let mut i: usize = 0;
        while i < self.widgets.len()
            invariant
                0 <= i <= self.widgets@.len(),
                self.size == new_size,
                self.config == resized(old(self).config, new_size),
                self.stale == old(self).stale,
                self.widgets@.len() == old(self).widgets@.len(),
                forall|j: int|
                    0 <= j < self.widgets@.len() ==> {
                        let a = old(self).widgets@[j];
                        let b = #[trigger] self.widgets@[j];
                        &&& b.widget == a.widget
                        &&& b.data.size == if j < i {
                            new_size
                        } else {
                            a.data.size
                        }
                        &&& b.data.position == a.data.position
                        &&& b.data.global_pos == a.data.global_pos
                        &&& b.data.args == a.data.args
                    },
            decreases self.widgets@.len() - i,
        {
            let ghost before = self.widgets@;
            self.widgets[i].data.size = new_size;
            assert(self.widgets@[i as int].widget == before[i as int].widget);
            assert(self.widgets@[i as int].data.size == new_size);
            assert(self.widgets@[i as int].data.position == before[i as int].data.position);
            assert(self.widgets@[i as int].data.global_pos == before[i as int].data.global_pos);
            assert(self.widgets@[i as int].data.args == before[i as int].data.args);
            assert forall|j: int| 0 <= j < self.widgets@.len() implies {
                let a = old(self).widgets@[j];
                let b = #[trigger] self.widgets@[j];
                &&& b.widget == a.widget
                &&& b.data.size == if j < i + 1 {
                    new_size
                } else {
                    a.data.size
                }
                &&& b.data.position == a.data.position
                &&& b.data.global_pos == a.data.global_pos
                &&& b.data.args == a.data.args
            } by {
                if j != i {
                    assert(self.widgets@[j] == before[j]);
                }
            }
            i = i + 1;
        }
        self.stale = true;
        true
    }

    /// Assembles one frame: when the transforms are stale, the uniform writes of all
    /// widgets, then one draw call per widget in list order. Fails, changing
    /// nothing, when a widget was never initialised.
    pub fn render(&mut self) -> (r: Result<Frame, WidgetError>)
        ensures
            final(self).spec_size() == old(self).spec_size(),
            final(self).spec_config() == old(self).spec_config(),
            final(self).widget_seq() == old(self).widget_seq(),
            r is Err <==> !all_initialized(old(self).widget_seq()),
            r is Err ==> r == Err::<Frame, WidgetError>(WidgetError::NotInitialized)
                && final(self).is_stale() == old(self).is_stale(),
            r matches Ok(f) ==> {
                &&& f.draws@ == draws_of(old(self).widget_seq())
                &&& f.uploads@ == if old(self).is_stale() {
                    uploads_of(old(self).widget_seq())
                } else {
                    Seq::empty()
                }
                &&& !final(self).is_stale()
            },
    {
        let mut uploads: Vec<Upload> = Vec::new();
        let mut draws: Vec<DrawCommand> = Vec::new();
        let mut i: usize = 0;
        while i < self.widgets.len()
            invariant
                0 <= i <= self.widgets@.len(),
                self.size == old(self).size,
                self.config == old(self).config,
                self.stale == old(self).stale,
                self.widgets@ == old(self).widgets@,
                draws@ == draws_of(self.widgets@).subrange(0, i as int),
                uploads@ == if self.stale {
                    uploads_of(self.widgets@).subrange(0, i as int)
                } else {
                    Seq::empty()
                },
                forall|j: int| 0 <= j < i ==> (#[trigger] self.widgets@[j]).widget.resources() is Some,
            decreases self.widgets@.len() - i,
        {
            let ghost before = self.widgets@;
            if self.stale {
                match self.widgets[i].update() {
                    Ok(u) => uploads.push(u),
                    Err(e) => {
                        assert(self.widgets@ =~= before);
                        return Err(e);
                    },
                }
            }
            assert(self.widgets@ =~= before);
            match self.widgets[i].render() {
                Ok(d) => draws.push(d),
                Err(e) => {
                    assert(self.widgets@ =~= before);
                    return Err(e);
                },
            }
            assert(self.widgets@ =~= before);
            proof {
                assert(draws_of(self.widgets@).subrange(0, i + 1) =~= draws_of(self.widgets@).subrange(
                    0,
                    i as int,
                ).push(draws_of(self.widgets@)[i as int]));
                assert(uploads_of(self.widgets@).subrange(0, i + 1) =~= uploads_of(
                    self.widgets@,
                ).subrange(0, i as int).push(uploads_of(self.widgets@)[i as int]));
            }
            i = i + 1;
        }
        assert(draws_of(self.widgets@).subrange(0, i as int) =~= draws_of(self.widgets@));
        assert(uploads_of(self.widgets@).subrange(0, i as int) =~= uploads_of(self.widgets@));
        self.stale = false;
        Ok(Frame { uploads, draws })
    }
}

/// Resizing twice to the same size configures the surface as resizing once, and a
/// size with a zero dimension leaves the configuration as it was.
pub proof fn lemma_resize_idempotent(c: SurfaceConfig, s: Size)
    ensures
        resized(resized(c, s), s) == resized(c, s),
        s.width == 0 || s.height == 0 ==> resized(c, s) == c,
{
}

} // verus!
