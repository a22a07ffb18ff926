//! The compositor: an ordered stack of components. Input goes to the topmost
//! layer first and bubbles down until a layer consumes it; layers answer with
//! deferred callbacks, which the compositor runs against itself right after
//! dispatch. Rendering walks the same stack bottom to top.
use vstd::prelude::*;

use crate::domain::SearchResultItem;
use crate::editor_view::{spec_editor_handle, EditorView, EditorViewV};
use crate::model::EditorModel;
use crate::search_box::{spec_search_box_handle, SearchBox, SearchBoxV};
use crate::keys::{Event, KeyCode, KeyEvent, KeyModifiers};

verus! {

/// A rectangle of screen cells.
#[derive(Debug, Clone, Copy, PartialEq, Eq, Structural)]
pub struct Rect {
    pub x: u16,
    pub y: u16,
    pub width: u16,
    pub height: u16,
}

/// A position in screen cells.
#[derive(Debug, Clone, Copy, PartialEq, Eq, Structural)]
pub struct Position {
    pub x: u16,
    pub y: u16,
}

/// Info box shown in the editor. Rendering is the embedding application's
/// business; only the content lives here.
#[derive(Debug)]
pub struct Info {
    /// Title shown at top.
    pub title: String,
    /// Text body, may contain newlines.
    pub text: String,
    /// Body width.
    pub width: u16,
    /// Body height.
    pub height: u16,
}

/// Saturating addition on screen coordinates.
pub open spec fn spec_sat_add_u16(a: int, b: int) -> int {
    if a + b > 0xffff {
        0xffff
    } else {
        a + b
    }
}

/// Add two screen coordinates, stopping at the edge of the representable
/// screen.
pub fn sat_add_u16(a: u16, b: u16) -> (r: u16)
    ensures
        r == spec_sat_add_u16(a as int, b as int),
{
    if a > 0xffff - b {
        0xffff
    } else {
        a + b
    }
}

/// Shared read-mostly state that every layer may consult while handling
/// events or rendering.
pub struct CompositorContext {
    pub editor_model: EditorModel,
    pub scroll: Option<usize>,
}

impl CompositorContext {
    /// A fresh context.
    pub fn new() -> (r: CompositorContext)
        ensures
            r.editor_model.next_document_id.0 == 1,
            r.scroll is None,
    {
        CompositorContext { editor_model: EditorModel::default(), scroll: None }
    }
}

/// One layer of the stack.
pub enum Component {
    Editor(EditorView),
    Search(SearchBox),
}

/// The mathematical value of a layer.
#[verifier::ext_equal]
pub enum ComponentV {
    Editor(EditorViewV),
    Search(SearchBoxV),
}

impl View for Component {
    type V = ComponentV;

    open spec fn view(&self) -> ComponentV {
        match *self {
            Component::Editor(v) => ComponentV::Editor(v@),
            Component::Search(s) => ComponentV::Search(s@),
        }
    }
}

/// A layer is well-formed when its own state is.
pub open spec fn component_wf(c: ComponentV) -> bool {
    match c {
        ComponentV::Editor(_) => true,
        ComponentV::Search(s) => s.wf(),
    }
}

/// A one-shot unit of work against the compositor, returned by a layer from
/// event handling and run right after dispatch. A layer cannot mutate the
/// stack that owns it, so stack changes are expressed as data and applied by
/// the compositor itself.
pub enum Callback {
    /// Push a new topmost layer.
    Push(Component),
    /// Pop the topmost layer (the base layer always stays).
    Pop,
}

/// The mathematical value of a callback.
#[verifier::ext_equal]
pub enum CallbackV {
    Push(ComponentV),
    Pop,
}

impl View for Callback {
    type V = CallbackV;

    open spec fn view(&self) -> CallbackV {
        match *self {
            Callback::Push(ref c) => CallbackV::Push(c@),
            Callback::Pop => CallbackV::Pop,
        }
    }
}

/// A callback is well-formed when what it pushes is.
pub open spec fn callback_wf(cb: CallbackV) -> bool {
    match cb {
        CallbackV::Push(c) => component_wf(c),
        CallbackV::Pop => true,
    }
}

/// A layer's answer to an event: whether the event was consumed, with an
/// optional deferred callback either way.
pub enum EventResult {
    /// Let the next layer handle the event too.
    Ignored(Option<Callback>),
    /// The event stops here.
    Consumed(Option<Callback>),
}

/// The mathematical value of an event result.
#[verifier::ext_equal]
pub enum EventResultV {
    Ignored(Option<CallbackV>),
    Consumed(Option<CallbackV>),
}

impl View for EventResult {
    type V = EventResultV;

    open spec fn view(&self) -> EventResultV {
        match *self {
            EventResult::Ignored(ref cb) => EventResultV::Ignored(
                match cb {
                    Some(c) => Some(c@),
                    None => None,
                },
            ),
            EventResult::Consumed(ref cb) => EventResultV::Consumed(
                match cb {
                    Some(c) => Some(c@),
                    None => None,
                },
            ),
        }
    }
}

/// Where one layer claims the terminal cursor, given the frame area.
pub open spec fn spec_component_cursor(c: ComponentV, area: Rect) -> (int, int) {
    match c {
        ComponentV::Editor(v) => crate::editor_view::spec_editor_cursor(v),
        ComponentV::Search(s) => crate::search_box::spec_search_cursor(s, area),
    }
}

/// What one event does to one layer.
pub open spec fn spec_component_handle(c: ComponentV, e: Event) -> (ComponentV, EventResultV) {
    match c {
        ComponentV::Editor(v) => {
            let r = spec_editor_handle(v, e);
            (ComponentV::Editor(r.0), r.1)
        },
        ComponentV::Search(s) => {
            let r = spec_search_box_handle(s, e);
            (ComponentV::Search(r.0), r.1)
        },
    }
}

/// The callbacks a layer hands back are always well-formed, whatever the
/// event.
pub proof fn lemma_component_handle_wf(c: ComponentV, e: Event)
    requires
        component_wf(c),
    ensures
        component_wf(spec_component_handle(c, e).0),
        match spec_component_handle(c, e).1 {
            EventResultV::Ignored(Some(cb)) => callback_wf(cb),
            EventResultV::Consumed(Some(cb)) => callback_wf(cb),
            _ => true,
        },
{
}

/// A mathematical view of a whole layer stack.
pub open spec fn layers_view(s: Seq<Component>) -> Seq<ComponentV> {
    Seq::new(
        s.len(),
        |i: int|
            if 0 <= i < s.len() {
                s[i]@
            } else {
                arbitrary()
            },
    )
}

/// A mathematical view of queued callbacks.
pub open spec fn cbs_view(s: Seq<Callback>) -> Seq<CallbackV> {
    Seq::new(
        s.len(),
        |i: int|
            if 0 <= i < s.len() {
                s[i]@
            } else {
                arbitrary()
            },
    )
}

/// What dispatching one event over a stack yields: the stack after the
/// layers' own mutations, and the callbacks they queued, topmost layer's
/// first.
#[verifier::ext_equal]
pub struct DispatchV {
    pub layers: Seq<ComponentV>,
    pub cbs: Seq<CallbackV>,
}

/// An optional callback, as a queue segment.
pub open spec fn opt_cb_seq(cb: Option<CallbackV>) -> Seq<CallbackV> {
    match cb {
        Some(c) => seq![c],
        None => Seq::<CallbackV>::empty(),
    }
}

/// Dispatch an event top-to-bottom: each layer handles it in turn; a
/// Consumed answer stops the walk; callbacks are queued in walk order,
/// whether the layer consumed the event or not.
pub open spec fn spec_dispatch(layers: Seq<ComponentV>, e: Event) -> DispatchV
    decreases layers.len(),
{
    if layers.len() == 0 {
        DispatchV { layers, cbs: Seq::<CallbackV>::empty() }
    } else {
        let top = layers.last();
        let stepped = spec_component_handle(top, e);
        match stepped.1 {
            EventResultV::Consumed(cb) => DispatchV {
                layers: layers.drop_last().push(stepped.0),
                cbs: opt_cb_seq(cb),
            },
            EventResultV::Ignored(cb) => {
                let rest = spec_dispatch(layers.drop_last(), e);
                DispatchV { layers: rest.layers.push(stepped.0), cbs: opt_cb_seq(cb) + rest.cbs }
            },
        }
    }
}

/// Apply one callback to the stack: push adds a topmost layer; pop removes
/// it, except that the base layer always stays.
pub open spec fn spec_apply_callback(layers: Seq<ComponentV>, cb: CallbackV) -> Seq<ComponentV> {
    match cb {
        CallbackV::Push(c) => layers.push(c),
        CallbackV::Pop => if layers.len() > 1 {
            layers.drop_last()
        } else {
            layers
        },
    }
}

/// Apply queued callbacks in order.
pub open spec fn spec_apply_callbacks(layers: Seq<ComponentV>, cbs: Seq<CallbackV>) -> Seq<
    ComponentV,
>
    decreases cbs.len(),
{
    if cbs.len() == 0 {
        layers
    } else {
        spec_apply_callbacks(spec_apply_callback(layers, cbs[0]), cbs.drop_first())
    }
}

/// Everything one event does to the stack: dispatch, then the queued
/// callbacks in order.
pub open spec fn spec_handle_event(layers: Seq<ComponentV>, e: Event) -> Seq<ComponentV> {
    let d = spec_dispatch(layers, e);
    spec_apply_callbacks(d.layers, d.cbs)
}

/// Dispatch never changes how many layers there are.
pub proof fn lemma_dispatch_len(layers: Seq<ComponentV>, e: Event)
    ensures
        spec_dispatch(layers, e).layers.len() == layers.len(),
    decreases layers.len(),
{
    if layers.len() > 0 {
        lemma_dispatch_len(layers.drop_last(), e);
    }
}

/// Applying callbacks never empties a nonempty stack.
pub proof fn lemma_apply_callbacks_nonempty(layers: Seq<ComponentV>, cbs: Seq<CallbackV>)
    requires
        layers.len() >= 1,
    ensures
        spec_apply_callbacks(layers, cbs).len() >= 1,
    decreases cbs.len(),
{
    if cbs.len() > 0 {
        lemma_apply_callbacks_nonempty(spec_apply_callback(layers, cbs[0]), cbs.drop_first());
    }
}

/// The base-layer invariant: however an event is handled, a stack with a
/// base layer keeps one.
pub proof fn lemma_stack_never_empty(layers: Seq<ComponentV>, e: Event)
    requires
        layers.len() >= 1,
    ensures
        spec_handle_event(layers, e).len() >= 1,
{
    lemma_dispatch_len(layers, e);
    lemma_apply_callbacks_nonempty(spec_dispatch(layers, e).layers, spec_dispatch(layers, e).cbs);
}

/// The lowest search-box layer, if any.
pub open spec fn spec_find_search(layers: Seq<ComponentV>) -> Option<int>
    decreases layers.len(),
{
    if layers.len() == 0 {
        None
    } else if layers[0] is Search {
        Some(0int)
    } else {
        match spec_find_search(layers.drop_first()) {
            Some(i) => Some(i + 1),
            None => None,
        }
    }
}

/// The lowest editor layer, if any.
pub open spec fn spec_find_editor(layers: Seq<ComponentV>) -> Option<int>
    decreases layers.len(),
{
    if layers.len() == 0 {
        None
    } else if layers[0] is Editor {
        Some(0int)
    } else {
        match spec_find_editor(layers.drop_first()) {
            Some(i) => Some(i + 1),
            None => None,
        }
    }
}

/// After popping the only search-box layer — the topmost one — lookup by
/// type finds none.
pub proof fn lemma_find_after_pop_of_last_search(layers: Seq<ComponentV>)
    requires
        layers.len() >= 1,
        layers.last() is Search,
        forall|i: int| 0 <= i < layers.len() - 1 ==> !((#[trigger] layers[i]) is Search),
    ensures
        spec_find_search(layers.drop_last()) is None,
{
    lemma_find_search_none(layers.drop_last());
}

proof fn lemma_find_search_none(layers: Seq<ComponentV>)
    requires
        forall|i: int| 0 <= i < layers.len() ==> !((#[trigger] layers[i]) is Search),
    ensures
        spec_find_search(layers) is None,
    decreases layers.len(),
{
    if layers.len() > 0 {
        lemma_find_search_none(layers.drop_first());
    }
}

impl Component {
    /// Handle one terminal event.
    pub fn handle_event(&mut self, event: &Event) -> (r: EventResult)
        requires
            component_wf(old(self)@),
        ensures
            (final(self)@, r@) == spec_component_handle(old(self)@, *event),
            component_wf(final(self)@),
    {
        match self {
            Component::Editor(v) => v.handle_event(event),
            Component::Search(s) => s.handle_event(event),
        }
    }

    /// Where this layer wants the terminal cursor, given the frame area.
    pub fn cursor_position(&self, area: Rect) -> (r: Option<(u16, u16)>)
        requires
            component_wf(self@),
        ensures
            r matches Some(p) && p.0 as int == spec_component_cursor(self@, area).0 && p.1 as int
                == spec_component_cursor(self@, area).1,
    {
        match self {
            Component::Editor(v) => v.cursor_position(area),
            Component::Search(s) => s.cursor_position(area),
        }
    }
}

/// Taking an element out and putting it back leaves a sequence as it was.
proof fn lemma_remove_insert_same<A>(s: Seq<A>, i: int)
    requires
        0 <= i < s.len(),
    ensures
        s.remove(i).insert(i, s[i]) =~= s,
{
    s.remove_ensures(i);
    s.remove(i).insert_ensures(i, s[i]);
    assert forall|k: int| 0 <= k < s.len() implies s.remove(i).insert(i, s[i])[k] == s[k] by {
        if k > i {
            assert(s.remove(i).insert(i, s[i])[k] == s.remove(i)[k - 1]);
            assert(s.remove(i)[k - 1] == s[k]);
        }
    }
}

/// Taking an element out and putting another back in its place is an update.
proof fn lemma_remove_insert_update<A>(s: Seq<A>, i: int, v: A)
    requires
        0 <= i < s.len(),
    ensures
        s.remove(i).insert(i, v) =~= s.update(i, v),
{
    s.remove_ensures(i);
    s.remove(i).insert_ensures(i, v);
    assert forall|k: int| 0 <= k < s.len() implies s.remove(i).insert(i, v)[k] == s.update(
        i,
        v,
    )[k] by {
        if k > i {
            assert(s.remove(i).insert(i, v)[k] == s.remove(i)[k - 1]);
            assert(s.remove(i)[k - 1] == s[k]);
        }
    }
}

/// What the event loop should do after an event was routed.
#[derive(Debug, Clone, Copy, PartialEq, Eq, Structural)]
pub enum AppAction {
    Continue,
    Exit,
}

/// The key that asks the application to quit: Ctrl-C.
pub open spec fn spec_is_ctrl_c(k: KeyEvent) -> bool {
    k.code == KeyCode::Char('c') && k.modifiers == (KeyModifiers {
        shift: false,
        alt: false,
        control: true,
    })
}

/// Dispatch an event over the `n` lowest layers, topmost of those first,
/// queuing the callbacks the layers hand back.
fn dispatch_rec(layers: &mut Vec<Component>, n: usize, event: &Event, cbs: &mut Vec<Callback>)
    requires
        n <= old(layers)@.len(),
        forall|i: int|
            0 <= i < old(layers)@.len() ==> component_wf(
                #[trigger] layers_view(old(layers)@)[i],
            ),
    ensures
        final(layers)@.len() == old(layers)@.len(),
        forall|i: int|
            0 <= i < final(layers)@.len() ==> component_wf(
                #[trigger] layers_view(final(layers)@)[i],
            ),
        layers_view(final(layers)@).take(n as int) == spec_dispatch(
            layers_view(old(layers)@).take(n as int),
            *event,
        ).layers,
        layers_view(final(layers)@).skip(n as int) == layers_view(old(layers)@).skip(n as int),
        cbs_view(final(cbs)@) == cbs_view(old(cbs)@) + spec_dispatch(
            layers_view(old(layers)@).take(n as int),
            *event,
        ).cbs,
        forall|j: int|
            0 <= j < final(cbs)@.len() ==> callback_wf(#[trigger] cbs_view(final(cbs)@)[j]) || (
            j < old(cbs)@.len() && cbs_view(final(cbs)@)[j] == cbs_view(old(cbs)@)[j]),
    decreases n,
{
    let ghost lv0 = layers_view(layers@);
    let ghost cv0 = cbs_view(cbs@);
    if n == 0 {
        proof {
            assert(lv0.take(0) =~= Seq::<ComponentV>::empty());
            assert(layers_view(layers@).take(0) =~= spec_dispatch(lv0.take(0), *event).layers);
            assert(cbs_view(cbs@) =~= cv0 + spec_dispatch(lv0.take(0), *event).cbs);
        }
        return ;
    }
    let ghost pre = lv0.take(n as int);
    proof {
        assert(pre.last() == lv0[n - 1]);
    }
    let mut top = layers.remove(n - 1);
    proof {
        assert(top@ == lv0[n - 1]);
        lemma_component_handle_wf(top@, *event);
    }
    let res = top.handle_event(event);
    let ghost stepped = spec_component_handle(pre.last(), *event);
    layers.insert(n - 1, top);
    let ghost lv1 = layers_view(layers@);
    proof {
        assert(lv1 =~= lv0.update(n - 1, stepped.0));
        assert(lv1.skip(n as int) =~= lv0.skip(n as int));
    }
    match res {
        EventResult::Consumed(cb_opt) => {
            match cb_opt {
                Some(cb) => {
                    cbs.push(cb);
                    proof {
                        assert(cbs_view(cbs@) =~= cv0 + opt_cb_seq(
                            stepped.1->Consumed_0,
                        ));
                    }
                },
                None => {
                    proof {
                        assert(cbs_view(cbs@) =~= cv0 + opt_cb_seq(
                            stepped.1->Consumed_0,
                        ));
                    }
                },
            }
            proof {
                assert(lv1.take(n as int) =~= pre.drop_last().push(stepped.0));
            }
        },
        EventResult::Ignored(cb_opt) => {
            match cb_opt {
                Some(cb) => {
                    cbs.push(cb);
                    proof {
                        assert(cbs_view(cbs@) =~= cv0 + opt_cb_seq(stepped.1->Ignored_0));
                    }
                },
                None => {
                    proof {
                        assert(cbs_view(cbs@) =~= cv0 + opt_cb_seq(stepped.1->Ignored_0));
                    }
                },
            }
            let ghost cv1 = cbs_view(cbs@);
            proof {
                assert(lv1.take(n as int - 1) =~= pre.drop_last());
            }
            dispatch_rec(layers, n - 1, event, cbs);
            let ghost rest = spec_dispatch(pre.drop_last(), *event);
            proof {
                let lv2 = layers_view(layers@);
                assert(lv2.skip(n as int - 1) == lv1.skip(n as int - 1));
                assert(lv2[n - 1] == lv1[n - 1]) by {
                    assert(lv2.skip(n as int - 1)[0] == lv2[n - 1]);
                    assert(lv1.skip(n as int - 1)[0] == lv1[n - 1]);
                }
                assert(lv2.take(n as int - 1) == rest.layers);
                assert forall|j: int| 0 <= j < n implies lv2.take(n as int)[j] == rest.layers.push(
                    stepped.0,
                )[j] by {
                    if j < n - 1 {
                        assert(lv2.take(n as int)[j] == lv2.take(n as int - 1)[j]);
                    }
                }
                assert(lv2.take(n as int) =~= rest.layers.push(stepped.0));
                assert forall|j: int| 0 <= j < lv2.len() - n implies lv2.skip(n as int)[j]
                    == lv0.skip(n as int)[j] by {
                    assert(lv2.skip(n as int)[j] == lv2.skip(n as int - 1)[j + 1]);
                    assert(lv1.skip(n as int)[j] == lv1.skip(n as int - 1)[j + 1]);
                    assert(lv1.skip(n as int)[j] == lv0.skip(n as int)[j]);
                }
                assert(lv2.skip(n as int) =~= lv0.skip(n as int));
                assert(cbs_view(cbs@) =~= cv0 + (opt_cb_seq(stepped.1->Ignored_0) + rest.cbs));
            }
        },
    }
}

/// The layered component stack.
pub struct Compositor {
    pub layers: Vec<Component>,
    pub area: Rect,
}

impl Compositor {
    /// The stack's mathematical value, bottom first.
    pub open spec fn spec_layers(&self) -> Seq<ComponentV> {
        layers_view(self.layers@)
    }

    /// The screen area the stack was last given.
    pub open spec fn spec_area(&self) -> Rect {
        self.area
    }

    /// A base layer always exists, and every layer is well-formed.
    pub open spec fn wf(&self) -> bool {
        &&& self.layers@.len() >= 1
        &&& forall|i: int|
            0 <= i < self.spec_layers().len() ==> component_wf(#[trigger] self.spec_layers()[i])
    }

    /// A compositor over the given area, with the editor view as its base
    /// layer.
    pub fn new(area: Rect) -> (r: Compositor)
        ensures
            r.wf(),
            r.spec_layers() =~= seq![ComponentV::Editor(crate::editor_view::spec_editor_view_new())],
            r.spec_area() == area,
    {
        let mut layers: Vec<Component> = Vec::new();
        layers.push(Component::Editor(EditorView::new()));
        Compositor { layers, area }
    }

    /// How many layers the stack holds.
    pub fn height(&self) -> (r: usize)
        ensures
            r == self.spec_layers().len(),
    {
        self.layers.len()
    }

    /// Remember a new screen area.
    pub fn resize(&mut self, area: Rect)
        ensures
            final(self).spec_layers() == old(self).spec_layers(),
            final(self).spec_area() == area,
            old(self).wf() ==> final(self).wf(),
    {
        self.area = area;
    }

    /// Push a new topmost layer; meant to be called from a callback.
    pub fn push(&mut self, layer: Component)
        ensures
            final(self).spec_layers() =~= old(self).spec_layers().push(layer@),
            final(self).spec_area() == old(self).spec_area(),
            old(self).wf() && component_wf(layer@) ==> final(self).wf(),
    {
        self.layers.push(layer);
    }

    /// Pop the topmost layer and hand it back. The base layer is never
    /// popped: with one layer left, nothing happens.
    pub fn pop(&mut self) -> (r: Option<Component>)
        ensures
            old(self).spec_layers().len() > 1 ==> {
                &&& r matches Some(c) && c@ == old(self).spec_layers().last()
                &&& final(self).spec_layers() =~= old(self).spec_layers().drop_last()
            },
            old(self).spec_layers().len() <= 1 ==> r is None && *final(self) == *old(self),
            final(self).spec_area() == old(self).spec_area(),
            old(self).wf() ==> final(self).wf(),
    {
        if self.layers.len() > 1 {
            self.layers.pop()
        } else {
            None
        }
    }

    /// The lowest search-box layer, for type-directed lookup.
    pub fn find_search(&self) -> (r: Option<&SearchBox>)
        ensures
            match r {
                Some(s) => spec_find_search(self.spec_layers()) matches Some(i)
                    && self.spec_layers()[i] == ComponentV::Search(s@),
                None => spec_find_search(self.spec_layers()) is None,
            },
    {
        let n: usize = self.layers.len();
        let mut i: usize = 0;
        proof {
            assert(self.spec_layers().skip(0) =~= self.spec_layers());
        }
        while i < n
            invariant
                n == self.layers@.len(),
                i <= n,
                spec_find_search(self.spec_layers()) == match spec_find_search(
                    self.spec_layers().skip(i as int),
                ) {
                    Some(k) => Some(k + i),
                    None => None::<int>,
                },
            decreases n - i,
        {
            proof {
                assert(self.spec_layers().skip(i as int)[0] == self.spec_layers()[i as int]);
                assert(self.spec_layers().skip(i as int).drop_first() =~= self.spec_layers().skip(
                    i as int + 1,
                ));
            }
            match &self.layers[i] {
                Component::Search(s) => {
                    return Some(s);
                },
                _ => {},
            }
            i = i + 1;
        }
        None
    }

    /// The topmost layer.
    pub fn top(&self) -> (r: &Component)
        requires
            self.wf(),
        ensures
            r@ == self.spec_layers().last(),
    {
        &self.layers[self.layers.len() - 1]
    }

    /// Dispatch one event and then run the queued callbacks, in order. The
    /// answer says whether a redraw is warranted; the current policy is to
    /// always redraw.
    pub fn handle_event(&mut self, event: &Event, cx: &mut CompositorContext) -> (redraw: bool)
        requires
            old(self).wf(),
        ensures
            final(self).wf(),
            final(self).spec_layers() == spec_handle_event(old(self).spec_layers(), *event),
            final(self).spec_area() == old(self).spec_area(),
            *final(cx) == *old(cx),
            redraw,
    {
        let ghost lv0 = self.spec_layers();
        let mut cbs: Vec<Callback> = Vec::new();
        let n = self.layers.len();
        proof {
            assert(lv0.take(n as int) =~= lv0);
            assert(cbs_view(cbs@) =~= Seq::<CallbackV>::empty());
        }
        dispatch_rec(&mut self.layers, n, event, &mut cbs);
        let ghost d = spec_dispatch(lv0, *event);
        proof {
            lemma_dispatch_len(lv0, *event);
            assert(layers_view(self.layers@).take(n as int) =~= layers_view(self.layers@));
            assert(cbs_view(cbs@) =~= Seq::<CallbackV>::empty() + d.cbs);
        }
        while cbs.len() > 0
            invariant
                self.layers@.len() >= 1,
                forall|i: int|
                    0 <= i < self.spec_layers().len() ==> component_wf(
                        #[trigger] self.spec_layers()[i],
                    ),
                self.area == old(self).area,
                *cx == *old(cx),
                forall|j: int|
                    0 <= j < cbs@.len() ==> callback_wf(#[trigger] cbs_view(cbs@)[j]),
                spec_apply_callbacks(self.spec_layers(), cbs_view(cbs@)) == spec_apply_callbacks(
                    d.layers,
                    d.cbs,
                ),
            decreases cbs@.len(),
        {
            let ghost cv0 = cbs_view(cbs@);
            let cb = cbs.remove(0);
            proof {
                assert(cb@ == cv0[0]);
                assert(cbs_view(cbs@) =~= cv0.drop_first());
            }
            self.apply_callback(cb, cx);
        }
        proof {
            assert(cbs_view(cbs@) =~= Seq::<CallbackV>::empty());
            assert(spec_apply_callbacks(self.spec_layers(), cbs_view(cbs@)) == self.spec_layers());
        }
        true
    }

    /// Run one deferred callback against the stack.
    fn apply_callback(&mut self, callback: Callback, cx: &mut CompositorContext)
        requires
            old(self).wf(),
            callback_wf(callback@),
        ensures
            final(self).wf(),
            final(self).spec_layers() == spec_apply_callback(old(self).spec_layers(), callback@),
            final(self).spec_area() == old(self).spec_area(),
            *final(cx) == *old(cx),
    {
        match callback {
            Callback::Push(c) => self.push(c),
            Callback::Pop => {
                let _popped = self.pop();
            },
        }
    }

    /// Route one terminal event: a resize updates the screen area before
    /// dispatch, the quit key asks the application to exit, any other key is
    /// dispatched, and focus or idle events are ignored.
    pub fn handle_terminal_event(&mut self, event: &Event, cx: &mut CompositorContext) -> (r:
        AppAction)
        requires
            old(self).wf(),
        ensures
            final(self).wf(),
            *final(cx) == *old(cx),
            match *event {
                Event::Resize(w, h) => {
                    &&& r == AppAction::Continue
                    &&& final(self).spec_area() == (Rect { x: 0, y: 0, width: w, height: h })
                    &&& final(self).spec_layers() == spec_handle_event(
                        old(self).spec_layers(),
                        *event,
                    )
                },
                Event::Key(k) => if spec_is_ctrl_c(k) {
                    r == AppAction::Exit && *final(self) == *old(self)
                } else {
                    &&& r == AppAction::Continue
                    &&& final(self).spec_layers() == spec_handle_event(
                        old(self).spec_layers(),
                        *event,
                    )
                    &&& final(self).spec_area() == old(self).spec_area()
                },
                _ => r == AppAction::Continue && *final(self) == *old(self),
            },
    {
        match event {
            Event::Resize(w, h) => {
                self.resize(Rect { x: 0, y: 0, width: *w, height: *h });
                let _ = self.handle_event(event, cx);
                AppAction::Continue
            },
            Event::Key(k) => {
                if k.code == KeyCode::Char('c') && k.modifiers == (KeyModifiers {
                    shift: false,
                    alt: false,
                    control: true,
                }) {
                    AppAction::Exit
                } else {
                    let _ = self.handle_event(event, cx);
                    AppAction::Continue
                }
            },
            _ => AppAction::Continue,
        }
    }

    /// Hand a finished search's rows to the search-box layer, if one is on
    /// the stack. The box itself discards results that are not newer than
    /// what it already shows.
    #[verifier::loop_isolation(false)]
    pub fn update_search_results(
        &mut self,
        search_id: u64,
        results: Vec<SearchResultItem>,
    ) -> (applied: bool)
        requires
            old(self).wf(),
        ensures
            final(self).wf(),
            final(self).spec_area() == old(self).spec_area(),
            match spec_find_search(old(self).spec_layers()) {
                None => !applied && final(self).spec_layers() == old(self).spec_layers(),
                Some(i) => {
                    let s0 = old(self).spec_layers()[i]->Search_0;
                    if search_id > s0.current_search_id {
                        &&& applied
                        &&& final(self).spec_layers() == old(self).spec_layers().update(
                            i,
                            ComponentV::Search(
                                SearchBoxV {
                                    results: results@.map_values(|it: SearchResultItem| it@),
                                    selected_result: None,
                                    current_search_id: search_id as int,
                                    ..s0
                                },
                            ),
                        )
                    } else {
                        !applied && final(self).spec_layers() == old(self).spec_layers()
                    }
                },
            },
    {
        let ghost lv0 = self.spec_layers();
        let ghost a = self.layers@;
        let n: usize = self.layers.len();
        let mut i: usize = 0;
        proof {
            assert(lv0.skip(0) =~= lv0);
        }
        while i < n
            invariant
                n == self.layers@.len(),
                i <= n,
                a == self.layers@,
                self.area == old(self).area,
                lv0 == self.spec_layers(),
                spec_find_search(lv0) == match spec_find_search(lv0.skip(i as int)) {
                    Some(k) => Some(k + i),
                    None => None::<int>,
                },
            decreases n - i,
        {
            proof {
                assert(lv0.skip(i as int)[0] == lv0[i as int]);
                assert(lv0.skip(i as int).drop_first() =~= lv0.skip(i as int + 1));
            }
            let is_search = match &self.layers[i] {
                Component::Search(_) => true,
                _ => false,
            };
            if is_search {
                let mut comp = self.layers.remove(i);
                let applied = match &mut comp {
                    Component::Search(s) => s.apply_results(search_id, results),
                    Component::Editor(_) => {
                        proof {
                            assert(false);
                        }
                        false
                    },
                };
                self.layers.insert(i, comp);
                proof {
                    lemma_remove_insert_update(a, i as int, comp);
                    assert(self.layers@ == a.update(i as int, comp));
                    if applied {
                        assert(self.spec_layers() =~= lv0.update(
                            i as int,
                            ComponentV::Search(comp->Search_0@),
                        ));
                    } else {
                        assert(comp == a[i as int]);
                        lemma_remove_insert_same(a, i as int);
                        assert(self.layers@ == a);
                        assert(self.spec_layers() =~= lv0);
                    }
                }
                return applied;
            }
            i = i + 1;
        }
        proof {
            assert(lv0.skip(n as int) =~= Seq::<ComponentV>::empty());
        }
        false
    }

    /// Open a document: hand its location to the editor layer and pop the
    /// topmost layer (the search box that asked), keeping the base layer.
    #[verifier::loop_isolation(false)]
    pub fn open_document(&mut self, location: String) -> (opened: bool)
        requires
            old(self).wf(),
        ensures
            final(self).wf(),
            final(self).spec_area() == old(self).spec_area(),
            match spec_find_editor(old(self).spec_layers()) {
                None => !opened && *final(self) == *old(self) && final(self).spec_layers() == old(
                    self,
                ).spec_layers(),
                Some(i) => {
                    let updated = old(self).spec_layers().update(
                        i,
                        ComponentV::Editor(
                            EditorViewV {
                                document: Some(location@),
                                ..old(self).spec_layers()[i]->Editor_0
                            },
                        ),
                    );
                    &&& opened
                    &&& final(self).spec_layers() == (if updated.len() > 1 {
                        updated.drop_last()
                    } else {
                        updated
                    })
                },
            },
    {
        let ghost lv0 = self.spec_layers();
        let n: usize = self.layers.len();
        let mut i: usize = 0;
        proof {
            assert(lv0.skip(0) =~= lv0);
        }
        while i < n
            invariant
                n == self.layers@.len(),
                i <= n,
                *self == *old(self),
                lv0 == self.spec_layers(),
                spec_find_editor(lv0) == match spec_find_editor(lv0.skip(i as int)) {
                    Some(k) => Some(k + i),
                    None => None::<int>,
                },
            decreases n - i,
        {
            proof {
                assert(lv0.skip(i as int)[0] == lv0[i as int]);
                assert(lv0.skip(i as int).drop_first() =~= lv0.skip(i as int + 1));
            }
            let is_editor = match &self.layers[i] {
                Component::Editor(_) => true,
                _ => false,
            };
            if is_editor {
                let ghost a = self.layers@;
                let mut comp = self.layers.remove(i);
                match &mut comp {
                    Component::Editor(v) => {
                        v.document = Some(location);
                    },
                    Component::Search(_) => {
                        proof {
                            assert(false);
                        }
                    },
                };
                self.layers.insert(i, comp);
                let ghost updated = lv0.update(
                    i as int,
                    ComponentV::Editor(
                        EditorViewV { document: Some(location@), ..lv0[i as int]->Editor_0 },
                    ),
                );
                proof {
                    lemma_remove_insert_update(a, i as int, comp);
                    assert(self.layers@ == a.update(i as int, comp));
                    assert(comp->Editor_0@ =~= (EditorViewV {
                        document: Some(location@),
                        ..lv0[i as int]->Editor_0
                    }));
                    assert(self.spec_layers() =~= updated);
                }
                let _popped = self.pop();
                proof {
                    if updated.len() > 1 {
                        assert(self.spec_layers() =~= updated.drop_last());
                    } else {
                        assert(self.spec_layers() =~= updated);
                    }
                }
                return true;
            }
            i = i + 1;
        }
        proof {
            assert(lv0.skip(n as int) =~= Seq::<ComponentV>::empty());
        }
        false
    }

    /// Drain the search layer's latest query edit, if a search layer is on
    /// the stack and an edit is waiting for the debounce hook.
    #[verifier::loop_isolation(false)]
    pub fn take_debounce_feed(&mut self) -> (r: Option<Vec<char>>)
        requires
            old(self).wf(),
        ensures
            final(self).wf(),
            final(self).spec_area() == old(self).spec_area(),
            match spec_find_search(old(self).spec_layers()) {
                None => r is None && final(self).spec_layers() == old(self).spec_layers(),
                Some(i) => {
                    let s0 = old(self).spec_layers()[i]->Search_0;
                    &&& final(self).spec_layers() == old(self).spec_layers().update(
                        i,
                        ComponentV::Search(SearchBoxV { pending_feed: None, ..s0 }),
                    )
                    &&& match r {
                        Some(f) => s0.pending_feed == Some(f@),
                        None => s0.pending_feed is None,
                    }
                },
            },
    {
        let ghost lv0 = self.spec_layers();
        let n: usize = self.layers.len();
        let mut i: usize = 0;
        proof {
            assert(lv0.skip(0) =~= lv0);
        }
        while i < n
            invariant
                n == self.layers@.len(),
                i <= n,
                *self == *old(self),
                lv0 == self.spec_layers(),
                spec_find_search(lv0) == match spec_find_search(lv0.skip(i as int)) {
                    Some(k) => Some(k + i),
                    None => None::<int>,
                },
            decreases n - i,
        {
            proof {
                assert(lv0.skip(i as int)[0] == lv0[i as int]);
                assert(lv0.skip(i as int).drop_first() =~= lv0.skip(i as int + 1));
            }
            let is_search = match &self.layers[i] {
                Component::Search(_) => true,
                _ => false,
            };
            if is_search {
                let ghost a = self.layers@;
                let mut comp = self.layers.remove(i);
                let out = match &mut comp {
                    Component::Search(s) => s.take_debounce_feed(),
                    Component::Editor(_) => {
                        proof {
                            assert(false);
                        }
                        None
                    },
                };
                self.layers.insert(i, comp);
                proof {
                    lemma_remove_insert_update(a, i as int, comp);
                    assert(self.layers@ == a.update(i as int, comp));
                    assert(comp->Search_0@ =~= (SearchBoxV {
                        pending_feed: None,
                        ..lv0[i as int]->Search_0
                    }));
                    assert(self.spec_layers() =~= lv0.update(
                        i as int,
                        ComponentV::Search(
                            SearchBoxV { pending_feed: None, ..lv0[i as int]->Search_0 },
                        ),
                    ));
                }
                return out;
            }
            i = i + 1;
        }
        proof {
            assert(lv0.skip(n as int) =~= Seq::<ComponentV>::empty());
        }
        None
    }

    /// Drain the search layer's request to open a document, if one is
    /// waiting.
    #[verifier::loop_isolation(false)]
    pub fn take_pending_open(&mut self) -> (r: Option<String>)
        requires
            old(self).wf(),
        ensures
            final(self).wf(),
            final(self).spec_area() == old(self).spec_area(),
            match spec_find_search(old(self).spec_layers()) {
                None => r is None && final(self).spec_layers() == old(self).spec_layers(),
                Some(i) => {
                    let s0 = old(self).spec_layers()[i]->Search_0;
                    &&& final(self).spec_layers() == old(self).spec_layers().update(
                        i,
                        ComponentV::Search(SearchBoxV { pending_open: None, ..s0 }),
                    )
                    &&& match r {
                        Some(p) => s0.pending_open == Some(p@),
                        None => s0.pending_open is None,
                    }
                },
            },
    {
        let ghost lv0 = self.spec_layers();
        let n: usize = self.layers.len();
        let mut i: usize = 0;
        proof {
            assert(lv0.skip(0) =~= lv0);
        }
        while i < n
            invariant
                n == self.layers@.len(),
                i <= n,
                *self == *old(self),
                lv0 == self.spec_layers(),
                spec_find_search(lv0) == match spec_find_search(lv0.skip(i as int)) {
                    Some(k) => Some(k + i),
                    None => None::<int>,
                },
            decreases n - i,
        {
            proof {
                assert(lv0.skip(i as int)[0] == lv0[i as int]);
                assert(lv0.skip(i as int).drop_first() =~= lv0.skip(i as int + 1));
            }
            let is_search = match &self.layers[i] {
                Component::Search(_) => true,
                _ => false,
            };
            if is_search {
                let ghost a = self.layers@;
                let mut comp = self.layers.remove(i);
                let out = match &mut comp {
                    Component::Search(s) => s.take_pending_open(),
                    Component::Editor(_) => {
                        proof {
                            assert(false);
                        }
                        None
                    },
                };
                self.layers.insert(i, comp);
                proof {
                    lemma_remove_insert_update(a, i as int, comp);
                    assert(self.layers@ == a.update(i as int, comp));
                    assert(comp->Search_0@ =~= (SearchBoxV {
                        pending_open: None,
                        ..lv0[i as int]->Search_0
                    }));
                    assert(self.spec_layers() =~= lv0.update(
                        i as int,
                        ComponentV::Search(
                            SearchBoxV { pending_open: None, ..lv0[i as int]->Search_0 },
                        ),
                    ));
                }
                return out;
            }
            i = i + 1;
        }
        proof {
            assert(lv0.skip(n as int) =~= Seq::<ComponentV>::empty());
        }
        None
    }

    /// Where the terminal cursor belongs: the first claim scanning top-down.
    /// Every layer of this crate claims a position, so that is the topmost
    /// layer's claim.
    pub fn cursor_position(&self, area: Rect) -> (r: Option<(u16, u16)>)
        requires
            self.wf(),
        ensures
            r matches Some(p) && p.0 as int == spec_component_cursor(
                self.spec_layers().last(),
                area,
            ).0 && p.1 as int == spec_component_cursor(self.spec_layers().last(), area).1,
    {
        let n: usize = self.layers.len();
        let mut i: usize = n;
        while i > 0
            invariant
                i == n,
                n == self.layers@.len(),
                self.wf(),
            decreases i,
        {
            i = i - 1;
            proof {
                assert(component_wf(self.spec_layers()[i as int]));
            }
            match self.layers[i].cursor_position(area) {
                Some(pos) => {
                    return Some(pos);
                },
                None => {
                    proof {
                        assert(false);
                    }
                },
            }
        }
        proof {
            assert(false);
        }
        None
    }
}

} // verus!
