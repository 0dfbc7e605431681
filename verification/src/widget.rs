//! Widgets: named interface panels with drawable elements. The registry
//! pairs a widget store with a data store; refreshed element lists land in
//! the data store and are folded into the widgets once per frame.

use vstd::prelude::*;

use crate::components::{Position, Rgb};

verus! {

/// Whether a widget border is drawn with thick or thin box glyphs.
#[derive(PartialEq, Eq, Structural, Clone, Copy, Debug)]
pub enum BoxType {
    THIN,
    THICK,
}

/// One drawable line of a widget, in one color.
#[derive(Clone, Debug)]
pub struct WidgetElement {
    pub to_draw: String,
    pub color: Rgb,
}

impl WidgetElement {
    /// A line of text in the given color.
    pub fn new(s: String, c: Rgb) -> (r: WidgetElement)
        ensures
            r.to_draw@ == s@,
            r.color == c,
    {
        WidgetElement { to_draw: s, color: c }
    }
}

/// A named panel with its elements, drawn in order.
pub struct Widget {
    pub name: String,
    pub position: Position,
    pub dimensions: Position,
    pub elements: Vec<WidgetElement>,
    pub border: Option<BoxType>,
    pub selection: Option<u8>,
}

/// Process-wide named widget storage, passed explicitly: widgets by name,
/// and the freshly computed element lists waiting to be folded in.
pub struct WidgetRegistry {
    pub widgets: Vec<Widget>,
    pub data_names: Vec<String>,
    pub data: Vec<Vec<WidgetElement>>,
}

impl WidgetRegistry {
    /// The data stores stay aligned.
    pub open spec fn wf(&self) -> bool {
        self.data_names@.len() == self.data@.len()
    }

    /// An empty registry.
    pub fn new() -> (r: Self)
        ensures
            r.wf(),
            r.widgets@.len() == 0,
            r.data_names@.len() == 0,
    {
        WidgetRegistry { widgets: Vec::new(), data_names: Vec::new(), data: Vec::new() }
    }
}

/// Two element lists draw the same text in the same colors.
pub open spec fn elements_match(a: Seq<WidgetElement>, b: Seq<WidgetElement>) -> bool {
    &&& a.len() == b.len()
    &&& forall|i: int|
        0 <= i < a.len() ==> (#[trigger] a[i]).to_draw@ == b[i].to_draw@ && a[i].color == b[i].color
}

/// An element-wise copy of a widget element list.
fn clone_elements(v: &Vec<WidgetElement>) -> (r: Vec<WidgetElement>)
    ensures
        r@.len() == v@.len(),
        forall|i: int| 0 <= i < v@.len() ==> (#[trigger] r@[i]).to_draw@ == v@[i].to_draw@
            && r@[i].color == v@[i].color,
{
    let mut r: Vec<WidgetElement> = Vec::new();
    let len = v.len();
    let mut i: usize = 0;
    while i < len
        invariant
            i <= len,
            len == v@.len(),
            r@.len() == i,
            forall|j: int| 0 <= j < i ==> (#[trigger] r@[j]).to_draw@ == v@[j].to_draw@
                && r@[j].color == v@[j].color,
        decreases len - i,
    {
        let element = WidgetElement { to_draw: v[i].to_draw.clone(), color: v[i].color };
        r.push(element);
        i = i + 1;
    }
    r
}

/// A widget under this name is registered.
pub fn contains(reg: &WidgetRegistry, widget_name: &String) -> (r: bool)
    ensures
        r == exists|k: int|
            0 <= k < reg.widgets@.len() && (#[trigger] reg.widgets@[k].name)@ == widget_name@,
{
    let count = reg.widgets.len();
    let mut k: usize = 0;
    while k < count
        invariant
            k <= count,
            count == reg.widgets@.len(),
            forall|j: int| 0 <= j < k ==> (#[trigger] reg.widgets@[j].name)@ != widget_name@,
        decreases count - k,
    {
        if reg.widgets[k].name == *widget_name {
            proof {
                assert(reg.widgets@[k as int].name@ == widget_name@);
            }
            return true;
        }
        k = k + 1;
    }
    false
}

/// Register a widget.
pub fn add(reg: &mut WidgetRegistry, widget: Widget)
    requires
        old(reg).wf(),
    ensures
        final(reg).wf(),
        final(reg).widgets@.len() == old(reg).widgets@.len() + 1,
        final(reg).data_names@ == old(reg).data_names@,
        final(reg).data@ == old(reg).data@,
{
    reg.widgets.push(widget);
}

/// Deregister the first widget under this name and hand it back; without
/// one, say so.
pub fn rm(reg: &mut WidgetRegistry, widget_name: &String) -> (r: Result<Widget, String>)
    requires
        old(reg).wf(),
    ensures
        final(reg).wf(),
        r is Ok ==> r->Ok_0.name@ == widget_name@ && exists|k: int|
            0 <= k < old(reg).widgets@.len() && (#[trigger] old(reg).widgets@[k].name)@
                == widget_name@ && final(reg).widgets@ == old(reg).widgets@.remove(k),
        r is Err ==> *final(reg) == *old(reg) && (forall|k: int|
            0 <= k < old(reg).widgets@.len() ==> (#[trigger] old(reg).widgets@[k].name)@
                != widget_name@),
{
    let count = reg.widgets.len();
    let mut k: usize = 0;
    while k < count
        invariant
            k <= count,
            old(reg).wf(),
            reg.wf(),
            *reg == *old(reg),
            count == reg.widgets@.len(),
            forall|j: int| 0 <= j < k ==> (#[trigger] reg.widgets@[j].name)@ != widget_name@,
        decreases count - k,
    {
        if reg.widgets[k].name == *widget_name {
            proof {
                assert(reg.widgets@[k as int].name@ == widget_name@);
            }
            let widget = reg.widgets.remove(k);
            return Ok(widget);
        }
        k = k + 1;
    }
    Err(String::from_str("no widget is registered under that name"))
}

/// Stash a freshly computed element list for the named widget, replacing
/// any pending one.
pub fn store_widget_data(reg: &mut WidgetRegistry, key: String, val: Vec<WidgetElement>)
    requires
        old(reg).wf(),
    ensures
        final(reg).wf(),
        final(reg).widgets@ == old(reg).widgets@,
        exists|k: int|
            0 <= k < final(reg).data_names@.len() && (#[trigger] final(reg).data_names@[k])@
                == key@,
{
    let count = reg.data_names.len();
    let mut k: usize = 0;
    while k < count
        invariant
            k <= count,
            old(reg).wf(),
            reg.wf(),
            count == reg.data_names@.len(),
            reg.widgets@ == old(reg).widgets@,
            reg.data_names@ == old(reg).data_names@,
        decreases count - k,
    {
        if reg.data_names[k] == key {
            reg.data.set(k, val);
            proof {
                assert(reg.data_names@[k as int]@ == key@);
            }
            return ;
        }
        k = k + 1;
    }
    let ghost names0 = reg.data_names@;
    reg.data_names.push(key);
    reg.data.push(val);
    proof {
        assert(reg.data_names@[names0.len() as int]@ == key@);
    }
}

/// Fold every pending element list into its widget: each widget whose name
/// has pending data takes that data as its elements; the rest keep theirs.
pub fn update_all(reg: &mut WidgetRegistry)
    requires
        old(reg).wf(),
    ensures
        final(reg).wf(),
        final(reg).widgets@.len() == old(reg).widgets@.len(),
        final(reg).data_names@ == old(reg).data_names@,
        final(reg).data@ == old(reg).data@,
        forall|k: int|
            0 <= k < final(reg).widgets@.len() ==> (#[trigger] final(reg).widgets@[k]).name@ == old(
                reg,
            ).widgets@[k].name@,
        // a widget with pending data takes it; the others keep their elements
        forall|k: int|
            0 <= k < final(reg).widgets@.len() && (exists|d: int|
                0 <= d < old(reg).data_names@.len() && (#[trigger] old(reg).data_names@[d])@ == old(
                    reg,
                ).widgets@[k].name@) ==> exists|d: int|
                0 <= d < old(reg).data_names@.len() && (#[trigger] old(reg).data_names@[d])@ == old(
                    reg,
                ).widgets@[k].name@ && elements_match(
                    (#[trigger] final(reg).widgets@[k]).elements@,
                    old(reg).data@[d]@,
                ),
        forall|k: int|
            0 <= k < final(reg).widgets@.len() && !(exists|d: int|
                0 <= d < old(reg).data_names@.len() && (#[trigger] old(reg).data_names@[d])@ == old(
                    reg,
                ).widgets@[k].name@) ==> (#[trigger] final(reg).widgets@[k]).elements@ == old(
                reg,
            ).widgets@[k].elements@,
{
    let wcount = reg.widgets.len();
    let mut k: usize = 0;
    while k < wcount
        invariant
            k <= wcount,
            old(reg).wf(),
            reg.wf(),
            wcount == reg.widgets@.len(),
            wcount == old(reg).widgets@.len(),
            reg.data_names@ == old(reg).data_names@,
            reg.data@ == old(reg).data@,
            forall|j: int|
                0 <= j < wcount ==> (#[trigger] reg.widgets@[j]).name@ == old(
                    reg,
                ).widgets@[j].name@,
            forall|j: int|
                0 <= j < k && (exists|d: int|
                    0 <= d < old(reg).data_names@.len() && (#[trigger] old(reg).data_names@[d])@
                        == old(reg).widgets@[j].name@) ==> exists|d: int|
                    0 <= d < old(reg).data_names@.len() && (#[trigger] old(reg).data_names@[d])@
                        == old(reg).widgets@[j].name@ && elements_match(
                        (#[trigger] reg.widgets@[j]).elements@,
                        old(reg).data@[d]@,
                    ),
            forall|j: int|
                0 <= j < wcount && (j >= k || !(exists|d: int|
                    0 <= d < old(reg).data_names@.len() && (#[trigger] old(reg).data_names@[d])@
                        == old(reg).widgets@[j].name@)) ==> (
                #[trigger] reg.widgets@[j]).elements@ == old(reg).widgets@[j].elements@,
        decreases wcount - k,
    {
        // look for pending data under this widget's name
        let dcount = reg.data_names.len();
        let mut d: usize = 0;
        let mut found: Option<usize> = None;
        while d < dcount
            invariant
                d <= dcount,
                k < wcount,
                wcount == reg.widgets@.len(),
                dcount == reg.data_names@.len(),
                reg.wf(),
                match found {
                    Some(f) => f < dcount && reg.data_names@[f as int]@
                        == reg.widgets@[k as int].name@,
                    None => forall|j: int|
                        0 <= j < d ==> (#[trigger] reg.data_names@[j])@
                            != reg.widgets@[k as int].name@,
                },
            decreases dcount - d,
        {
            if reg.data_names[d] == reg.widgets[k].name {
                proof {
                    assert(reg.data_names@[d as int]@ == reg.widgets@[k as int].name@);
                }
                found = Some(d);
            }
            d = d + 1;
        }
        if let Some(f) = found {
            let fresh = clone_elements(&reg.data[f]);
            proof {
                assert(elements_match(fresh@, reg.data@[f as int]@));
            }
            let mut widget = reg.widgets.remove(k);
            widget.elements = fresh;
            reg.widgets.insert(k, widget);
            proof {
                assert(elements_match(
                    reg.widgets@[k as int].elements@,
                    old(reg).data@[f as int]@,
                ));
                assert(reg.widgets@[k as int].name@ == old(reg).widgets@[k as int].name@);
            }
        }
        k = k + 1;
    }
}

} // verus!
