use vstd::prelude::*;
use crate::assembly::{Assy, AssyView, shapes_of};
use crate::component::{realizes_all, pushes_all};
use crate::controls::{Binding, Change, Control, ControlView, panel};
use crate::material::Material;
use crate::part::{Part, PartView};

verus! {

/// A product: standalone parts and assemblies, under a name.
pub struct Product<S, D> {
    name: String,
    parts: Vec<Part<S, D>>,
    assys: Vec<Assy<S, D>>,
}

pub struct ProductView<S, D> {
    pub name: Seq<char>,
    pub parts: Seq<Part<S, D>>,
    pub assys: Seq<Assy<S, D>>,
}

impl<S, D> View for Product<S, D> {
    type V = ProductView<S, D>;

    closed spec fn view(&self) -> ProductView<S, D> {
        ProductView { name: self.name@, parts: self.parts@, assys: self.assys@ }
    }
}

/// The drawables of the standalone parts that are in, in order.
pub open spec fn part_objects<S, D>(parts: Seq<Part<S, D>>) -> Seq<D>
    decreases parts.len(),
{
    if parts.len() == 0 {
        Seq::empty()
    } else {
        let rest = part_objects(parts.drop_last());
        if parts.last()@.opt_in {
            rest.push(parts.last()@.body.object())
        } else {
            rest
        }
    }
}

/// The drawables shown by each assembly, one assembly after the other.
pub open spec fn assy_objects<S, D>(assys: Seq<Assy<S, D>>) -> Seq<D>
    decreases assys.len(),
{
    if assys.len() == 0 {
        Seq::empty()
    } else {
        assy_objects(assys.drop_last()) + assys.last()@.objects()
    }
}

/// The shape of each standalone part.
pub open spec fn part_shapes<S, D>(parts: Seq<Part<S, D>>) -> Seq<S> {
    parts.map_values(|p: Part<S, D>| p@.body.shape)
}

/// The shapes of each assembly, one assembly after the other.
pub open spec fn assy_shapes<S, D>(assys: Seq<Assy<S, D>>) -> Seq<S>
    decreases assys.len(),
{
    if assys.len() == 0 {
        Seq::empty()
    } else {
        assy_shapes(assys.drop_last()) + shapes_of(assys.last()@.parts)
    }
}

/// A gap and the controls of each standalone part, part `i` bound as `i`.
pub open spec fn part_panels<S, D>(parts: Seq<Part<S, D>>) -> Seq<ControlView>
    decreases parts.len(),
{
    if parts.len() == 0 {
        Seq::empty()
    } else {
        part_panels(parts.drop_last()) + seq![ControlView::Space] + parts.last()@.panel(
            (parts.len() - 1) as usize,
        )
    }
}

/// The controls of each assembly, assembly `a` bound as `a`.
pub open spec fn assy_panels<S, D>(assys: Seq<Assy<S, D>>) -> Seq<ControlView>
    decreases assys.len(),
{
    if assys.len() == 0 {
        Seq::empty()
    } else {
        assy_panels(assys.drop_last()) + assys.last()@.panel((assys.len() - 1) as usize)
    }
}

impl<S, D> ProductView<S, D> {
    /// At least one part or assembly, each well formed.
    pub open spec fn wf(&self) -> bool {
        &&& self.parts.len() + self.assys.len() > 0
        &&& forall|i: int| 0 <= i < self.parts.len() ==> #[trigger] self.parts[i].wf()
        &&& forall|a: int| 0 <= a < self.assys.len() ==> #[trigger] self.assys[a].wf()
    }

    pub open spec fn all_init(&self) -> bool {
        &&& forall|i: int| 0 <= i < self.parts.len() ==> #[trigger] self.parts[i]@.body.is_init()
        &&& forall|a: int| 0 <= a < self.assys.len() ==> #[trigger] self.assys[a]@.all_init()
    }

    /// What is drawn: the assemblies' drawables, then those of the standalone parts that are in.
    pub open spec fn objects(&self) -> Seq<D> {
        assy_objects(self.assys) + part_objects(self.parts)
    }

    /// Every shape, shown or not: the standalone parts', then the assemblies'.
    pub open spec fn shapes(&self) -> Seq<S> {
        part_shapes(self.parts) + assy_shapes(self.assys)
    }

    /// `after` keeps this product's name and assemblies, and its standalone
    /// parts but part `p`.
    pub open spec fn part_changed(&self, after: ProductView<S, D>, p: int) -> bool {
        &&& after.name == self.name
        &&& after.assys == self.assys
        &&& after.parts.len() == self.parts.len()
        &&& forall|q: int| 0 <= q < self.parts.len() && q != p ==> #[trigger] after.parts[q] == self.parts[q]
    }

    /// `after` keeps this product's name and standalone parts, and its
    /// assemblies but assembly `a`.
    pub open spec fn assy_changed(&self, after: ProductView<S, D>, a: int) -> bool {
        &&& after.name == self.name
        &&& after.parts == self.parts
        &&& after.assys.len() == self.assys.len()
        &&& forall|b: int| 0 <= b < self.assys.len() && b != a ==> #[trigger] after.assys[b] == self.assys[b]
    }

    /// `change` names a flag or an option that the product has; a checkbox
    /// of a part that is always in does not count.
    pub open spec fn accepts(&self, change: Change) -> bool {
        match change {
            Change::Check { binding: Binding::PartToggle(p), .. } => p < self.parts.len()
                && self.parts[p as int]@.optional,
            Change::Pick { binding: Binding::PartMaterial(p), option } => p < self.parts.len()
                && option < self.parts[p as int]@.material@.options.len(),
            Change::Check { binding: Binding::AssyToggle(a, t), .. } => a < self.assys.len()
                && t < self.assys[a as int]@.toggles.len(),
            Change::Pick { binding: Binding::AssyMaterial(a, g), option } => a < self.assys.len()
                && g < self.assys[a as int]@.groups.len()
                && option < self.assys[a as int]@.groups[g as int]@.options.len(),
            _ => false,
        }
    }

    /// `after` is this product with `change` made.
    pub open spec fn applied(&self, after: ProductView<S, D>, change: Change) -> bool {
        match change {
            Change::Check { binding: Binding::PartToggle(p), on } => self.part_changed(after, p as int)
                && after.parts[p as int]@ == (PartView { opt_in: on, ..self.parts[p as int]@ }),
            Change::Pick { binding: Binding::PartMaterial(p), option } => self.part_changed(after, p as int)
                && self.parts[p as int]@.picked(after.parts[p as int]@, option),
            Change::Check { binding: Binding::AssyToggle(a, t), on } => self.assy_changed(after, a as int)
                && after.assys[a as int]@ == (AssyView {
                    toggles: self.assys[a as int]@.toggles.update(t as int, on),
                    ..self.assys[a as int]@
                }),
            Change::Pick { binding: Binding::AssyMaterial(a, g), option } => self.assy_changed(after, a as int)
                && self.assys[a as int]@.picked(after.assys[a as int]@, g, option),
            _ => false,
        }
    }

    /// The control panel: the name as a heading, the standalone parts, then the assemblies.
    pub open spec fn panel(&self) -> Seq<ControlView> {
        seq![ControlView::Heading(self.name)] + part_panels(self.parts) + assy_panels(self.assys)
    }
}

impl<S, D> Product<S, D> {
    pub open spec fn wf(&self) -> bool {
        self@.wf()
    }

    /// A product of `parts` and `assys`, of which there must be at least one.
    pub fn new(name: String, parts: Vec<Part<S, D>>, assys: Vec<Assy<S, D>>) -> (r: Self)
        requires
            parts@.len() + assys@.len() > 0,
            forall|i: int| 0 <= i < parts@.len() ==> #[trigger] parts@[i].wf(),
            forall|a: int| 0 <= a < assys@.len() ==> #[trigger] assys@[a].wf(),
        ensures
            r@.name == name@,
            r@.parts == parts@,
            r@.assys == assys@,
            r.wf(),
    {
        Product { name, parts, assys }
    }

    pub fn name(&self) -> (r: &str)
        ensures
            r@ == self@.name,
    {
        self.name.as_str()
    }

    pub fn parts(&self) -> (r: &[Part<S, D>])
        ensures
            r@ == self@.parts,
    {
        self.parts.as_slice()
    }

    pub fn assys(&self) -> (r: &[Assy<S, D>])
        ensures
            r@ == self@.assys,
    {
        self.assys.as_slice()
    }

    /// Has the backend realize every standalone part and every part of every assembly.
    pub fn init<F: Fn(&S, &Material) -> D>(&mut self, realize: &F)
        requires
            old(self).wf(),
            realizes_all(*realize),
        ensures
            final(self).wf(),
            final(self)@.all_init(),
            final(self)@.name == old(self)@.name,
            final(self)@.parts.len() == old(self)@.parts.len(),
            final(self)@.assys.len() == old(self)@.assys.len(),
            forall|i: int| 0 <= i < old(self)@.parts.len() ==> old(self)@.parts[i]@.inited(
                #[trigger] final(self)@.parts[i]@,
                *realize,
            ),
            forall|a: int| 0 <= a < old(self)@.assys.len() ==> old(self)@.assys[a]@.inited(
                #[trigger] final(self)@.assys[a]@,
                *realize,
            ),
    {
        let mut i: usize = 0;
        while i < self.parts.len()
            invariant
                i <= self@.parts.len(),
                realizes_all(*realize),
                old(self).wf(),
                self@.name == old(self)@.name,
                self@.assys == old(self)@.assys,
                self@.parts.len() == old(self)@.parts.len(),
                forall|j: int| i <= j < self@.parts.len() ==> #[trigger] self@.parts[j] == old(self)@.parts[j],
                forall|j: int| 0 <= j < i ==> (#[trigger] self@.parts[j]).wf() && old(self)@.parts[j]@.inited(
                    self@.parts[j]@,
                    *realize,
                ),
            decreases self@.parts.len() - i,
        {
            assert(self@.parts[i as int] == old(self)@.parts[i as int]);
            assert(old(self)@.parts[i as int].wf());
            self.parts[i].init(realize);
            i = i + 1;
        }
        let mut a: usize = 0;
        while a < self.assys.len()
            invariant
                a <= self@.assys.len(),
                realizes_all(*realize),
                old(self).wf(),
                self@.name == old(self)@.name,
                self@.parts.len() == old(self)@.parts.len(),
                forall|j: int| 0 <= j < self@.parts.len() ==> (#[trigger] self@.parts[j]).wf() && old(self)@.parts[j]@.inited(
                    self@.parts[j]@,
                    *realize,
                ),
                self@.assys.len() == old(self)@.assys.len(),
                forall|b: int| a <= b < self@.assys.len() ==> #[trigger] self@.assys[b] == old(self)@.assys[b],
                forall|b: int| 0 <= b < a ==> (#[trigger] self@.assys[b]).wf() && old(self)@.assys[b]@.inited(
                    self@.assys[b]@,
                    *realize,
                ),
            decreases self@.assys.len() - a,
        {
            assert(self@.assys[a as int] == old(self)@.assys[a as int]);
            assert(old(self)@.assys[a as int].wf());
            self.assys[a].init(realize);
            a = a + 1;
        }
    }

    /// Pushes the selected materials into the drawables of every standalone
    /// part and every assembly; a part not initialized yet stays as it is.
    pub fn update<F: Fn(D, &Material) -> D>(&mut self, push: &F)
        requires
            old(self).wf(),
            pushes_all(*push),
        ensures
            final(self).wf(),
            final(self)@.name == old(self)@.name,
            final(self)@.parts.len() == old(self)@.parts.len(),
            final(self)@.assys.len() == old(self)@.assys.len(),
            forall|i: int| 0 <= i < old(self)@.parts.len() ==> old(self)@.parts[i]@.updated(
                #[trigger] final(self)@.parts[i]@,
                *push,
            ),
            forall|a: int| 0 <= a < old(self)@.assys.len() ==> old(self)@.assys[a]@.updated(
                #[trigger] final(self)@.assys[a]@,
                *push,
            ),
    {
        let mut i: usize = 0;
        while i < self.parts.len()
            invariant
                i <= self@.parts.len(),
                pushes_all(*push),
                old(self).wf(),
                self@.name == old(self)@.name,
                self@.assys == old(self)@.assys,
                self@.parts.len() == old(self)@.parts.len(),
                forall|j: int| i <= j < self@.parts.len() ==> #[trigger] self@.parts[j] == old(self)@.parts[j],
                forall|j: int| 0 <= j < i ==> (#[trigger] self@.parts[j]).wf() && old(self)@.parts[j]@.updated(
                    self@.parts[j]@,
                    *push,
                ),
            decreases self@.parts.len() - i,
        {
            assert(self@.parts[i as int] == old(self)@.parts[i as int]);
            assert(old(self)@.parts[i as int].wf());
            self.parts[i].update(push);
            i = i + 1;
        }
        let mut a: usize = 0;
        while a < self.assys.len()
            invariant
                a <= self@.assys.len(),
                pushes_all(*push),
                old(self).wf(),
                self@.name == old(self)@.name,
                self@.parts.len() == old(self)@.parts.len(),
                forall|j: int| 0 <= j < self@.parts.len() ==> (#[trigger] self@.parts[j]).wf() && old(self)@.parts[j]@.updated(
                    self@.parts[j]@,
                    *push,
                ),
                self@.assys.len() == old(self)@.assys.len(),
                forall|b: int| a <= b < self@.assys.len() ==> #[trigger] self@.assys[b] == old(self)@.assys[b],
                forall|b: int| 0 <= b < a ==> (#[trigger] self@.assys[b]).wf() && old(self)@.assys[b]@.updated(
                    self@.assys[b]@,
                    *push,
                ),
            decreases self@.assys.len() - a,
        {
            assert(self@.assys[a as int] == old(self)@.assys[a as int]);
            assert(old(self)@.assys[a as int].wf());
            self.assys[a].update(push);
            a = a + 1;
        }
    }

    /// What is drawn: the drawables shown by each assembly, then those of the
    /// standalone parts that are in. Everything must have been initialized.
    pub fn objects(&self) -> (r: Vec<&D>)
        requires
            self.wf(),
            self@.all_init(),
        ensures
            r@.map_values(|o: &D| *o) == self@.objects(),
    {
        let mut r: Vec<&D> = Vec::new();
        let mut a: usize = 0;
        while a < self.assys.len()
            invariant
                a <= self@.assys.len(),
                self.wf(),
                self@.all_init(),
                r@.map_values(|o: &D| *o) == assy_objects(self@.assys.take(a as int)),
            decreases self@.assys.len() - a,
        {
            assert(self@.assys.take(a + 1).drop_last() =~= self@.assys.take(a as int));
            assert(self@.assys.take(a + 1).last() == self@.assys[a as int]);
            assert(self@.assys[a as int].wf() && self@.assys[a as int]@.all_init());
            let ghost before = r@;
            let mut objs = self.assys[a].objects();
            let ghost added = objs@;
            r.append(&mut objs);
            assert(r@.map_values(|o: &D| *o) =~= before.map_values(|o: &D| *o) + added.map_values(|o: &D| *o));
            a = a + 1;
        }
        assert(self@.assys.take(self@.assys.len() as int) =~= self@.assys);
        let mut i: usize = 0;
        while i < self.parts.len()
            invariant
                i <= self@.parts.len(),
                self.wf(),
                self@.all_init(),
                r@.map_values(|o: &D| *o) == assy_objects(self@.assys) + part_objects(self@.parts.take(i as int)),
            decreases self@.parts.len() - i,
        {
            assert(self@.parts.take(i + 1).drop_last() =~= self@.parts.take(i as int));
            assert(self@.parts.take(i + 1).last() == self@.parts[i as int]);
            assert(self@.parts[i as int]@.body.is_init());
            let ghost before = r@;
            match self.parts[i].object() {
                Some(o) => {
                    r.push(o);
                    assert(r@.map_values(|o: &D| *o) =~= before.map_values(|o: &D| *o).push(*o));
                },
                None => {},
            }
            i = i + 1;
        }
        assert(self@.parts.take(self@.parts.len() as int) =~= self@.parts);
        r
    }

    /// Every shape, shown or not, of which the bounding volume is made: the
    /// standalone parts', then the assemblies'.
    pub fn shapes(&self) -> (r: Vec<&S>)
        ensures
            r@.map_values(|s: &S| *s) == self@.shapes(),
    {
        let mut r: Vec<&S> = Vec::new();
        let mut i: usize = 0;
        while i < self.parts.len()
            invariant
                i <= self@.parts.len(),
                r@.map_values(|s: &S| *s) == part_shapes(self@.parts.take(i as int)),
            decreases self@.parts.len() - i,
        {
            let ghost before = r@;
            r.push(self.parts[i].shape());
            assert(part_shapes(self@.parts.take(i + 1)) =~= part_shapes(self@.parts.take(i as int)).push(
                self@.parts[i as int]@.body.shape,
            ));
            assert(r@.map_values(|s: &S| *s) =~= before.map_values(|s: &S| *s).push(self@.parts[i as int]@.body.shape));
            i = i + 1;
        }
        assert(self@.parts.take(self@.parts.len() as int) =~= self@.parts);
        let mut a: usize = 0;
        while a < self.assys.len()
            invariant
                a <= self@.assys.len(),
                r@.map_values(|s: &S| *s) == part_shapes(self@.parts) + assy_shapes(self@.assys.take(a as int)),
            decreases self@.assys.len() - a,
        {
            assert(self@.assys.take(a + 1).drop_last() =~= self@.assys.take(a as int));
            assert(self@.assys.take(a + 1).last() == self@.assys[a as int]);
            let ghost before = r@;
            let mut shapes = self.assys[a].shapes();
            let ghost added = shapes@;
            r.append(&mut shapes);
            assert(r@.map_values(|s: &S| *s) =~= before.map_values(|s: &S| *s) + added.map_values(|s: &S| *s));
            a = a + 1;
        }
        assert(self@.assys.take(self@.assys.len() as int) =~= self@.assys);
        r
    }

    /// The control panel: the name as a heading, then, after a gap each,
    /// the controls of the standalone parts, then those of the assemblies.
    pub fn controls(&self) -> (r: Vec<Control>)
        requires
            self.wf(),
        ensures
            panel(r@) == self@.panel(),
    {
        let mut r: Vec<Control> = vec![Control::Heading(self.name.clone())];
        let mut i: usize = 0;
        while i < self.parts.len()
            invariant
                i <= self@.parts.len(),
                self.wf(),
                panel(r@) == seq![ControlView::Heading(self@.name)] + part_panels(self@.parts.take(i as int)),
            decreases self@.parts.len() - i,
        {
            assert(self@.parts.take(i + 1).drop_last() =~= self@.parts.take(i as int));
            assert(self@.parts.take(i + 1).last() == self@.parts[i as int]);
            assert(self@.parts[i as int].wf());
            let ghost before = r@;
            r.push(Control::Space);
            let mut c = self.parts[i].controls(i);
            let ghost added = c@;
            r.append(&mut c);
            assert(panel(r@) =~= panel(before) + seq![ControlView::Space] + panel(added));
            i = i + 1;
        }
        assert(self@.parts.take(self@.parts.len() as int) =~= self@.parts);
        let mut a: usize = 0;
        while a < self.assys.len()
            invariant
                a <= self@.assys.len(),
                self.wf(),
                panel(r@) == seq![ControlView::Heading(self@.name)] + part_panels(self@.parts) + assy_panels(
                    self@.assys.take(a as int),
                ),
            decreases self@.assys.len() - a,
        {
            assert(self@.assys.take(a + 1).drop_last() =~= self@.assys.take(a as int));
            assert(self@.assys.take(a + 1).last() == self@.assys[a as int]);
            assert(self@.assys[a as int].wf());
            let ghost before = r@;
            let mut c = self.assys[a].controls(a);
            let ghost added = c@;
            r.append(&mut c);
            assert(panel(r@) =~= panel(before) + panel(added));
            a = a + 1;
        }
        assert(self@.assys.take(self@.assys.len() as int) =~= self@.assys);
        r
    }

    /// Makes a user's change. A change that names no flag or option of the
    /// product, or the checkbox of a part that is always in, is refused:
    /// the result is `false` and nothing changes.
    pub fn apply(&mut self, change: Change) -> (r: bool)
        requires
            old(self).wf(),
        ensures
            r == old(self)@.accepts(change),
            final(self).wf(),
            r ==> old(self)@.applied(final(self)@, change),
            !r ==> final(self)@ == old(self)@,
    {
        let ghost before = self@;
        let r = match change {
            Change::Check { binding: Binding::PartToggle(p), on } => {
                if p < self.parts.len() {
                    assert(self@.parts[p as int].wf());
                    self.parts[p].set_opt_in(on)
                } else {
                    false
                }
            },
            Change::Pick { binding: Binding::PartMaterial(p), option } => {
                if p < self.parts.len() {
                    assert(self@.parts[p as int].wf());
                    self.parts[p].select(option)
                } else {
                    false
                }
            },
            Change::Check { binding: Binding::AssyToggle(a, t), on } => {
                if a < self.assys.len() {
                    assert(self@.assys[a as int].wf());
                    self.assys[a].set_toggle(t, on)
                } else {
                    false
                }
            },
            Change::Pick { binding: Binding::AssyMaterial(a, g), option } => {
                if a < self.assys.len() {
                    assert(self@.assys[a as int].wf());
                    self.assys[a].select(g, option)
                } else {
                    false
                }
            },
            _ => false,
        };
        proof {
            if !r {
                assert(self@.parts =~= before.parts);
                assert(self@.assys =~= before.assys);
            }
        }
        r
    }
}

/// Reading the drawables twice with no change in between gives the same
/// ones, in the same order: those of the assemblies, then those of the
/// standalone parts.
pub proof fn lemma_objects_stable<S, D>(p: ProductView<S, D>, q: ProductView<S, D>)
    requires
        q.parts == p.parts,
        q.assys == p.assys,
    ensures
        q.objects() == p.objects(),
        p.objects().take(assy_objects(p.assys).len() as int) == assy_objects(p.assys),
        p.objects().skip(assy_objects(p.assys).len() as int) == part_objects(p.parts),
{
    assert(p.objects().take(assy_objects(p.assys).len() as int) =~= assy_objects(p.assys));
    assert(p.objects().skip(assy_objects(p.assys).len() as int) =~= part_objects(p.parts));
}

} // verus!
