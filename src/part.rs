use vstd::prelude::*;
use crate::component::{Body, BodyView, realizes_all, pushes_all};
use crate::controls::{Binding, Control, ControlView, panel};
use crate::material::{Material, MaterialCollection, MaterialCollectionView, names};

verus! {

/// A part that stands on its own in a product: it has its own material
/// group and, when optional, its own opt-in flag.
pub struct Part<S, D> {
    name: String,
    body: Body<S, D>,
    material: MaterialCollection,
    optional: bool,
    opt_in: bool,
}

pub struct PartView<S, D> {
    pub name: Seq<char>,
    pub body: BodyView<S, D>,
    pub material: MaterialCollection,
    pub optional: bool,
    pub opt_in: bool,
}

impl<S, D> View for Part<S, D> {
    type V = PartView<S, D>;

    closed spec fn view(&self) -> PartView<S, D> {
        PartView {
            name: self.name@,
            body: self.body@,
            material: self.material,
            optional: self.optional,
            opt_in: self.opt_in,
        }
    }
}

impl<S, D> PartView<S, D> {
    /// The group is well formed, and a part that is not optional is in.
    pub open spec fn wf(&self) -> bool {
        &&& self.material.wf()
        &&& !self.optional ==> self.opt_in
    }

    /// `after` is this part with its body realized by `realize` in the
    /// selected material.
    pub open spec fn inited<F: Fn(&S, &Material) -> D>(&self, after: PartView<S, D>, realize: F) -> bool {
        &&& after.name == self.name
        &&& after.material == self.material
        &&& after.optional == self.optional
        &&& after.opt_in == self.opt_in
        &&& after.body.shape == self.body.shape
        &&& after.body.is_init()
        &&& after.body.shown() == self.material@.current()
        &&& realize.ensures((&self.body.shape, &self.material@.current()), after.body.object())
    }

    /// `after` is this part with the selected material pushed by `push`
    /// into its drawable, if it has one.
    pub open spec fn updated<F: Fn(D, &Material) -> D>(&self, after: PartView<S, D>, push: F) -> bool {
        &&& after.name == self.name
        &&& after.material == self.material
        &&& after.optional == self.optional
        &&& after.opt_in == self.opt_in
        &&& after.body.shape == self.body.shape
        &&& !self.body.is_init() ==> after.body == self.body
        &&& self.body.is_init() ==> after.body.is_init() && after.body.shown() == self.material@.current()
            && push.ensures((self.body.object(), &self.material@.current()), after.body.object())
    }

    /// `after` is this part with option `option` of its group selected.
    pub open spec fn picked(&self, after: PartView<S, D>, option: usize) -> bool {
        &&& after.name == self.name
        &&& after.body == self.body
        &&& after.optional == self.optional
        &&& after.opt_in == self.opt_in
        &&& after.material@ == (MaterialCollectionView { selected: option as int, ..self.material@ })
    }

    /// The picker of the group, framed; it reacts only when `enabled`.
    pub open spec fn picker(&self, at: usize, enabled: bool) -> ControlView {
        ControlView::Picker {
            options: names(self.material@.options),
            selected: self.material@.selected,
            framed: true,
            enabled,
            binding: Binding::PartMaterial(at),
        }
    }

    /// The checkbox of the opt-in flag, labelled with the part's name.
    pub open spec fn checkbox(&self, at: usize) -> ControlView {
        ControlView::Checkbox { text: self.name, checked: self.opt_in, binding: Binding::PartToggle(at) }
    }

    /// The part's controls, bound as part `at` of a product. A part that is
    /// neither optional nor has a choice of material has none; an optional
    /// one has its checkbox, and its picker reacts only while it is in.
    pub open spec fn panel(&self, at: usize) -> Seq<ControlView> {
        let choice = self.material@.options.len() > 1;
        if self.optional {
            if choice {
                seq![self.checkbox(at), self.picker(at, self.opt_in)]
            } else {
                seq![self.checkbox(at)]
            }
        } else {
            if choice {
                seq![ControlView::Label(self.name), self.picker(at, true)]
            } else {
                Seq::empty()
            }
        }
    }
}

impl<S, D> Part<S, D> {
    pub open spec fn wf(&self) -> bool {
        self@.wf()
    }

    /// A part that is in, not initialized yet.
    pub fn new(name: String, shape: S, material: MaterialCollection, optional: bool) -> (r: Self)
        requires
            material.wf(),
        ensures
            r@.name == name@,
            r@.body.shape == shape,
            r@.body.model is None,
            r@.material == material,
            r@.optional == optional,
            r@.opt_in,
            r.wf(),
    {
        Part { name, body: Body::new(shape), material, optional, opt_in: true }
    }

    pub fn name(&self) -> (r: &str)
        ensures
            r@ == self@.name,
    {
        self.name.as_str()
    }

    /// The selected material.
    pub fn material(&self) -> (r: &Material)
        requires
            self.wf(),
        ensures
            *r == self@.material@.current(),
    {
        self.material.current()
    }

    pub fn group(&self) -> (r: &MaterialCollection)
        ensures
            *r == self@.material,
    {
        &self.material
    }

    pub fn shape(&self) -> (r: &S)
        ensures
            *r == self@.body.shape,
    {
        self.body.shape()
    }

    pub fn body(&self) -> (r: &Body<S, D>)
        ensures
            r@ == self@.body,
    {
        &self.body
    }

    pub fn is_optional(&self) -> (r: bool)
        ensures
            r == self@.optional,
    {
        self.optional
    }

    pub fn is_in(&self) -> (r: bool)
        ensures
            r == self@.opt_in,
    {
        self.opt_in
    }

    /// Has the backend realize the part in its selected material.
    pub fn init<F: Fn(&S, &Material) -> D>(&mut self, realize: &F)
        requires
            old(self).wf(),
            realizes_all(*realize),
        ensures
            final(self).wf(),
            old(self)@.inited(final(self)@, *realize),
    {
        let m = self.material.current();
        self.body.init(m, realize);
    }

    /// Pushes the selected material into the drawable; before `init` there
    /// is nothing to update, the part stays as it is and the result is `false`.
    pub fn update<F: Fn(D, &Material) -> D>(&mut self, push: &F) -> (r: bool)
        requires
            old(self).wf(),
            pushes_all(*push),
        ensures
            r == old(self)@.body.is_init(),
            final(self).wf(),
            old(self)@.updated(final(self)@, *push),
    {
        let m = self.material.current();
        self.body.update(m, push)
    }

    /// The drawable while the part is in, which must then be initialized.
    pub fn object(&self) -> (r: Option<&D>)
        requires
            self@.opt_in ==> self@.body.is_init(),
        ensures
            r is Some == self@.opt_in,
            r is Some ==> *(r->0) == self@.body.object(),
    {
        if self.opt_in {
            Some(self.body.object())
        } else {
            None
        }
    }

    /// Sets the opt-in flag of an optional part; `false`, and no change, for
    /// a part that is always in.
    pub fn set_opt_in(&mut self, on: bool) -> (r: bool)
        requires
            old(self).wf(),
        ensures
            r == old(self)@.optional,
            final(self).wf(),
            final(self)@ == (PartView { opt_in: if r { on } else { old(self)@.opt_in }, ..old(self)@ }),
            !r ==> *final(self) == *old(self),
    {
        if self.optional {
            self.opt_in = on;
            true
        } else {
            false
        }
    }

    /// Selects option `option` of the part's group; `false`, and no change,
    /// when there is no such option.
    pub fn select(&mut self, option: usize) -> (r: bool)
        requires
            old(self).wf(),
        ensures
            r == (option < old(self)@.material@.options.len()),
            final(self).wf(),
            r ==> old(self)@.picked(final(self)@, option),
            !r ==> *final(self) == *old(self),
    {
        if option < self.material.len() {
            self.material.select(option);
            true
        } else {
            false
        }
    }

    /// The checkbox of the opt-in flag, for part `at` of a product.
    fn show_toggle(&self, at: usize) -> (r: Control)
        ensures
            r@ == self@.checkbox(at),
    {
        Control::Checkbox { text: self.name.clone(), checked: self.opt_in, binding: Binding::PartToggle(at) }
    }

    /// The framed picker of the group, for part `at` of a product.
    fn material_group(&self, at: usize, enabled: bool) -> (r: Control)
        ensures
            r@ == self@.picker(at, enabled),
    {
        Control::Picker {
            options: self.material.option_names(),
            selected: self.material.selected(),
            framed: true,
            enabled,
            binding: Binding::PartMaterial(at),
        }
    }

    /// The part's controls, for part `at` of a product.
    pub fn controls(&self, at: usize) -> (r: Vec<Control>)
        requires
            self.wf(),
        ensures
            panel(r@) == self@.panel(at),
    {
        let choice = self.material.len() > 1;
        let r = if self.optional {
            if choice {
                vec![self.show_toggle(at), self.material_group(at, self.opt_in)]
            } else {
                vec![self.show_toggle(at)]
            }
        } else {
            if choice {
                vec![Control::Label(self.name.clone()), self.material_group(at, true)]
            } else {
                Vec::new()
            }
        };
        assert(panel(r@) =~= self@.panel(at));
        r
    }
}

} // verus!
