use vstd::prelude::*;
use crate::material::Material;

verus! {

/// The backend can realize any shape in any material: `realize` accepts every input.
pub open spec fn realizes_all<S, D, F: Fn(&S, &Material) -> D>(realize: F) -> bool {
    forall|s: &S, m: &Material| #[trigger] realize.requires((s, m))
}

/// The backend can push any material into any drawable: `push` accepts every input.
pub open spec fn pushes_all<D, F: Fn(D, &Material) -> D>(push: F) -> bool {
    forall|d: D, m: &Material| #[trigger] push.requires((d, m))
}

/// A shape together with the drawable that the backend made of it, once it
/// has been initialized. The drawable is kept with the material it shows.
pub struct Body<S, D> {
    shape: S,
    model: Option<(D, Material)>,
}

pub struct BodyView<S, D> {
    pub shape: S,
    pub model: Option<(D, Material)>,
}

impl<S, D> View for Body<S, D> {
    type V = BodyView<S, D>;

    closed spec fn view(&self) -> BodyView<S, D> {
        BodyView { shape: self.shape, model: self.model }
    }
}

impl<S, D> BodyView<S, D> {
    pub open spec fn is_init(&self) -> bool {
        self.model is Some
    }

    pub open spec fn object(&self) -> D {
        (self.model->0).0
    }

    pub open spec fn shown(&self) -> Material {
        (self.model->0).1
    }
}

impl<S, D> Body<S, D> {
    /// A body that is not initialized yet.
    pub fn new(shape: S) -> (r: Self)
        ensures
            r@.shape == shape,
            r@.model is None,
    {
        Body { shape, model: None }
    }

    pub fn shape(&self) -> (r: &S)
        ensures
            *r == self@.shape,
    {
        &self.shape
    }

    pub fn is_init(&self) -> (r: bool)
        ensures
            r == self@.is_init(),
    {
        self.model.is_some()
    }

    /// The drawable; the body must have been initialized.
    pub fn object(&self) -> (r: &D)
        requires
            self@.is_init(),
        ensures
            *r == self@.object(),
    {
        &self.model.as_ref().unwrap().0
    }

    /// The material the drawable shows; the body must have been initialized.
    pub fn shown(&self) -> (r: &Material)
        requires
            self@.is_init(),
        ensures
            *r == self@.shown(),
    {
        &self.model.as_ref().unwrap().1
    }

    /// Has the backend realize the shape in `material`; a drawable made
    /// earlier is replaced.
    pub fn init<F: Fn(&S, &Material) -> D>(&mut self, material: &Material, realize: &F)
        requires
            realizes_all(*realize),
        ensures
            final(self)@.shape == old(self)@.shape,
            final(self)@.is_init(),
            final(self)@.shown() == *material,
            realize.ensures((&old(self)@.shape, material), final(self)@.object()),
    {
        let object = realize(&self.shape, material);
        self.model = Some((object, material.clone()));
    }

    /// Pushes `material` into the drawable. Before `init` there is nothing
    /// to update: the body stays as it is and the result is `false`.
    pub fn update<F: Fn(D, &Material) -> D>(&mut self, material: &Material, push: &F) -> (r: bool)
        requires
            pushes_all(*push),
        ensures
            r == old(self)@.is_init(),
            final(self)@.shape == old(self)@.shape,
            !r ==> final(self)@ == old(self)@,
            r ==> final(self)@.is_init() && final(self)@.shown() == *material
                && push.ensures((old(self)@.object(), material), final(self)@.object()),
    {
        match self.model.take() {
            Some((object, _)) => {
                let object = push(object, material);
                self.model = Some((object, material.clone()));
                true
            },
            None => false,
        }
    }
}

} // verus!
