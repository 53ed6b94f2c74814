use vstd::prelude::*;
use crate::component::{Body, BodyView, realizes_all, pushes_all};
use crate::controls::{Binding, Control, ControlView, panel};
use crate::distinct::{distinct_by, has_key, keys_unique, lemma_distinct_by, lemma_distinct_by_len};
use crate::material::{Material, MaterialCollection, MaterialCollectionView, names};

verus! {

/// Whether a part belongs to the current configuration: always, or while a
/// toggle of its assembly is on. Several parts may name the same toggle, so
/// one checkbox shows or hides them together.
#[derive(Debug)]
pub enum Include {
    MustHave,
    /// `opt_in` is the index of the toggle among the assembly's toggles.
    Optional { label: String, opt_in: usize },
}

impl Include {
    /// What decides equality: the toggle, or none for a part that is always in.
    pub open spec fn key(self) -> Option<usize> {
        match self {
            Include::MustHave => None,
            Include::Optional { opt_in, .. } => Some(opt_in),
        }
    }

    /// The part is shown under the toggle values `toggles`.
    pub open spec fn shown_in(self, toggles: Seq<bool>) -> bool {
        match self {
            Include::MustHave => true,
            Include::Optional { opt_in, .. } => toggles[opt_in as int],
        }
    }

    /// The toggle, if any, is one of `toggles`.
    pub open spec fn valid_in(self, toggles: Seq<bool>) -> bool {
        match self {
            Include::MustHave => true,
            Include::Optional { opt_in, .. } => opt_in < toggles.len(),
        }
    }

    /// A new toggle labelled `name` and set to `value`, added to `toggles`,
    /// and the inclusion that follows it.
    pub fn optinal(name: String, value: bool, toggles: &mut Vec<bool>) -> (r: Self)
        ensures
            final(toggles)@ == old(toggles)@.push(value),
            r == (Include::Optional { label: name, opt_in: old(toggles)@.len() as usize }),
    {
        let opt_in = toggles.len();
        toggles.push(value);
        Include::Optional { label: name, opt_in }
    }

    /// The label and the toggle of an optional inclusion.
    pub fn get_toggle(&self) -> (r: Option<(&str, usize)>)
        ensures
            match *self {
                Include::MustHave => r is None,
                Include::Optional { label, opt_in } => r is Some && (r->0).0@ == label@
                    && (r->0).1 == opt_in,
            },
    {
        match self {
            Include::Optional { label, opt_in } => Some((label.as_str(), *opt_in)),
            Include::MustHave => None,
        }
    }

    /// Whether the part is shown under the toggle values `toggles`.
    pub fn is_show(&self, toggles: &[bool]) -> (r: bool)
        requires
            self.valid_in(toggles@),
        ensures
            r == self.shown_in(toggles@),
    {
        match self {
            Include::Optional { opt_in, .. } => toggles[*opt_in],
            Include::MustHave => true,
        }
    }

    pub fn key_of(&self) -> (r: Option<usize>)
        ensures
            r == self.key(),
    {
        match self {
            Include::Optional { opt_in, .. } => Some(*opt_in),
            Include::MustHave => None,
        }
    }
}

impl Clone for Include {
    fn clone(&self) -> (r: Self)
        ensures
            r == *self,
    {
        match self {
            Include::MustHave => Include::MustHave,
            Include::Optional { label, opt_in } => Include::Optional {
                label: label.clone(),
                opt_in: *opt_in,
            },
        }
    }
}

impl PartialEq for Include {
    /// Two inclusions are equal when they follow the same toggle, or when
    /// both always inclusion their part; labels do not count.
    fn eq(&self, other: &Include) -> (r: bool) {
        self.key_of() == other.key_of()
    }
}

impl vstd::std_specs::cmp::PartialEqSpecImpl for Include {
    open spec fn obeys_eq_spec() -> bool {
        true
    }

    open spec fn eq_spec(&self, other: &Include) -> bool {
        self.key() == other.key()
    }
}

impl Eq for Include {}

/// A member of an assembly: a named body, the index of its material group
/// among the assembly's groups, and its inclusion.
pub struct ConfigPart<S, D> {
    name: String,
    body: Body<S, D>,
    material: usize,
    inclusion: Include,
}

pub struct ConfigPartView<S, D> {
    pub name: Seq<char>,
    pub body: BodyView<S, D>,
    pub material: usize,
    pub inclusion: Include,
}

impl<S, D> View for ConfigPart<S, D> {
    type V = ConfigPartView<S, D>;

    closed spec fn view(&self) -> ConfigPartView<S, D> {
        ConfigPartView {
            name: self.name@,
            body: self.body@,
            material: self.material,
            inclusion: self.inclusion,
        }
    }
}

impl<S, D> ConfigPart<S, D> {
    pub fn new(name: String, component: Body<S, D>, material: usize, inclusion: Include) -> (r: Self)
        ensures
            r@.name == name@,
            r@.body == component@,
            r@.material == material,
            r@.inclusion == inclusion,
    {
        ConfigPart { name, body: component, material, inclusion }
    }

    pub fn name(&self) -> (r: &str)
        ensures
            r@ == self@.name,
    {
        self.name.as_str()
    }

    pub fn body(&self) -> (r: &Body<S, D>)
        ensures
            r@ == self@.body,
    {
        &self.body
    }

    pub fn material(&self) -> (r: usize)
        ensures
            r == self@.material,
    {
        self.material
    }

    pub fn inclusion(&self) -> (r: &Include)
        ensures
            *r == self@.inclusion,
    {
        &self.inclusion
    }
}

/// The group index of each part.
pub open spec fn part_groups<S, D>(parts: Seq<ConfigPart<S, D>>) -> Seq<usize> {
    parts.map_values(|p: ConfigPart<S, D>| p@.material)
}

/// The inclusion of each part.
pub open spec fn part_inclusions<S, D>(parts: Seq<ConfigPart<S, D>>) -> Seq<Include> {
    parts.map_values(|p: ConfigPart<S, D>| p@.inclusion)
}

/// Groups are told apart by their index.
pub open spec fn group_key() -> spec_fn(usize) -> usize {
    |g: usize| g
}

/// Inclusions are told apart by their toggle.
pub open spec fn inclusion_key() -> spec_fn(Include) -> Option<usize> {
    |i: Include| i.key()
}

/// The groups that the parts use, each once, in the order they first occur.
pub open spec fn distinct_groups<S, D>(parts: Seq<ConfigPart<S, D>>) -> Seq<usize> {
    distinct_by(part_groups(parts), group_key())
}

/// The inclusions of the parts, one for each toggle (and one for the parts
/// always in), in the order they first occur.
pub open spec fn distinct_inclusions<S, D>(parts: Seq<ConfigPart<S, D>>) -> Seq<Include> {
    distinct_by(part_inclusions(parts), inclusion_key())
}

fn has_group(groups: &Vec<usize>, g: usize) -> (r: bool)
    ensures
        r == has_key(groups@, group_key(), g),
{
    let mut i: usize = 0;
    while i < groups.len()
        invariant
            i <= groups@.len(),
            forall|j: int| 0 <= j < i ==> groups@[j] != g,
        decreases groups@.len() - i,
    {
        if groups[i] == g {
            assert(group_key()(groups@[i as int]) == g);
            return true;
        }
        i = i + 1;
    }
    false
}

fn has_inclusion(inclusions: &Vec<Include>, key: Option<usize>) -> (r: bool)
    ensures
        r == has_key(inclusions@, inclusion_key(), key),
{
    let mut i: usize = 0;
    while i < inclusions.len()
        invariant
            i <= inclusions@.len(),
            forall|j: int| 0 <= j < i ==> inclusions@[j].key() != key,
        decreases inclusions@.len() - i,
    {
        if inclusions[i].key_of() == key {
            assert(inclusion_key()(inclusions@[i as int]) == key);
            return true;
        }
        i = i + 1;
    }
    false
}

/// Parts that share material groups and toggles. Each group and each toggle
/// is listed once, in the order the parts first use it; that is also the
/// order of their controls.
pub struct Assy<S, D> {
    parts: Vec<ConfigPart<S, D>>,
    groups: Vec<MaterialCollection>,
    toggles: Vec<bool>,
    materials: Vec<usize>,
    inclusions: Vec<Include>,
}

pub struct AssyView<S, D> {
    pub parts: Seq<ConfigPart<S, D>>,
    pub groups: Seq<MaterialCollection>,
    pub toggles: Seq<bool>,
    pub materials: Seq<usize>,
    pub inclusions: Seq<Include>,
}

impl<S, D> View for Assy<S, D> {
    type V = AssyView<S, D>;

    closed spec fn view(&self) -> AssyView<S, D> {
        AssyView {
            parts: self.parts@,
            groups: self.groups@,
            toggles: self.toggles@,
            materials: self.materials@,
            inclusions: self.inclusions@,
        }
    }
}

/// Every part names one of `groups` and, if optional, one of `toggles`.
pub open spec fn parts_valid<S, D>(
    parts: Seq<ConfigPart<S, D>>,
    groups: Seq<MaterialCollection>,
    toggles: Seq<bool>,
) -> bool {
    &&& forall|i: int| 0 <= i < parts.len() ==> #[trigger] parts[i]@.material < groups.len()
    &&& forall|i: int| 0 <= i < parts.len() ==> #[trigger] parts[i]@.inclusion.valid_in(toggles)
}

/// Every group is well formed.
pub open spec fn groups_wf(groups: Seq<MaterialCollection>) -> bool {
    forall|g: int| 0 <= g < groups.len() ==> #[trigger] groups[g].wf()
}

impl<S, D> AssyView<S, D> {
    pub open spec fn wf(&self) -> bool {
        &&& self.parts.len() > 0
        &&& parts_valid(self.parts, self.groups, self.toggles)
        &&& groups_wf(self.groups)
        &&& self.materials == distinct_groups(self.parts)
        &&& self.inclusions == distinct_inclusions(self.parts)
    }

    /// Part `i` is shown under the current toggles.
    pub open spec fn shown(&self, i: int) -> bool {
        self.parts[i]@.inclusion.shown_in(self.toggles)
    }

    /// The material that part `i` is to show: the selection of its group.
    pub open spec fn material_of(&self, i: int) -> Material {
        self.groups[self.parts[i]@.material as int]@.current()
    }

    pub open spec fn all_init(&self) -> bool {
        forall|i: int| 0 <= i < self.parts.len() ==> #[trigger] self.parts[i]@.body.is_init()
    }
}

/// The shape of each part.
pub open spec fn shapes_of<S, D>(parts: Seq<ConfigPart<S, D>>) -> Seq<S> {
    parts.map_values(|p: ConfigPart<S, D>| p@.body.shape)
}

/// The drawables of the parts that are shown under `toggles`, in order.
pub open spec fn visible_objects<S, D>(parts: Seq<ConfigPart<S, D>>, toggles: Seq<bool>) -> Seq<D>
    decreases parts.len(),
{
    if parts.len() == 0 {
        Seq::empty()
    } else {
        let rest = visible_objects(parts.drop_last(), toggles);
        if parts.last()@.inclusion.shown_in(toggles) {
            rest.push(parts.last()@.body.object())
        } else {
            rest
        }
    }
}

/// The checkboxes for the optional inclusions among `inclusions`.
pub open spec fn toggle_controls(inclusions: Seq<Include>, toggles: Seq<bool>, at: usize) -> Seq<ControlView>
    decreases inclusions.len(),
{
    if inclusions.len() == 0 {
        Seq::empty()
    } else {
        let rest = toggle_controls(inclusions.drop_last(), toggles, at);
        match inclusions.last() {
            Include::MustHave => rest,
            Include::Optional { label, opt_in } => rest.push(
                ControlView::Checkbox {
                    text: label@,
                    checked: toggles[opt_in as int],
                    binding: Binding::AssyToggle(at, opt_in),
                },
            ),
        }
    }
}

/// A gap, the label and a picker for each group among `materials` that
/// offers more than one option; a group of one option gets no control.
pub open spec fn group_controls(materials: Seq<usize>, groups: Seq<MaterialCollection>, at: usize) -> Seq<ControlView>
    decreases materials.len(),
{
    if materials.len() == 0 {
        Seq::empty()
    } else {
        let rest = group_controls(materials.drop_last(), groups, at);
        let g = materials.last();
        let c = groups[g as int]@;
        if c.options.len() > 1 {
            rest + seq![
                ControlView::Space,
                ControlView::Label(c.label),
                ControlView::Picker {
                    options: names(c.options),
                    selected: c.selected,
                    framed: false,
                    enabled: true,
                    binding: Binding::AssyMaterial(at, g),
                },
            ]
        } else {
            rest
        }
    }
}

/// The same part, with a body on the same shape.
pub open spec fn same_but_body<S, D>(a: ConfigPart<S, D>, b: ConfigPart<S, D>) -> bool {
    &&& a@.name == b@.name
    &&& a@.material == b@.material
    &&& a@.inclusion == b@.inclusion
    &&& a@.body.shape == b@.body.shape
}

impl<S, D> AssyView<S, D> {
    /// The checkboxes, after a gap: one for each toggle, in order of first use.
    pub open spec fn configure_panel(&self, at: usize) -> Seq<ControlView> {
        seq![ControlView::Space] + toggle_controls(self.inclusions, self.toggles, at)
    }

    /// The pickers of the groups in use that offer a choice, in order of first use.
    pub open spec fn material_panel(&self, at: usize) -> Seq<ControlView> {
        group_controls(self.materials, self.groups, at)
    }

    /// The assembly's controls, bound as assembly `at` of a product: the
    /// checkboxes come before the pickers.
    pub open spec fn panel(&self, at: usize) -> Seq<ControlView> {
        self.configure_panel(at) + self.material_panel(at)
    }

    /// `after` is this assembly with every part realized by `realize` in the
    /// selection of its group.
    pub open spec fn inited<F: Fn(&S, &Material) -> D>(&self, after: AssyView<S, D>, realize: F) -> bool {
        &&& after.groups == self.groups
        &&& after.toggles == self.toggles
        &&& after.materials == self.materials
        &&& after.inclusions == self.inclusions
        &&& after.parts.len() == self.parts.len()
        &&& after.all_init()
        &&& forall|i: int| 0 <= i < self.parts.len() ==> {
            let p = #[trigger] after.parts[i]@;
            &&& same_but_body(after.parts[i], self.parts[i])
            &&& p.body.shown() == self.material_of(i)
            &&& realize.ensures((&self.parts[i]@.body.shape, &self.material_of(i)), p.body.object())
        }
    }

    /// `after` is this assembly with the selection of each part's group
    /// pushed by `push` into the part's drawable, if it has one.
    pub open spec fn updated<F: Fn(D, &Material) -> D>(&self, after: AssyView<S, D>, push: F) -> bool {
        &&& after.groups == self.groups
        &&& after.toggles == self.toggles
        &&& after.materials == self.materials
        &&& after.inclusions == self.inclusions
        &&& after.parts.len() == self.parts.len()
        &&& forall|i: int| 0 <= i < self.parts.len() ==> {
            let p = #[trigger] after.parts[i]@;
            let q = self.parts[i]@;
            &&& same_but_body(after.parts[i], self.parts[i])
            &&& p.body.is_init() == q.body.is_init()
            &&& !q.body.is_init() ==> p.body == q.body
            &&& q.body.is_init() ==> p.body.shown() == self.material_of(i)
                && push.ensures((q.body.object(), &self.material_of(i)), p.body.object())
        }
    }

    /// `after` is this assembly with option `option` of group `g` selected.
    pub open spec fn picked(&self, after: AssyView<S, D>, g: usize, option: usize) -> bool {
        &&& after.parts == self.parts
        &&& after.toggles == self.toggles
        &&& after.materials == self.materials
        &&& after.inclusions == self.inclusions
        &&& after.groups.len() == self.groups.len()
        &&& forall|h: int| 0 <= h < self.groups.len() && h != g ==> #[trigger] after.groups[h] == self.groups[h]
        &&& after.groups[g as int]@ == (MaterialCollectionView { selected: option as int, ..self.groups[g as int]@ })
    }

    pub open spec fn objects(&self) -> Seq<D> {
        visible_objects(self.parts, self.toggles)
    }

    /// The listed groups and toggles are among the assembly's.
    pub proof fn lemma_listed_valid(&self)
        requires
            self.wf(),
        ensures
            forall|k: int| 0 <= k < self.materials.len() ==> #[trigger] self.materials[k] < self.groups.len(),
            forall|k: int| 0 <= k < self.inclusions.len() ==> #[trigger] self.inclusions[k].valid_in(self.toggles),
    {
        lemma_distinct_by(part_groups(self.parts), group_key());
        lemma_distinct_by(part_inclusions(self.parts), inclusion_key());
        assert forall|k: int| 0 <= k < self.materials.len() implies #[trigger] self.materials[k] < self.groups.len() by {
            assert(part_groups(self.parts).contains(self.materials[k]));
            let j = choose|j: int| 0 <= j < part_groups(self.parts).len() && part_groups(self.parts)[j] == self.materials[k];
            assert(self.parts[j]@.material < self.groups.len());
        }
        assert forall|k: int| 0 <= k < self.inclusions.len() implies #[trigger] self.inclusions[k].valid_in(self.toggles) by {
            assert(part_inclusions(self.parts).contains(self.inclusions[k]));
            let j = choose|j: int| 0 <= j < part_inclusions(self.parts).len() && part_inclusions(self.parts)[j] == self.inclusions[k];
            assert(self.parts[j]@.inclusion.valid_in(self.toggles));
        }
    }
}

impl<S, D> Assy<S, D> {
    pub open spec fn wf(&self) -> bool {
        self@.wf()
    }

    /// An assembly of `parts`, whose groups and optional toggles are indices
    /// into `groups` and `toggles`.
    pub fn new(parts: Vec<ConfigPart<S, D>>, groups: Vec<MaterialCollection>, toggles: Vec<bool>) -> (r: Self)
        requires
            parts@.len() > 0,
            parts_valid(parts@, groups@, toggles@),
            groups_wf(groups@),
        ensures
            r@.parts == parts@,
            r@.groups == groups@,
            r@.toggles == toggles@,
            r.wf(),
    {
        let mut materials: Vec<usize> = Vec::new();
        let mut inclusions: Vec<Include> = Vec::new();
        let mut i: usize = 0;
        while i < parts.len()
            invariant
                i <= parts@.len(),
                materials@ == distinct_by(part_groups(parts@).take(i as int), group_key()),
                inclusions@ == distinct_by(part_inclusions(parts@).take(i as int), inclusion_key()),
            decreases parts@.len() - i,
        {
            let g = parts[i].material;
            let ghost gs = part_groups(parts@);
            assert(gs.take(i + 1).drop_last() =~= gs.take(i as int));
            assert(gs.take(i + 1).last() == g);
            if !has_group(&materials, g) {
                materials.push(g);
            }
            let ghost is = part_inclusions(parts@);
            assert(is.take(i + 1).drop_last() =~= is.take(i as int));
            assert(is.take(i + 1).last() == parts@[i as int]@.inclusion);
            if !has_inclusion(&inclusions, parts[i].inclusion.key_of()) {
                inclusions.push(parts[i].inclusion.clone());
            }
            i = i + 1;
        }
        assert(part_groups(parts@).take(parts@.len() as int) =~= part_groups(parts@));
        assert(part_inclusions(parts@).take(parts@.len() as int) =~= part_inclusions(parts@));
        Assy { parts, groups, toggles, materials, inclusions }
    }

    pub fn len(&self) -> (r: usize)
        ensures
            r == self@.parts.len(),
    {
        self.parts.len()
    }

    pub fn parts(&self) -> (r: &[ConfigPart<S, D>])
        ensures
            r@ == self@.parts,
    {
        self.parts.as_slice()
    }

    pub fn groups(&self) -> (r: &[MaterialCollection])
        ensures
            r@ == self@.groups,
    {
        self.groups.as_slice()
    }

    pub fn toggles(&self) -> (r: &[bool])
        ensures
            r@ == self@.toggles,
    {
        self.toggles.as_slice()
    }

    /// The groups in use, each once, in the order the parts first use them.
    pub fn materials(&self) -> (r: &[usize])
        ensures
            r@ == self@.materials,
    {
        self.materials.as_slice()
    }

    /// The inclusions, one for each toggle in use (and one for the parts
    /// always in, if any), in the order the parts first use them.
    pub fn inclusions(&self) -> (r: &[Include])
        ensures
            r@ == self@.inclusions,
    {
        self.inclusions.as_slice()
    }

    /// The shape of every part, shown or not: what the bounding volume is made of.
    pub fn shapes(&self) -> (r: Vec<&S>)
        ensures
            r@.map_values(|s: &S| *s) == shapes_of(self@.parts),
    {
        let mut r: Vec<&S> = Vec::new();
        let mut i: usize = 0;
        while i < self.parts.len()
            invariant
                i <= self.parts@.len(),
                r@.map_values(|s: &S| *s) == shapes_of(self.parts@.take(i as int)),
            decreases self.parts@.len() - i,
        {
            r.push(self.parts[i].body.shape());
            assert(shapes_of(self.parts@.take(i + 1)) =~= shapes_of(self.parts@.take(i as int)).push(
                self.parts@[i as int]@.body.shape,
            ));
            assert(r@.map_values(|s: &S| *s) =~= shapes_of(self.parts@.take(i as int)).push(
                self.parts@[i as int]@.body.shape,
            ));
            i = i + 1;
        }
        assert(self.parts@.take(self.parts@.len() as int) =~= self.parts@);
        r
    }

    /// The drawables of the parts that are shown, in order; every part must
    /// have been initialized.
    pub fn objects(&self) -> (r: Vec<&D>)
        requires
            self.wf(),
            self@.all_init(),
        ensures
            r@.map_values(|o: &D| *o) == self@.objects(),
    {
        let mut r: Vec<&D> = Vec::new();
        let mut i: usize = 0;
        while i < self.parts.len()
            invariant
                i <= self.parts@.len(),
                self.wf(),
                self@.all_init(),
                r@.map_values(|o: &D| *o) == visible_objects(self.parts@.take(i as int), self.toggles@),
            decreases self.parts@.len() - i,
        {
            let ghost pre = self.parts@.take(i as int);
            assert(self.parts@.take(i + 1).drop_last() =~= pre);
            assert(self.parts@.take(i + 1).last() == self.parts@[i as int]);
            assert(self@.parts[i as int]@.inclusion.valid_in(self@.toggles));
            assert(self@.parts[i as int]@.body.is_init());
            if self.parts[i].inclusion.is_show(self.toggles.as_slice()) {
                r.push(self.parts[i].body.object());
                assert(r@.map_values(|o: &D| *o) =~= visible_objects(pre, self.toggles@).push(
                    self.parts@[i as int]@.body.object(),
                ));
            }
            i = i + 1;
        }
        assert(self.parts@.take(self.parts@.len() as int) =~= self.parts@);
        r
    }

    /// Has the backend realize every part in the selection of its group.
    pub fn init<F: Fn(&S, &Material) -> D>(&mut self, realize: &F)
        requires
            old(self).wf(),
            realizes_all(*realize),
        ensures
            final(self).wf(),
            old(self)@.inited(final(self)@, *realize),
    {
        let mut i: usize = 0;
        while i < self.parts.len()
            invariant
                i <= self@.parts.len(),
                realizes_all(*realize),
                old(self).wf(),
                self@.groups == old(self)@.groups,
                self@.toggles == old(self)@.toggles,
                self@.materials == old(self)@.materials,
                self@.inclusions == old(self)@.inclusions,
                self@.parts.len() == old(self)@.parts.len(),
                forall|j: int| i <= j < self@.parts.len() ==> #[trigger] self@.parts[j] == old(self)@.parts[j],
                forall|j: int| 0 <= j < i ==> {
                    let p = #[trigger] self@.parts[j]@;
                    &&& same_but_body(self@.parts[j], old(self)@.parts[j])
                    &&& p.body.is_init()
                    &&& p.body.shown() == old(self)@.material_of(j)
                    &&& realize.ensures((&old(self)@.parts[j]@.body.shape, &old(self)@.material_of(j)), p.body.object())
                },
            decreases self@.parts.len() - i,
        {
            assert(self@.parts[i as int] == old(self)@.parts[i as int]);
            assert(old(self)@.parts[i as int]@.material < old(self)@.groups.len());
            let g = self.parts[i].material;
            assert(self@.groups[g as int].wf());
            let m = self.groups[g].current();
            self.parts[i].body.init(m, realize);
            i = i + 1;
        }
        proof {
            assert(part_groups(self@.parts) =~= part_groups(old(self)@.parts));
            assert(part_inclusions(self@.parts) =~= part_inclusions(old(self)@.parts));
        }
    }

    /// Pushes the selection of each part's group into its drawable; a part
    /// that is not initialized yet stays as it is.
    pub fn update<F: Fn(D, &Material) -> D>(&mut self, push: &F)
        requires
            old(self).wf(),
            pushes_all(*push),
        ensures
            final(self).wf(),
            old(self)@.updated(final(self)@, *push),
    {
        let mut i: usize = 0;
        while i < self.parts.len()
            invariant
                i <= self@.parts.len(),
                pushes_all(*push),
                old(self).wf(),
                self@.groups == old(self)@.groups,
                self@.toggles == old(self)@.toggles,
                self@.materials == old(self)@.materials,
                self@.inclusions == old(self)@.inclusions,
                self@.parts.len() == old(self)@.parts.len(),
                forall|j: int| i <= j < self@.parts.len() ==> #[trigger] self@.parts[j] == old(self)@.parts[j],
                forall|j: int| 0 <= j < i ==> {
                    let p = #[trigger] self@.parts[j]@;
                    let q = old(self)@.parts[j]@;
                    &&& same_but_body(self@.parts[j], old(self)@.parts[j])
                    &&& p.body.is_init() == q.body.is_init()
                    &&& !q.body.is_init() ==> p.body == q.body
                    &&& q.body.is_init() ==> p.body.shown() == old(self)@.material_of(j)
                        && push.ensures((q.body.object(), &old(self)@.material_of(j)), p.body.object())
                },
            decreases self@.parts.len() - i,
        {
            assert(self@.parts[i as int] == old(self)@.parts[i as int]);
            assert(old(self)@.parts[i as int]@.material < old(self)@.groups.len());
            let g = self.parts[i].material;
            assert(self@.groups[g as int].wf());
            let m = self.groups[g].current();
            self.parts[i].body.update(m, push);
            i = i + 1;
        }
        proof {
            assert(part_groups(self@.parts) =~= part_groups(old(self)@.parts));
            assert(part_inclusions(self@.parts) =~= part_inclusions(old(self)@.parts));
        }
    }

    /// Sets toggle `t` to `on`; `false`, and no change, when there is no such toggle.
    pub fn set_toggle(&mut self, t: usize, on: bool) -> (r: bool)
        requires
            old(self).wf(),
        ensures
            r == (t < old(self)@.toggles.len()),
            final(self).wf(),
            final(self)@.parts == old(self)@.parts,
            final(self)@.groups == old(self)@.groups,
            final(self)@.materials == old(self)@.materials,
            final(self)@.inclusions == old(self)@.inclusions,
            final(self)@.toggles == if r { old(self)@.toggles.update(t as int, on) } else { old(self)@.toggles },
            !r ==> *final(self) == *old(self),
    {
        if t < self.toggles.len() {
            self.toggles.set(t, on);
            proof {
                assert forall|i: int| 0 <= i < self@.parts.len() implies #[trigger] self@.parts[i]@.inclusion.valid_in(
                    self@.toggles,
                ) by {
                    assert(old(self)@.parts[i]@.inclusion.valid_in(old(self)@.toggles));
                }
            }
            true
        } else {
            false
        }
    }

    /// Selects option `option` of group `g`; `false`, and no change, when
    /// there is no such group or option.
    pub fn select(&mut self, g: usize, option: usize) -> (r: bool)
        requires
            old(self).wf(),
        ensures
            r == (g < old(self)@.groups.len() && option < old(self)@.groups[g as int]@.options.len()),
            final(self).wf(),
            final(self)@.parts == old(self)@.parts,
            final(self)@.toggles == old(self)@.toggles,
            final(self)@.materials == old(self)@.materials,
            final(self)@.inclusions == old(self)@.inclusions,
            r ==> old(self)@.picked(final(self)@, g, option),
            !r ==> *final(self) == *old(self),
    {
        if g < self.groups.len() && option < self.groups[g].len() {
            assert(self@.groups[g as int].wf());
            self.groups[g].select(option);
            proof {
                assert forall|h: int| 0 <= h < self@.groups.len() implies #[trigger] self@.groups[h].wf() by {
                    if h != g {
                        assert(self@.groups[h] == old(self)@.groups[h]);
                    }
                }
            }
            true
        } else {
            false
        }
    }

    /// The checkboxes of the toggles, after a gap, for assembly `at` of a product.
    pub fn configure_controls(&self, at: usize) -> (r: Vec<Control>)
        requires
            self.wf(),
        ensures
            panel(r@) == self@.configure_panel(at),
    {
        proof {
            self@.lemma_listed_valid();
        }
        let mut r: Vec<Control> = vec![Control::Space];
        let mut i: usize = 0;
        while i < self.inclusions.len()
            invariant
                i <= self@.inclusions.len(),
                self.wf(),
                forall|k: int| 0 <= k < self@.inclusions.len() ==> #[trigger] self@.inclusions[k].valid_in(self@.toggles),
                panel(r@) == seq![ControlView::Space] + toggle_controls(self@.inclusions.take(i as int), self@.toggles, at),
            decreases self@.inclusions.len() - i,
        {
            let ghost pre = self@.inclusions.take(i as int);
            assert(self@.inclusions.take(i + 1).drop_last() =~= pre);
            assert(self@.inclusions.take(i + 1).last() == self@.inclusions[i as int]);
            assert(self@.inclusions[i as int].valid_in(self@.toggles));
            match &self.inclusions[i] {
                Include::Optional { label, opt_in } => {
                    let c = Control::Checkbox {
                        text: label.clone(),
                        checked: self.toggles[*opt_in],
                        binding: Binding::AssyToggle(at, *opt_in),
                    };
                    let ghost before = r@;
                    r.push(c);
                    assert(panel(r@) =~= panel(before).push(c@));
                    assert(seq![ControlView::Space] + toggle_controls(pre, self@.toggles, at).push(c@) =~= (seq![
                        ControlView::Space,
                    ] + toggle_controls(pre, self@.toggles, at)).push(c@));
                },
                Include::MustHave => {},
            }
            i = i + 1;
        }
        assert(self@.inclusions.take(self@.inclusions.len() as int) =~= self@.inclusions);
        r
    }

    /// A gap, the label and a picker for each group in use that offers more
    /// than one option, for assembly `at` of a product.
    pub fn material_controls(&self, at: usize) -> (r: Vec<Control>)
        requires
            self.wf(),
        ensures
            panel(r@) == self@.material_panel(at),
    {
        proof {
            self@.lemma_listed_valid();
        }
        let mut r: Vec<Control> = Vec::new();
        let mut i: usize = 0;
        while i < self.materials.len()
            invariant
                i <= self@.materials.len(),
                self.wf(),
                forall|k: int| 0 <= k < self@.materials.len() ==> #[trigger] self@.materials[k] < self@.groups.len(),
                panel(r@) == group_controls(self@.materials.take(i as int), self@.groups, at),
            decreases self@.materials.len() - i,
        {
            let ghost pre = self@.materials.take(i as int);
            assert(self@.materials.take(i + 1).drop_last() =~= pre);
            assert(self@.materials.take(i + 1).last() == self@.materials[i as int]);
            let g = self.materials[i];
            assert(g < self@.groups.len());
            let group = &self.groups[g];
            if group.len() > 1 {
                let label = Control::Label(group.label().to_string());
                let picker = Control::Picker {
                    options: group.option_names(),
                    selected: group.selected(),
                    framed: false,
                    enabled: true,
                    binding: Binding::AssyMaterial(at, g),
                };
                r.push(Control::Space);
                r.push(label);
                r.push(picker);
                assert(panel(r@) =~= group_controls(pre, self@.groups, at) + seq![ControlView::Space, label@, picker@]);
            }
            i = i + 1;
        }
        assert(self@.materials.take(self@.materials.len() as int) =~= self@.materials);
        r
    }

    /// The assembly's control panel, for assembly `at` of a product: the
    /// checkboxes of the toggles come before the pickers of the groups.
    pub fn controls(&self, at: usize) -> (r: Vec<Control>)
        requires
            self.wf(),
        ensures
            panel(r@) == self@.panel(at),
    {
        let mut r = self.configure_controls(at);
        let mut m = self.material_controls(at);
        r.append(&mut m);
        assert(panel(r@) =~= self@.configure_panel(at) + self@.material_panel(at));
        r
    }

    /// The chair: plastic parts, base frame, arm frame, fabrics and arm
    /// fabrics, in that order. Both frames share the metals, both fabrics
    /// share the fabrics, the plastic parts have black plastic only, and the
    /// two arm parts follow one toggle, "Arms", which starts on.
    pub fn chair(bodies: Vec<(String, Body<S, D>)>) -> (r: Self)
        requires
            bodies@.len() == 5,
        ensures
            r.wf(),
            r@.parts.len() == 5,
            forall|i: int| 0 <= i < 5 ==> #[trigger] r@.parts[i]@.name == bodies@[i].0@
                && r@.parts[i]@.body == bodies@[i].1@,
            r@.groups.len() == 3,
            r@.groups[0]@.label == "Metals"@,
            r@.groups[1]@.label == "Fabrics"@,
            r@.groups[2]@.options.len() == 1,
            r@.groups[2]@.options[0]@ == Material::black_plastic_view(),
            r@.toggles == seq![true],
            part_groups(r@.parts) == seq![2usize, 0, 0, 1, 1],
            part_inclusions(r@.parts).map_values(|i: Include| i.key()) == seq![None, None, Some(0usize), None, Some(0usize)],
            r@.parts[2]@.inclusion->label@ == "Arms"@,
            r@.parts[4]@.inclusion->label@ == "Arms"@,
    {
        let groups = vec![
            MaterialCollection::metals(),
            MaterialCollection::fabrics(),
            MaterialCollection::mono(Material::black_plastic()),
        ];
        let mut toggles: Vec<bool> = Vec::new();
        let arm_option = Include::optinal("Arms".to_string(), true, &mut toggles);
        let mut bodies = bodies;
        let ghost given = bodies@;
        let (n4, b4) = bodies.pop().unwrap();
        let (n3, b3) = bodies.pop().unwrap();
        let (n2, b2) = bodies.pop().unwrap();
        let (n1, b1) = bodies.pop().unwrap();
        let (n0, b0) = bodies.pop().unwrap();
        assert(given[4] == (n4, b4) && given[3] == (n3, b3) && given[2] == (n2, b2));
        assert(given[1] == (n1, b1) && given[0] == (n0, b0));
        let parts = vec![
            ConfigPart::new(n0, b0, 2, Include::MustHave),
            ConfigPart::new(n1, b1, 0, Include::MustHave),
            ConfigPart::new(n2, b2, 0, arm_option.clone()),
            ConfigPart::new(n3, b3, 1, Include::MustHave),
            ConfigPart::new(n4, b4, 1, arm_option),
        ];
        assert(part_groups(parts@) =~= seq![2usize, 0, 0, 1, 1]);
        assert(part_inclusions(parts@).map_values(|i: Include| i.key()) =~= seq![None, None, Some(0usize), None, Some(0usize)]);
        assert(groups_wf(groups@));
        Assy::new(parts, groups, toggles)
    }
}

/// An assembly lists no more groups and no more inclusions than it has
/// parts, and exactly as many when no two parts share a group, or an
/// inclusion (parts that are always in share theirs).
pub proof fn lemma_listed_at_most_parts<S, D>(a: AssyView<S, D>)
    requires
        a.wf(),
    ensures
        a.materials.len() <= a.parts.len(),
        a.inclusions.len() <= a.parts.len(),
        a.materials.len() == a.parts.len() <==> forall|i: int, j: int|
            0 <= i < j < a.parts.len() ==> #[trigger] a.parts[i]@.material != #[trigger] a.parts[j]@.material,
        a.inclusions.len() == a.parts.len() <==> forall|i: int, j: int|
            0 <= i < j < a.parts.len() ==> #[trigger] a.parts[i]@.inclusion.key() != #[trigger] a.parts[j]@.inclusion.key(),
{
    let gs = part_groups(a.parts);
    let is = part_inclusions(a.parts);
    lemma_distinct_by(gs, group_key());
    lemma_distinct_by(is, inclusion_key());
    lemma_distinct_by_len(gs, group_key());
    lemma_distinct_by_len(is, inclusion_key());
    assert forall|i: int| 0 <= i < a.parts.len() implies #[trigger] gs[i] == a.parts[i]@.material
        && #[trigger] is[i] == a.parts[i]@.inclusion by {}
    if keys_unique(gs, group_key()) {
        assert forall|i: int, j: int| 0 <= i < j < a.parts.len() implies #[trigger] a.parts[i]@.material
            != #[trigger] a.parts[j]@.material by {
            assert(group_key()(gs[i]) != group_key()(gs[j]));
        }
    }
    if forall|i: int, j: int| 0 <= i < j < a.parts.len() ==> #[trigger] a.parts[i]@.material != #[trigger] a.parts[j]@.material {
        assert forall|i: int, j: int| 0 <= i < j < gs.len() implies group_key()(#[trigger] gs[i]) != group_key()(
            #[trigger] gs[j],
        ) by {
            assert(a.parts[i]@.material != a.parts[j]@.material);
        }
    }
    if keys_unique(is, inclusion_key()) {
        assert forall|i: int, j: int| 0 <= i < j < a.parts.len() implies #[trigger] a.parts[i]@.inclusion.key()
            != #[trigger] a.parts[j]@.inclusion.key() by {
            assert(inclusion_key()(is[i]) != inclusion_key()(is[j]));
        }
    }
    if forall|i: int, j: int| 0 <= i < j < a.parts.len() ==> #[trigger] a.parts[i]@.inclusion.key() != #[trigger] a.parts[j]@.inclusion.key() {
        assert forall|i: int, j: int| 0 <= i < j < is.len() implies inclusion_key()(#[trigger] is[i]) != inclusion_key()(
            #[trigger] is[j],
        ) by {
            assert(a.parts[i]@.inclusion.key() != a.parts[j]@.inclusion.key());
        }
    }
}

/// Parts that follow the same toggle are shown while it is on and hidden
/// while it is off, together, whatever the toggles hold.
pub proof fn lemma_shared_toggle_lockstep<S, D>(a: AssyView<S, D>, i: int, j: int)
    requires
        a.wf(),
        0 <= i < a.parts.len(),
        0 <= j < a.parts.len(),
        a.parts[i]@.inclusion is Optional,
        a.parts[j]@.inclusion.key() == a.parts[i]@.inclusion.key(),
    ensures
        a.shown(i) == a.toggles[a.parts[i]@.inclusion->opt_in as int],
        a.shown(j) == a.shown(i),
{
}

/// The shapes, of which the bounding volume is made, do not depend on the
/// toggles: they are those of every part, shown or hidden.
pub proof fn lemma_shapes_ignore_toggles<S, D>(a: AssyView<S, D>, toggles: Seq<bool>)
    ensures
        shapes_of(AssyView { toggles, ..a }.parts) == shapes_of(a.parts),
        shapes_of(a.parts).len() == a.parts.len(),
{
}

} // verus!
