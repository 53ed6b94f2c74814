use vstd::prelude::*;

verus! {

/// The weight of the lowest exponent bit of an IEEE-754 single: 2 to the 23rd.
pub const EXPONENT_UNIT: u32 = 0x80_0000;

/// True when the 32 bits encode a NaN: exponent all ones, fraction non-zero.
pub open spec fn is_nan_bits(bits: u32) -> bool {
    (bits / EXPONENT_UNIT) % 0x100 == 0xff && bits % EXPONENT_UNIT != 0
}

/// Tells whether `bits`, read as an `f32`, is a NaN.
pub fn is_nan(bits: u32) -> (r: bool)
    ensures
        r == is_nan_bits(bits),
{
    (bits / EXPONENT_UNIT) % 0x100 == 0xff && bits % EXPONENT_UNIT != 0
}

/// `0.1` as `f32` bits.
pub const F32_0_1: u32 = 0x3dcc_cccd;

/// `0.2` as `f32` bits.
pub const F32_0_2: u32 = 0x3e4c_cccd;

/// `0.3` as `f32` bits.
pub const F32_0_3: u32 = 0x3e99_999a;

/// `0.4` as `f32` bits.
pub const F32_0_4: u32 = 0x3ecc_cccd;

/// `0.7` as `f32` bits.
pub const F32_0_7: u32 = 0x3f33_3333;

/// `0.8` as `f32` bits.
pub const F32_0_8: u32 = 0x3f4c_cccd;

/// `0.9` as `f32` bits.
pub const F32_0_9: u32 = 0x3f66_6666;

/// A surface finish. `metallic` and `roughness` hold the bits of an `f32`
/// in `[0, 1]`; a NaN is never stored, so equality and hashing are lawful.
#[derive(Debug, PartialEq, Eq, Hash)]
pub struct Material {
    name: String,
    rgb: [u8; 3],
    metallic: u32,
    roughness: u32,
}

pub struct MaterialView {
    pub name: Seq<char>,
    pub rgb: [u8; 3],
    pub metallic: u32,
    pub roughness: u32,
}

impl View for Material {
    type V = MaterialView;

    closed spec fn view(&self) -> MaterialView {
        MaterialView {
            name: self.name@,
            rgb: self.rgb,
            metallic: self.metallic,
            roughness: self.roughness,
        }
    }
}

impl Clone for Material {
    fn clone(&self) -> (r: Self)
        ensures
            r == *self,
    {
        Material {
            name: self.name.clone(),
            rgb: self.rgb,
            metallic: self.metallic,
            roughness: self.roughness,
        }
    }
}

impl Material {
    /// No numeric field holds a NaN.
    pub open spec fn wf(&self) -> bool {
        !is_nan_bits(self@.metallic) && !is_nan_bits(self@.roughness)
    }

    pub fn new(name: String, rgb: [u8; 3], metallic: u32, roughness: u32) -> (r: Self)
        requires
            !is_nan_bits(metallic),
            !is_nan_bits(roughness),
        ensures
            r@.name == name@,
            r@.rgb == rgb,
            r@.metallic == metallic,
            r@.roughness == roughness,
            r.wf(),
    {
        Material { name, rgb, metallic, roughness }
    }

    pub fn not_nan(&self) -> (r: bool)
        ensures
            r == self.wf(),
    {
        if is_nan(self.metallic) {
            return false;
        }
        if is_nan(self.roughness) {
            return false;
        }
        true
    }

    pub fn name(&self) -> (r: &str)
        ensures
            r@ == self@.name,
    {
        self.name.as_str()
    }

    pub fn rgb(&self) -> (r: [u8; 3])
        ensures
            r == self@.rgb,
    {
        self.rgb
    }

    /// The bits of the metallic factor, an `f32`.
    pub fn metallic(&self) -> (r: u32)
        ensures
            r == self@.metallic,
    {
        self.metallic
    }

    /// The bits of the roughness factor, an `f32`.
    pub fn roughness(&self) -> (r: u32)
        ensures
            r == self@.roughness,
    {
        self.roughness
    }

    pub open spec fn gold_view() -> MaterialView {
        MaterialView { name: "Gold"@, rgb: [212u8, 175, 55], metallic: F32_0_9, roughness: F32_0_2 }
    }

    pub fn gold() -> (r: Self)
        ensures
            r@ == Self::gold_view(),
            r.wf(),
    {
        Self::new("Gold".to_string(), [212, 175, 55], F32_0_9, F32_0_2)
    }

    pub open spec fn silver_view() -> MaterialView {
        MaterialView { name: "Silver"@, rgb: [192u8, 192, 192], metallic: F32_0_9, roughness: F32_0_2 }
    }

    pub fn silver() -> (r: Self)
        ensures
            r@ == Self::silver_view(),
            r.wf(),
    {
        Self::new("Silver".to_string(), [192, 192, 192], F32_0_9, F32_0_2)
    }

    pub open spec fn alu_view() -> MaterialView {
        MaterialView { name: "Aluminium"@, rgb: [132u8, 135, 137], metallic: F32_0_7, roughness: F32_0_3 }
    }

    pub fn alu() -> (r: Self)
        ensures
            r@ == Self::alu_view(),
            r.wf(),
    {
        Self::new("Aluminium".to_string(), [132, 135, 137], F32_0_7, F32_0_3)
    }

    pub open spec fn black_plastic_view() -> MaterialView {
        MaterialView { name: "Black Plastic"@, rgb: [34u8, 35, 39], metallic: F32_0_1, roughness: F32_0_4 }
    }

    pub fn black_plastic() -> (r: Self)
        ensures
            r@ == Self::black_plastic_view(),
            r.wf(),
    {
        Self::new("Black Plastic".to_string(), [34, 35, 39], F32_0_1, F32_0_4)
    }

    pub open spec fn dark_fabric_view() -> MaterialView {
        MaterialView { name: "Dark Fabric"@, rgb: [20u8, 39, 46], metallic: F32_0_3, roughness: F32_0_9 }
    }

    pub fn dark_fabric() -> (r: Self)
        ensures
            r@ == Self::dark_fabric_view(),
            r.wf(),
    {
        Self::new("Dark Fabric".to_string(), [20, 39, 46], F32_0_3, F32_0_9)
    }

    pub open spec fn pink_fabric_view() -> MaterialView {
        MaterialView { name: "Pink Fabric"@, rgb: [255u8, 138, 201], metallic: F32_0_3, roughness: F32_0_9 }
    }

    pub fn pink_fabric() -> (r: Self)
        ensures
            r@ == Self::pink_fabric_view(),
            r.wf(),
    {
        Self::new("Pink Fabric".to_string(), [255, 138, 201], F32_0_3, F32_0_9)
    }

    pub open spec fn grey_steel_view() -> MaterialView {
        MaterialView { name: "GreySteel"@, rgb: [132u8, 132, 132], metallic: F32_0_8, roughness: F32_0_3 }
    }

    pub open spec fn pink_view() -> MaterialView {
        MaterialView { name: "Pink"@, rgb: [213u8, 114, 207], metallic: F32_0_3, roughness: F32_0_4 }
    }

    pub fn placeholder_fabs() -> (r: Vec<Material>)
        ensures
            views(r@) == seq![Self::dark_fabric_view(), Self::pink_fabric_view()],
            all_wf(r@),
    {
        let r = vec![Material::dark_fabric(), Material::pink_fabric()];
        assert(views(r@) =~= seq![Self::dark_fabric_view(), Self::pink_fabric_view()]);
        r
    }

    pub fn placeholder_metals() -> (r: Vec<Material>)
        ensures
            views(r@) == seq![Self::alu_view(), Self::gold_view(), Self::silver_view()],
            all_wf(r@),
    {
        let r = vec![Material::alu(), Material::gold(), Material::silver()];
        assert(views(r@) =~= seq![Self::alu_view(), Self::gold_view(), Self::silver_view()]);
        r
    }

    pub fn placeholder_materials() -> (r: Vec<Material>)
        ensures
            views(r@) == seq![Self::grey_steel_view(), Self::pink_view()],
            all_wf(r@),
    {
        let r = vec![
            Material::new("GreySteel".to_string(), [132, 132, 132], F32_0_8, F32_0_3),
            Material::new("Pink".to_string(), [213, 114, 207], F32_0_3, F32_0_4),
        ];
        assert(views(r@) =~= seq![Self::grey_steel_view(), Self::pink_view()]);
        r
    }
}

/// The views of a sequence of materials.
pub open spec fn views(s: Seq<Material>) -> Seq<MaterialView> {
    s.map_values(|m: Material| m@)
}

/// The name of each material.
pub open spec fn names(s: Seq<Material>) -> Seq<Seq<char>> {
    s.map_values(|m: Material| m@.name)
}

/// Every material in `s` is free of NaN.
pub open spec fn all_wf(s: Seq<Material>) -> bool {
    forall|i: int| 0 <= i < s.len() ==> #[trigger] s[i].wf()
}

/// A named, ordered list of material options with the index of the one
/// that is selected. Parts that share a group change finish together.
#[derive(Debug)]
pub struct MaterialCollection {
    label: String,
    options: Vec<Material>,
    current_material: usize,
}

pub struct MaterialCollectionView {
    pub label: Seq<char>,
    pub options: Seq<Material>,
    pub selected: int,
}

impl View for MaterialCollection {
    type V = MaterialCollectionView;

    closed spec fn view(&self) -> MaterialCollectionView {
        MaterialCollectionView {
            label: self.label@,
            options: self.options@,
            selected: self.current_material as int,
        }
    }
}

impl MaterialCollectionView {
    /// At least one option, the selection is one of them, and no option holds a NaN.
    pub open spec fn wf(&self) -> bool {
        &&& self.options.len() > 0
        &&& 0 <= self.selected < self.options.len()
        &&& all_wf(self.options)
    }

    pub open spec fn current(&self) -> Material {
        self.options[self.selected]
    }
}

impl MaterialCollection {
    pub open spec fn wf(&self) -> bool {
        self@.wf()
    }

    /// A group whose first option is selected.
    pub fn new(label: String, options: Vec<Material>) -> (r: Self)
        requires
            options@.len() > 0,
            all_wf(options@),
        ensures
            r@.label == label@,
            r@.options == options@,
            r@.selected == 0,
            r.wf(),
    {
        MaterialCollection { label, options, current_material: 0 }
    }

    /// A group that offers one material only, labelled with its name.
    pub fn mono(material: Material) -> (r: Self)
        requires
            material.wf(),
        ensures
            r@.label == material@.name,
            r@.options == seq![material],
            r@.selected == 0,
            r.wf(),
    {
        let label = material.name.clone();
        let options = vec![material];
        assert(options@ =~= seq![material]);
        Self::new(label, options)
    }

    pub fn current(&self) -> (r: &Material)
        requires
            self.wf(),
        ensures
            *r == self@.current(),
            r.wf(),
    {
        &self.options[self.current_material]
    }

    /// Selects option `index`.
    pub fn select(&mut self, index: usize)
        requires
            old(self).wf(),
            index < old(self)@.options.len(),
        ensures
            final(self)@.label == old(self)@.label,
            final(self)@.options == old(self)@.options,
            final(self)@.selected == index,
            final(self).wf(),
    {
        self.current_material = index;
    }

    pub fn selected(&self) -> (r: usize)
        ensures
            r == self@.selected,
    {
        self.current_material
    }

    pub fn label(&self) -> (r: &str)
        ensures
            r@ == self@.label,
    {
        self.label.as_str()
    }

    pub fn options(&self) -> (r: &[Material])
        ensures
            r@ == self@.options,
    {
        self.options.as_slice()
    }

    /// The name of each option, in order.
    pub fn option_names(&self) -> (r: Vec<String>)
        ensures
            r@.map_values(|t: String| t@) == names(self@.options),
    {
        let mut r: Vec<String> = Vec::new();
        let mut i: usize = 0;
        while i < self.options.len()
            invariant
                i <= self.options@.len(),
                r@.map_values(|t: String| t@) == names(self.options@.take(i as int)),
            decreases self.options@.len() - i,
        {
            r.push(self.options[i].name.clone());
            assert(names(self.options@.take(i + 1)) =~= names(self.options@.take(i as int)).push(
                self.options@[i as int]@.name,
            ));
            assert(r@.map_values(|t: String| t@) =~= names(self.options@.take(i as int)).push(
                self.options@[i as int]@.name,
            ));
            i = i + 1;
        }
        assert(self.options@.take(self.options@.len() as int) =~= self.options@);
        r
    }

    pub fn len(&self) -> (r: usize)
        ensures
            r == self@.options.len(),
    {
        self.options.len()
    }

    /// The metals on offer: aluminium, gold and silver.
    pub fn metals() -> (r: Self)
        ensures
            r@.label == "Metals"@,
            views(r@.options) == seq![Material::alu_view(), Material::gold_view(), Material::silver_view()],
            r@.selected == 0,
            r.wf(),
    {
        let materials = vec![Material::alu(), Material::gold(), Material::silver()];
        assert(views(materials@) =~= seq![Material::alu_view(), Material::gold_view(), Material::silver_view()]);
        Self::new("Metals".to_string(), materials)
    }

    /// The fabrics on offer: pink and dark.
    pub fn fabrics() -> (r: Self)
        ensures
            r@.label == "Fabrics"@,
            views(r@.options) == seq![Material::pink_fabric_view(), Material::dark_fabric_view()],
            r@.selected == 0,
            r.wf(),
    {
        let materials = vec![Material::pink_fabric(), Material::dark_fabric()];
        assert(views(materials@) =~= seq![Material::pink_fabric_view(), Material::dark_fabric_view()]);
        Self::new("Fabrics".to_string(), materials)
    }
}

} // verus!
