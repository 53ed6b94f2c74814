use cfg3demo::material::{is_nan, Material, MaterialCollection};
use std::collections::HashSet;

fn finish(name: &str, rgb: [u8; 3], metallic: f32, roughness: f32) -> Material {
    Material::new(name.to_string(), rgb, metallic.to_bits(), roughness.to_bits())
}

#[test]
fn nan_bits_are_recognized() {
    assert!(is_nan(f32::NAN.to_bits()));
    assert!(is_nan((-f32::NAN).to_bits()));
    assert!(is_nan(0x7f80_0001));
    assert!(!is_nan(0.5f32.to_bits()));
    assert!(!is_nan(f32::INFINITY.to_bits()));
    assert!(!is_nan(f32::NEG_INFINITY.to_bits()));
    assert!(!is_nan(0));
}

#[test]
fn named_materials_hold_their_values() {
    let gold = Material::gold();
    assert_eq!(gold.name(), "Gold");
    assert_eq!(gold.rgb(), [212, 175, 55]);
    assert_eq!(gold.metallic(), 0.9f32.to_bits());
    assert_eq!(gold.roughness(), 0.2f32.to_bits());
    let alu = Material::alu();
    assert_eq!(alu.name(), "Aluminium");
    assert_eq!(alu.rgb(), [132, 135, 137]);
    assert_eq!(f32::from_bits(alu.metallic()), 0.7);
    assert_eq!(f32::from_bits(alu.roughness()), 0.3);
    let plastic = Material::black_plastic();
    assert_eq!(plastic.rgb(), [34, 35, 39]);
    assert_eq!(f32::from_bits(plastic.metallic()), 0.1);
    assert_eq!(f32::from_bits(plastic.roughness()), 0.4);
    assert_eq!(Material::silver().rgb(), [192, 192, 192]);
    assert_eq!(Material::dark_fabric().rgb(), [20, 39, 46]);
    assert_eq!(Material::pink_fabric().rgb(), [255, 138, 201]);
    assert_eq!(f32::from_bits(Material::pink_fabric().roughness()), 0.9);
}

#[test]
fn constructed_materials_hold_no_nan() {
    let m = finish("Glass", [1, 2, 3], 0.0, 1.0);
    assert!(m.not_nan());
    assert_eq!(m.name(), "Glass");
    assert_eq!(m.clone(), m);
    assert!(Material::gold().not_nan());
}

#[test]
fn equal_materials_hash_alike() {
    let mut set = HashSet::new();
    set.insert(Material::gold());
    set.insert(Material::gold());
    set.insert(Material::silver());
    assert_eq!(set.len(), 2);
}

#[test]
fn placeholder_lists_are_in_order() {
    let fabs: Vec<String> = Material::placeholder_fabs().iter().map(|m| m.name().to_string()).collect();
    assert_eq!(fabs, vec!["Dark Fabric", "Pink Fabric"]);
    let metals: Vec<String> = Material::placeholder_metals().iter().map(|m| m.name().to_string()).collect();
    assert_eq!(metals, vec!["Aluminium", "Gold", "Silver"]);
    let others = Material::placeholder_materials();
    assert_eq!(others[0].name(), "GreySteel");
    assert_eq!(others[0].rgb(), [132, 132, 132]);
    assert_eq!(f32::from_bits(others[0].metallic()), 0.8);
    assert_eq!(others[1].name(), "Pink");
    assert_eq!(others[1].rgb(), [213, 114, 207]);
}

#[test]
fn group_starts_on_first_option() {
    let g = MaterialCollection::new("Finish".to_string(), vec![Material::gold(), Material::silver()]);
    assert_eq!(g.label(), "Finish");
    assert_eq!(g.len(), 2);
    assert_eq!(g.selected(), 0);
    assert_eq!(g.current(), &Material::gold());
    assert_eq!(g.options()[1], Material::silver());
}

#[test]
fn current_follows_every_selection() {
    let mut g = MaterialCollection::metals();
    assert_eq!(g.label(), "Metals");
    for i in [2usize, 0, 1, 1, 2] {
        g.select(i);
        assert_eq!(g.selected(), i);
        assert_eq!(g.current(), &g.options()[i]);
    }
    assert_eq!(g.current().name(), "Silver");
}

#[test]
fn option_names_follow_the_options() {
    let g = MaterialCollection::fabrics();
    assert_eq!(g.label(), "Fabrics");
    assert_eq!(g.option_names(), vec!["Pink Fabric".to_string(), "Dark Fabric".to_string()]);
}

#[test]
fn mono_group_is_labelled_by_its_material() {
    let g = MaterialCollection::mono(Material::black_plastic());
    assert_eq!(g.label(), "Black Plastic");
    assert_eq!(g.len(), 1);
    assert_eq!(g.current(), &Material::black_plastic());
}
