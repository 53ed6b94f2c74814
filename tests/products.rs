use cfg3demo::assembly::{Assy, ConfigPart, Include};
use cfg3demo::component::Body;
use cfg3demo::controls::{Binding, Change, Control};
use cfg3demo::material::{Material, MaterialCollection};
use cfg3demo::part::Part;
use cfg3demo::product::Product;

fn realize(shape: &String, m: &Material) -> String {
    format!("{}:{}", shape, m.name())
}

fn push(d: String, m: &Material) -> String {
    let shape = d.split(':').next().unwrap_or("").to_string();
    format!("{}:{}", shape, m.name())
}

fn lamp() -> Product<String, String> {
    let mut toggles = Vec::new();
    let shade = Include::optinal("Shade".to_string(), true, &mut toggles);
    let parts = vec![
        ConfigPart::new("foot".to_string(), Body::new("foot".to_string()), 0, Include::MustHave),
        ConfigPart::new("shade".to_string(), Body::new("shade".to_string()), 1, shade),
    ];
    let groups = vec![MaterialCollection::metals(), MaterialCollection::fabrics()];
    let assy = Assy::new(parts, groups, toggles);
    let standalone = vec![
        Part::new("Cable".to_string(), "cable".to_string(), MaterialCollection::mono(Material::black_plastic()), false),
        Part::new("Switch".to_string(), "switch".to_string(), MaterialCollection::metals(), true),
    ];
    Product::new("Lamp".to_string(), standalone, vec![assy])
}

#[test]
fn objects_list_assemblies_before_parts() {
    let mut p = lamp();
    p.init(&realize);
    let objects: Vec<String> = p.objects().into_iter().cloned().collect();
    assert_eq!(objects, vec!["foot:Aluminium", "shade:Pink Fabric", "cable:Black Plastic", "switch:Aluminium"]);
}

#[test]
fn objects_read_twice_are_the_same() {
    let mut p = lamp();
    p.init(&realize);
    let first: Vec<String> = p.objects().into_iter().cloned().collect();
    let second: Vec<String> = p.objects().into_iter().cloned().collect();
    assert_eq!(first, second);
}

#[test]
fn shapes_list_parts_before_assemblies() {
    let p = lamp();
    let shapes: Vec<String> = p.shapes().into_iter().cloned().collect();
    assert_eq!(shapes, vec!["cable", "switch", "foot", "shade"]);
}

#[test]
fn product_panel_has_heading_parts_then_assemblies() {
    let p = lamp();
    let metals = vec!["Aluminium".to_string(), "Gold".to_string(), "Silver".to_string()];
    assert_eq!(
        p.controls(),
        vec![
            Control::Heading("Lamp".to_string()),
            Control::Space,
            Control::Space,
            Control::Checkbox { text: "Switch".to_string(), checked: true, binding: Binding::PartToggle(1) },
            Control::Picker {
                options: metals.clone(),
                selected: 0,
                framed: true,
                enabled: true,
                binding: Binding::PartMaterial(1),
            },
            Control::Space,
            Control::Checkbox { text: "Shade".to_string(), checked: true, binding: Binding::AssyToggle(0, 0) },
            Control::Space,
            Control::Label("Metals".to_string()),
            Control::Picker {
                options: metals,
                selected: 0,
                framed: false,
                enabled: true,
                binding: Binding::AssyMaterial(0, 0),
            },
            Control::Space,
            Control::Label("Fabrics".to_string()),
            Control::Picker {
                options: vec!["Pink Fabric".to_string(), "Dark Fabric".to_string()],
                selected: 0,
                framed: false,
                enabled: true,
                binding: Binding::AssyMaterial(0, 1),
            },
        ]
    );
}

#[test]
fn changes_reach_their_target() {
    let mut p = lamp();
    p.init(&realize);
    assert!(p.apply(Change::Check { binding: Binding::AssyToggle(0, 0), on: false }));
    assert!(p.apply(Change::Check { binding: Binding::PartToggle(1), on: false }));
    assert!(p.apply(Change::Pick { binding: Binding::AssyMaterial(0, 0), option: 1 }));
    assert!(p.apply(Change::Pick { binding: Binding::PartMaterial(1), option: 2 }));
    p.update(&push);
    let objects: Vec<String> = p.objects().into_iter().cloned().collect();
    assert_eq!(objects, vec!["foot:Gold", "cable:Black Plastic"]);
    assert!(!p.parts()[1].is_in());
    assert_eq!(p.parts()[1].material().name(), "Silver");
    assert_eq!(p.parts()[1].body().shown().name(), "Silver");
}

#[test]
fn changes_to_nothing_are_refused() {
    let mut p = lamp();
    assert!(!p.apply(Change::Check { binding: Binding::PartToggle(0), on: false }));
    assert!(!p.apply(Change::Check { binding: Binding::PartToggle(5), on: false }));
    assert!(!p.apply(Change::Pick { binding: Binding::PartMaterial(0), option: 1 }));
    assert!(!p.apply(Change::Check { binding: Binding::AssyToggle(1, 0), on: false }));
    assert!(!p.apply(Change::Check { binding: Binding::AssyToggle(0, 1), on: false }));
    assert!(!p.apply(Change::Pick { binding: Binding::AssyMaterial(0, 2), option: 0 }));
    assert!(!p.apply(Change::Pick { binding: Binding::AssyMaterial(0, 0), option: 3 }));
    assert!(!p.apply(Change::Check { binding: Binding::PartMaterial(1), on: true }));
    assert!(!p.apply(Change::Pick { binding: Binding::AssyToggle(0, 0), option: 0 }));
    assert!(p.parts()[0].is_in());
    assert_eq!(p.assys()[0].toggles(), &[true]);
    assert_eq!(p.assys()[0].groups()[0].selected(), 0);
}

#[test]
fn product_name_and_members() {
    let p = lamp();
    assert_eq!(p.name(), "Lamp");
    assert_eq!(p.parts().len(), 2);
    assert_eq!(p.assys().len(), 1);
}

#[test]
fn fixed_part_with_one_material_has_no_controls() {
    let part: Part<String, String> =
        Part::new("Cable".to_string(), "cable".to_string(), MaterialCollection::mono(Material::black_plastic()), false);
    assert!(part.controls(0).is_empty());
}

#[test]
fn optional_part_with_one_material_has_a_checkbox_only() {
    let part: Part<String, String> =
        Part::new("Lid".to_string(), "lid".to_string(), MaterialCollection::mono(Material::gold()), true);
    assert_eq!(
        part.controls(2),
        vec![Control::Checkbox { text: "Lid".to_string(), checked: true, binding: Binding::PartToggle(2) }]
    );
}

#[test]
fn fixed_part_with_a_choice_has_a_label_and_picker() {
    let part: Part<String, String> =
        Part::new("Frame".to_string(), "frame".to_string(), MaterialCollection::fabrics(), false);
    let controls = part.controls(1);
    assert_eq!(controls[0], Control::Label("Frame".to_string()));
    assert_eq!(
        controls[1],
        Control::Picker {
            options: vec!["Pink Fabric".to_string(), "Dark Fabric".to_string()],
            selected: 0,
            framed: true,
            enabled: true,
            binding: Binding::PartMaterial(1),
        }
    );
}

#[test]
fn opted_out_part_disables_its_picker_and_hides() {
    let mut part: Part<String, String> =
        Part::new("Arm".to_string(), "arm".to_string(), MaterialCollection::metals(), true);
    part.init(&realize);
    assert_eq!(part.object(), Some(&"arm:Aluminium".to_string()));
    assert!(part.set_opt_in(false));
    assert_eq!(part.object(), None);
    match &part.controls(0)[1] {
        Control::Picker { enabled, .. } => assert!(!enabled),
        other => panic!("expected a picker, got {:?}", other),
    }
}

#[test]
fn fixed_part_cannot_be_opted_out() {
    let mut part: Part<String, String> =
        Part::new("Seat".to_string(), "seat".to_string(), MaterialCollection::metals(), false);
    assert!(!part.set_opt_in(false));
    assert!(part.is_in());
    assert!(!part.is_optional());
    assert!(part.select(1));
    assert!(!part.select(3));
    assert_eq!(part.material().name(), "Gold");
    assert_eq!(part.group().selected(), 1);
    assert_eq!(part.shape(), "seat");
    assert_eq!(part.name(), "Seat");
}

#[test]
fn part_update_before_init_is_skipped() {
    let mut part: Part<String, String> =
        Part::new("Seat".to_string(), "seat".to_string(), MaterialCollection::metals(), false);
    assert!(!part.update(&push));
    part.init(&realize);
    part.select(2);
    assert!(part.update(&push));
    assert_eq!(part.object(), Some(&"seat:Silver".to_string()));
}
