use cfg3demo::assembly::{Assy, ConfigPart, Include};
use cfg3demo::component::Body;
use cfg3demo::controls::{Binding, Control};
use cfg3demo::material::{Material, MaterialCollection};

#[derive(Debug, Clone, PartialEq)]
struct Drawn {
    shape: String,
    material: String,
    pushes: u32,
}

fn realize(shape: &&'static str, m: &Material) -> Drawn {
    Drawn { shape: shape.to_string(), material: m.name().to_string(), pushes: 0 }
}

fn push(d: Drawn, m: &Material) -> Drawn {
    Drawn { material: m.name().to_string(), pushes: d.pushes + 1, ..d }
}

fn part(name: &'static str, material: usize, inclusion: Include) -> ConfigPart<&'static str, Drawn> {
    ConfigPart::new(name.to_string(), Body::new(name), material, inclusion)
}

fn shown(a: &Assy<&'static str, Drawn>) -> Vec<String> {
    a.objects().iter().map(|d| d.shape.clone()).collect()
}

fn chair() -> Assy<&'static str, Drawn> {
    let names = ["Plastic Parts", "Base Frame", "Arm Frame", "Fabrics", "Arm Fabrics"];
    Assy::chair(names.iter().map(|n| (n.to_string(), Body::new(*n))).collect())
}

#[test]
fn optional_inclusion_adds_a_toggle() {
    let mut toggles = vec![false];
    let inc = Include::optinal("Arms".to_string(), true, &mut toggles);
    assert_eq!(toggles, vec![false, true]);
    assert_eq!(inc.get_toggle(), Some(("Arms", 1)));
    assert!(inc.is_show(&toggles));
    toggles[1] = false;
    assert!(!inc.is_show(&toggles));
    assert_eq!(Include::MustHave.get_toggle(), None);
    assert!(Include::MustHave.is_show(&toggles));
}

#[test]
fn inclusions_are_equal_by_toggle() {
    let mut toggles = Vec::new();
    let a = Include::optinal("Same".to_string(), true, &mut toggles);
    let b = Include::optinal("Same".to_string(), true, &mut toggles);
    assert!(a != b);
    assert!(a == a.clone());
    let relabelled = Include::Optional { label: "Other".to_string(), opt_in: 0 };
    assert!(a == relabelled);
    assert!(Include::MustHave == Include::MustHave);
    assert!(Include::MustHave != a);
}

#[test]
fn chair_lists_each_group_and_toggle_once() {
    let a = chair();
    assert_eq!(a.len(), 5);
    assert_eq!(a.materials(), &[2, 0, 1]);
    assert_eq!(a.inclusions().len(), 2);
    assert!(a.inclusions()[0] == Include::MustHave);
    assert_eq!(a.inclusions()[1].get_toggle(), Some(("Arms", 0)));
    assert_eq!(a.toggles(), &[true]);
    assert_eq!(a.groups()[0].label(), "Metals");
    assert_eq!(a.groups()[1].label(), "Fabrics");
    assert_eq!(a.groups()[2].label(), "Black Plastic");
    let groups: Vec<usize> = a.parts().iter().map(|p| p.material()).collect();
    assert_eq!(groups, vec![2, 0, 0, 1, 1]);
    assert_eq!(a.parts()[2].name(), "Arm Frame");
}

#[test]
fn unshared_parts_list_as_many_groups_and_toggles() {
    let mut toggles = Vec::new();
    let t0 = Include::optinal("A".to_string(), true, &mut toggles);
    let t1 = Include::optinal("B".to_string(), true, &mut toggles);
    let groups = vec![MaterialCollection::metals(), MaterialCollection::fabrics()];
    let a: Assy<&'static str, Drawn> = Assy::new(vec![part("a", 0, t0), part("b", 1, t1)], groups, toggles);
    assert_eq!(a.materials().len(), a.len());
    assert_eq!(a.inclusions().len(), a.len());
}

#[test]
fn shared_toggle_shows_and_hides_parts_together() {
    let mut a = chair();
    a.init(&realize);
    assert_eq!(shown(&a), vec!["Plastic Parts", "Base Frame", "Arm Frame", "Fabrics", "Arm Fabrics"]);
    assert!(a.set_toggle(0, false));
    assert_eq!(shown(&a), vec!["Plastic Parts", "Base Frame", "Fabrics"]);
    assert!(a.set_toggle(0, true));
    assert_eq!(shown(&a).len(), 5);
    assert!(!a.set_toggle(1, false));
    assert_eq!(a.toggles(), &[true]);
}

#[test]
fn shapes_do_not_depend_on_toggles() {
    let mut a = chair();
    let before: Vec<&str> = a.shapes().into_iter().copied().collect();
    a.set_toggle(0, false);
    let after: Vec<&str> = a.shapes().into_iter().copied().collect();
    assert_eq!(before, after);
    assert_eq!(after, vec!["Plastic Parts", "Base Frame", "Arm Frame", "Fabrics", "Arm Fabrics"]);
}

#[test]
fn two_parts_share_a_group_and_one_toggle() {
    let mut toggles = Vec::new();
    let opt = Include::optinal("Second".to_string(), true, &mut toggles);
    let a_mat = Material::gold();
    let b_mat = Material::silver();
    let groups = vec![MaterialCollection::new("Finish".to_string(), vec![a_mat, b_mat])];
    let mut a = Assy::new(vec![part("one", 0, Include::MustHave), part("two", 0, opt)], groups, toggles);
    a.init(&realize);
    assert_eq!(shown(&a), vec!["one", "two"]);
    a.set_toggle(0, false);
    assert_eq!(shown(&a), vec!["one"]);
    assert!(a.select(0, 1));
    a.update(&push);
    for p in a.parts() {
        assert_eq!(p.body().shown(), &Material::silver());
        assert_eq!(p.body().object().material, "Silver");
        assert_eq!(p.body().object().pushes, 1);
    }
}

#[test]
fn single_option_group_gets_no_picker() {
    let mut toggles = Vec::new();
    let opt = Include::optinal("Cover".to_string(), false, &mut toggles);
    let groups = vec![MaterialCollection::mono(Material::black_plastic()), MaterialCollection::metals()];
    let mut a = Assy::new(vec![part("base", 0, Include::MustHave), part("cover", 1, opt)], groups, toggles);
    assert_eq!(a.materials(), &[0, 1]);
    let controls = a.controls(3);
    assert_eq!(
        controls,
        vec![
            Control::Space,
            Control::Checkbox { text: "Cover".to_string(), checked: false, binding: Binding::AssyToggle(3, 0) },
            Control::Space,
            Control::Label("Metals".to_string()),
            Control::Picker {
                options: vec!["Aluminium".to_string(), "Gold".to_string(), "Silver".to_string()],
                selected: 0,
                framed: false,
                enabled: true,
                binding: Binding::AssyMaterial(3, 1),
            },
        ]
    );
    a.init(&realize);
    a.set_toggle(0, true);
    let objects = a.objects();
    assert_eq!(objects[0].material, "Black Plastic");
    assert_eq!(objects[1].material, "Aluminium");
}

#[test]
fn chair_controls_put_checkboxes_first() {
    let a = chair();
    let controls = a.controls(0);
    assert_eq!(controls.len(), 8);
    assert_eq!(controls[0], Control::Space);
    assert_eq!(
        controls[1],
        Control::Checkbox { text: "Arms".to_string(), checked: true, binding: Binding::AssyToggle(0, 0) }
    );
    assert_eq!(controls[3], Control::Label("Metals".to_string()));
    assert_eq!(controls[6], Control::Label("Fabrics".to_string()));
    assert_eq!(a.configure_controls(0).len(), 2);
    assert_eq!(a.material_controls(0).len(), 6);
}

#[test]
fn update_before_init_changes_nothing() {
    let mut a = chair();
    a.update(&push);
    assert!(a.parts().iter().all(|p| !p.body().is_init()));
    a.init(&realize);
    assert!(a.parts().iter().all(|p| p.body().is_init() && p.body().object().pushes == 0));
}

#[test]
fn refused_selection_changes_nothing() {
    let mut a = chair();
    assert!(!a.select(3, 0));
    assert!(!a.select(2, 1));
    assert!(a.select(0, 2));
    assert_eq!(a.groups()[0].current().name(), "Silver");
}

#[test]
fn init_realizes_each_part_in_its_group_selection() {
    let mut a = chair();
    a.select(1, 1);
    a.init(&realize);
    let materials: Vec<String> = a.objects().iter().map(|d| d.material.clone()).collect();
    assert_eq!(materials, vec!["Black Plastic", "Aluminium", "Aluminium", "Dark Fabric", "Dark Fabric"]);
}

#[test]
fn body_update_reports_whether_it_applied() {
    let mut b: Body<&'static str, Drawn> = Body::new("cube");
    assert!(!b.is_init());
    assert!(!b.update(&Material::gold(), &push));
    assert!(!b.is_init());
    b.init(&Material::gold(), &realize);
    assert_eq!(b.shape(), &"cube");
    assert!(b.update(&Material::silver(), &push));
    assert_eq!(b.shown(), &Material::silver());
    assert_eq!(b.object(), &Drawn { shape: "cube".to_string(), material: "Silver".to_string(), pushes: 1 });
}
