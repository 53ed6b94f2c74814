use vstd::prelude::*;

verus! {

/// The piece of configuration state that a control reads and sets.
#[derive(Clone, Copy, Debug, PartialEq, Eq, Structural)]
pub enum Binding {
    /// The opt-in flag of a standalone part of a product.
    PartToggle(usize),
    /// The material group of a standalone part of a product.
    PartMaterial(usize),
    /// A toggle of an assembly: the assembly, then the toggle.
    AssyToggle(usize, usize),
    /// A material group of an assembly: the assembly, then the group.
    AssyMaterial(usize, usize),
}

/// One entry of a control panel, in the order it is shown.
#[derive(Debug, PartialEq)]
pub enum Control {
    Heading(String),
    Label(String),
    Space,
    /// A checkbox bound to a flag.
    Checkbox { text: String, checked: bool, binding: Binding },
    /// One radio button per option, bound to a selection; `framed` draws
    /// the buttons in a frame, and they only react when `enabled`.
    Picker { options: Vec<String>, selected: usize, framed: bool, enabled: bool, binding: Binding },
}

pub enum ControlView {
    Heading(Seq<char>),
    Label(Seq<char>),
    Space,
    Checkbox { text: Seq<char>, checked: bool, binding: Binding },
    Picker { options: Seq<Seq<char>>, selected: int, framed: bool, enabled: bool, binding: Binding },
}

/// The text of each string.
pub open spec fn texts(s: Seq<String>) -> Seq<Seq<char>> {
    s.map_values(|t: String| t@)
}

impl View for Control {
    type V = ControlView;

    open spec fn view(&self) -> ControlView {
        match self {
            Control::Heading(t) => ControlView::Heading(t@),
            Control::Label(t) => ControlView::Label(t@),
            Control::Space => ControlView::Space,
            Control::Checkbox { text, checked, binding } => ControlView::Checkbox {
                text: text@,
                checked: *checked,
                binding: *binding,
            },
            Control::Picker { options, selected, framed, enabled, binding } => ControlView::Picker {
                options: texts(options@),
                selected: *selected as int,
                framed: *framed,
                enabled: *enabled,
                binding: *binding,
            },
        }
    }
}

/// The views of a sequence of controls.
pub open spec fn panel(s: Seq<Control>) -> Seq<ControlView> {
    s.map_values(|c: Control| c@)
}

/// A user's input on a control panel.
#[derive(Clone, Copy, Debug, PartialEq, Eq, Structural)]
pub enum Change {
    /// A checkbox was set to `on`.
    Check { binding: Binding, on: bool },
    /// A radio button was picked.
    Pick { binding: Binding, option: usize },
}

} // verus!
