use vstd::prelude::*;

use crate::lighting::LightKind;

verus! {

/// The list of lights and which one is selected.
#[derive(Debug, Clone, Copy)]
pub struct LightPanel {
    pub selected_index: usize,
}

/// The name of a kind of light.
pub open spec fn light_kind_name(k: LightKind) -> Seq<char> {
    match k {
        LightKind::Ambient => "Ambient"@,
        LightKind::Directional => "Directional"@,
        LightKind::Point => "Point"@,
    }
}

impl LightPanel {
    /// A panel selecting the first light.
    pub fn new() -> (p: LightPanel)
        ensures
            p.selected_index == 0,
    {
        LightPanel { selected_index: 0 }
    }

    pub fn selected_index(&self) -> (i: usize)
        ensures
            i == self.selected_index,
    {
        self.selected_index
    }

    /// Select light `idx` of a scene with `light_count` lights, kept within
    /// the list (0 when there is none).
    pub fn set_selected(&mut self, idx: usize, light_count: usize)
        ensures
            final(self).selected_index == (if light_count == 0 {
                0
            } else if idx < light_count - 1 {
                idx
            } else {
                (light_count - 1) as usize
            }),
    {
        if light_count == 0 {
            self.selected_index = 0;
        } else {
            self.selected_index = if idx < light_count - 1 {
                idx
            } else {
                light_count - 1
            };
        }
    }

    /// The name of light `idx` among `kinds`, the kinds of a scene's lights
    /// in order; `None` past the end.
    pub fn light_type_str(kinds: &[LightKind], idx: usize) -> (r: Option<&'static str>)
        ensures
            idx < kinds@.len() ==> r is Some && r.unwrap()@ == light_kind_name(kinds@[idx as int]),
            idx >= kinds@.len() ==> r is None,
    {
        if idx < kinds.len() {
            Some(match kinds[idx] {
                LightKind::Ambient => "Ambient",
                LightKind::Directional => "Directional",
                LightKind::Point => "Point",
            })
        } else {
            None
        }
    }
}

impl Default for LightPanel {
    fn default() -> (p: LightPanel)
        ensures
            p.selected_index == 0,
    {
        LightPanel::new()
    }
}

} // verus!
