use vstd::prelude::*;

use crate::brush::{clamp_u8, BrushShape, BrushState, MAX_DENSITY, MAX_SIZE, MIN_DENSITY, MIN_SIZE};
use crate::events::ToolboxEvent;
use crate::keys::{KeyCode, KeyModifiers, MOD_CONTROL};
use crate::text::ascii_lower_char;

verus! {

/// The toolbox column: the brush, and the tools by their shortcut
/// characters (`None` for a tool whose shortcut is not a character), with
/// the selected tool's position among them.
pub struct ToolboxComponent {
    pub tool_shortcuts: Vec<Option<char>>,
    pub selected_tool: usize,
    pub brush: BrushState,
}

/// The position of the first tool whose shortcut is `c`, from position
/// `k` on.
pub open spec fn tool_for(shortcuts: Seq<Option<char>>, c: char, k: int) -> Option<usize>
    decreases shortcuts.len() - k,
{
    if k < 0 || k >= shortcuts.len() {
        None
    } else if shortcuts[k] == Some(c) {
        Some(k as usize)
    } else {
        tool_for(shortcuts, c, k + 1)
    }
}

/// What a key does in the toolbox: `[` `]` shrink and grow the brush, `;`
/// `'` thin and thicken the spray, `\\` cycles its shape; any other
/// character without Control selects the tool with that shortcut (in lower
/// case), if there is one.
pub open spec fn toolbox_key_post(pre: ToolboxComponent, post: ToolboxComponent, code: KeyCode, m: KeyModifiers, r: Option<ToolboxEvent>) -> bool {
    let b = pre.brush;
    let brushed = |nb: BrushState| r == Some(ToolboxEvent::BrushChanged) && post.brush == nb
        && post.tool_shortcuts == pre.tool_shortcuts && post.selected_tool == pre.selected_tool;
    match code {
        KeyCode::Char(c) => if c == '[' {
            brushed(BrushState { size: if b.size > MIN_SIZE { (b.size - 1) as u8 } else { b.size }, ..b })
        } else if c == ']' {
            brushed(BrushState { size: if b.size < MAX_SIZE { (b.size + 1) as u8 } else { b.size }, ..b })
        } else if c == ';' {
            brushed(BrushState { density: if b.density > MIN_DENSITY { (b.density - 1) as u8 } else { b.density }, ..b })
        } else if c == '\'' {
            brushed(BrushState { density: if b.density < MAX_DENSITY { (b.density + 1) as u8 } else { b.density }, ..b })
        } else if c == '\\' {
            brushed(BrushState { shape: b.shape.spec_cycle(), ..b })
        } else if !m.spec_contains(KeyModifiers { bits: MOD_CONTROL }) && tool_for(pre.tool_shortcuts@, ascii_lower_char(c), 0) is Some {
            r == Some(ToolboxEvent::ToolSelected) && post == (ToolboxComponent {
                selected_tool: tool_for(pre.tool_shortcuts@, ascii_lower_char(c), 0).unwrap(),
                ..pre
            })
        } else {
            r is None && post == pre
        },
        _ => r is None && post == pre,
    }
}

fn to_ascii_lowercase(c: char) -> (r: char)
    ensures
        r == ascii_lower_char(c),
{
    if 'A' <= c && c <= 'Z' {
        let b = (c as u8) + 32;
        assert(b as u32 == (c as u32) + 32);
        b as char
    } else {
        c
    }
}

impl ToolboxComponent {
    /// The toolbox for tools with these shortcuts, the first selected, and
    /// a new brush.
    pub fn new(tool_shortcuts: Vec<Option<char>>) -> (t: ToolboxComponent)
        ensures
            t.tool_shortcuts == tool_shortcuts,
            t.selected_tool == 0,
            t.brush.shape == BrushShape::Square,
            t.brush.size == 3,
    {
        ToolboxComponent { tool_shortcuts, selected_tool: 0, brush: BrushState::new() }
    }

    fn find_tool(&self, c: char) -> (r: Option<usize>)
        ensures
            r == tool_for(self.tool_shortcuts@, c, 0),
    {
        let mut k: usize = 0;
        while k < self.tool_shortcuts.len()
            invariant
                k <= self.tool_shortcuts@.len(),
                tool_for(self.tool_shortcuts@, c, 0) == tool_for(self.tool_shortcuts@, c, k as int),
            decreases self.tool_shortcuts@.len() - k,
        {
            if self.tool_shortcuts[k] == Some(c) {
                return Some(k);
            }
            k = k + 1;
        }
        None
    }

    /// A key with `modifiers` held: see `toolbox_key_post`.
    pub fn handle_key(&mut self, code: KeyCode, modifiers: KeyModifiers) -> (r: Option<ToolboxEvent>)
        ensures
            toolbox_key_post(*old(self), *final(self), code, modifiers, r),
    {
        match code {
            KeyCode::Char(c) => {
                if c == '[' {
                    self.brush.size_down();
                    Some(ToolboxEvent::BrushChanged)
                } else if c == ']' {
                    self.brush.size_up();
                    Some(ToolboxEvent::BrushChanged)
                } else if c == ';' {
                    self.brush.density_down();
                    Some(ToolboxEvent::BrushChanged)
                } else if c == '\'' {
                    self.brush.density_up();
                    Some(ToolboxEvent::BrushChanged)
                } else if c == '\\' {
                    self.brush.cycle_shape();
                    Some(ToolboxEvent::BrushChanged)
                } else if !modifiers.contains(KeyModifiers { bits: MOD_CONTROL }) {
                    match self.find_tool(to_ascii_lowercase(c)) {
                        Some(i) => {
                            self.selected_tool = i;
                            Some(ToolboxEvent::ToolSelected)
                        },
                        None => None,
                    }
                } else {
                    None
                }
            },
            _ => None,
        }
    }
}

} // verus!
