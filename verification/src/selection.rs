//! The interactive selector's state machine.
//!
//! The selector shows the commands in index order, with a synthetic
//! rerun entry last when a previous command exists.  All state lives in
//! a [`UiState`] value; every input event goes through a pure transition
//! function from state and event to new state and, possibly, a committed
//! [`CommandChoice`].  Drawing and event polling stay outside.

use vstd::prelude::*;
use vstd::string::{StrSliceExecFns, StringExecFns};

use core::cmp::Ordering;

use crate::command_definitions::{spec_same_template, CommandDefinition, CommandExecutionTemplate};
use crate::numerals::{parse_usize, spec_decimal, spec_parse_usize, to_decimal};

verus! {

/// The key that commits the rerun entry directly.
pub const LAST_COMMAND_OPTION: char = 'r';

/// The user's selection: a command by position, a command by id, the
/// previous command again, or leaving without one.
#[derive(Debug)]
pub enum CommandChoice {
    Index(usize),
    CommandId(String),
    Rerun(CommandExecutionTemplate),
    Quit,
}

/// The user's answer when asked to confirm a run.
#[derive(Debug, Clone, Copy, PartialEq, Eq, Structural)]
pub enum RunChoice {
    Yes,
    No,
    ChangeParams,
}

/// Which way the selection moves.
#[derive(Debug, Clone, Copy, PartialEq, Eq, Structural)]
pub enum CycleDirection {
    Up,
    Down,
}

/// A row of the selection list: a stored command by position, or the
/// synthetic rerun entry.
#[derive(Debug, Clone, PartialEq, Eq, Structural, Hash)]
pub enum CommandIndex {
    Normal(usize),
    Rerun,
}

/// A row's content in the selection list: a stored command, or the
/// previous command offered for a rerun.
#[derive(Debug, Clone)]
pub enum CommandForDisplay {
    Normal(CommandDefinition),
    Rerun(CommandExecutionTemplate),
}

impl CommandForDisplay {
    /// The label the selection list shows for this row.
    pub fn display_name(&self) -> (r: String)
        ensures
            r@ == (match self {
                CommandForDisplay::Normal(n) => crate::command_definitions::spec_command_display_name(n),
                CommandForDisplay::Rerun(t) => crate::command_definitions::join_spaces(
                    t.command.deep_view(),
                ),
            }),
    {
        match self {
            CommandForDisplay::Normal(n) => n.display_name(),
            CommandForDisplay::Rerun(t) => t.display_name(),
        }
    }
}

/// Whether the interface is filtering.
#[derive(Debug, Clone, PartialEq)]
pub struct DisplayMode {
    pub is_filtering: bool,
}

/// The visible window into the list: its first row, and the terminal's
/// usable height and width.
#[derive(Debug, Clone, Copy, PartialEq, Eq, Structural)]
pub struct ViewportState {
    pub offset: usize,
    pub height: u16,
    pub width: u16,
}

/// The whole state of the selector: the selected row of the filtered
/// list, the viewport, and the filter.
#[derive(Debug, Clone, PartialEq)]
pub struct UiState {
    pub selected_index: usize,
    pub viewport: ViewportState,
    pub is_filtering: bool,
    pub filter_text: String,
}

impl CommandIndex {
    /// Orders rows: stored commands by position, the rerun entry last.
    pub fn compare(&self, other: &Self) -> (r: Ordering)
        ensures
            r == (match (self, other) {
                (CommandIndex::Normal(a), CommandIndex::Normal(b)) => if *a < *b {
                    Ordering::Less
                } else if *a == *b {
                    Ordering::Equal
                } else {
                    Ordering::Greater
                },
                (CommandIndex::Rerun, CommandIndex::Normal(_)) => Ordering::Greater,
                (CommandIndex::Normal(_), CommandIndex::Rerun) => Ordering::Less,
                (CommandIndex::Rerun, CommandIndex::Rerun) => Ordering::Equal,
            }),
    {
        match (self, other) {
            (CommandIndex::Normal(a), CommandIndex::Normal(b)) => if a < b {
                Ordering::Less
            } else if a == b {
                Ordering::Equal
            } else {
                Ordering::Greater
            },
            (CommandIndex::Rerun, CommandIndex::Normal(_)) => Ordering::Greater,
            (CommandIndex::Normal(_), CommandIndex::Rerun) => Ordering::Less,
            (CommandIndex::Rerun, CommandIndex::Rerun) => Ordering::Equal,
        }
    }

    /// The row's label in the index column: its one-based position, or
    /// `r` for the rerun entry.
    pub fn display_string(&self) -> (r: String)
        requires
            self matches CommandIndex::Normal(i) ==> i < usize::MAX,
        ensures
            r@ == spec_index_string(*self),
    {
        match self {
            CommandIndex::Normal(i) => to_decimal(*i + 1),
            CommandIndex::Rerun => {
                let s: String = "r".to_owned();
                proof {
                    reveal_strlit("r");
                    assert(s@ =~= seq!['r']);
                }
                s
            },
        }
    }
}

/// The label of a row in the index column.
pub open spec fn spec_index_string(ci: CommandIndex) -> Seq<char> {
    match ci {
        CommandIndex::Normal(i) => spec_decimal((i + 1) as nat),
        CommandIndex::Rerun => seq!['r'],
    }
}

/// `n` spaces.
pub open spec fn spec_spaces(n: int) -> Seq<char> {
    Seq::new(if n >= 0 {
        n as nat
    } else {
        0
    }, |i: int| ' ')
}

/// A value padded on the left with spaces to the width of the numeral
/// of `max_number`.
pub open spec fn spec_padded(value: Seq<char>, max_number: int) -> Seq<char> {
    let width = spec_decimal(if max_number >= 0 {
        max_number as nat
    } else {
        0
    }).len() as int;
    if value.len() >= width {
        value
    } else {
        spec_spaces(width - value.len()) + value
    }
}

/// Pads a value on the left with spaces to the width of the numeral of
/// `max_number`, so that index columns line up.
pub fn pad_to_width_of(value: &String, max_number: usize) -> (r: String)
    ensures
        r@ == spec_padded(value@, max_number as int),
{
    let width_string = to_decimal(max_number);
    let width = width_string.as_str().unicode_len();
    let n = value.as_str().unicode_len();
    let mut out = String::new();
    if n < width {
        let mut k: usize = 0;
        while k < width - n
            invariant
                k <= width - n,
                n < width,
                out@ =~= spec_spaces(k as int),
            decreases width - n - k,
        {
            crate::numerals::push_char(&mut out, ' ');
            k += 1;
            proof {
                assert(out@ =~= spec_spaces(k as int));
            }
        }
    }
    out.append(value.as_str());
    proof {
        if n >= width {
            assert(out@ =~= value@);
        }
    }
    out
}

/// The selection and viewport offset after one cyclic move: moving off
/// either end wraps to the other, and the offset follows so that the
/// selection stays visible.
pub open spec fn spec_move(sel: int, offset: int, height: int, n: int, dir: CycleDirection) -> (
    int,
    int,
) {
    let room = if height >= 1 {
        height - 1
    } else {
        0
    };
    if n == 0 {
        (sel, offset)
    } else {
        match dir {
            CycleDirection::Up => if sel == 0 {
                let ns = n - 1;
                (ns, if ns >= room {
                    ns - room
                } else {
                    0
                })
            } else {
                let ns = sel - 1;
                (ns, if ns < offset {
                    ns
                } else {
                    offset
                })
            },
            CycleDirection::Down => {
                let ns = if sel + 1 == n {
                    0
                } else {
                    sel + 1
                };
                (
                    ns,
                    if ns < sel {
                        0
                    } else if ns >= offset + height {
                        ns - height + 1
                    } else {
                        offset
                    },
                )
            },
        }
    }
}

/// Moves the selection one row up or down, cyclically, keeping it
/// visible.
pub fn move_selected_index(
    ui_state: &UiState,
    commands_to_display_length: usize,
    direction: &CycleDirection,
) -> (r: UiState)
    requires
        commands_to_display_length > 0 ==> ui_state.selected_index < commands_to_display_length,
    ensures
        r.is_filtering == ui_state.is_filtering,
        r.filter_text@ == ui_state.filter_text@,
        r.viewport.height == ui_state.viewport.height,
        r.viewport.width == ui_state.viewport.width,
        (r.selected_index as int, r.viewport.offset as int) == spec_move(
            ui_state.selected_index as int,
            ui_state.viewport.offset as int,
            ui_state.viewport.height as int,
            commands_to_display_length as int,
            *direction,
        ),
{
    let n = commands_to_display_length;
    let mut new_index = ui_state.selected_index;
    let mut new_offset = ui_state.viewport.offset;
    let height = ui_state.viewport.height as usize;
    let room: usize = if height >= 1 {
        height - 1
    } else {
        0
    };
    if n > 0 {
        match direction {
            CycleDirection::Up => {
                if new_index == 0 {
                    new_index = n - 1;
                    new_offset = if new_index >= room {
                        new_index - room
                    } else {
                        0
                    };
                } else {
                    new_index = new_index - 1;
                    if new_index < new_offset {
                        new_offset = new_index;
                    }
                }
            },
            CycleDirection::Down => {
                let old_index = new_index;
                new_index = if old_index + 1 == n {
                    0
                } else {
                    old_index + 1
                };
                if new_index < old_index {
                    new_offset = 0;
                } else if new_index >= new_offset && new_index - new_offset >= height {
                    new_offset = new_index - height + 1;
                }
            },
        }
    }
    UiState {
        selected_index: new_index,
        viewport: ViewportState {
            offset: new_offset,
            height: ui_state.viewport.height,
            width: ui_state.viewport.width,
        },
        is_filtering: ui_state.is_filtering,
        filter_text: ui_state.filter_text.clone(),
    }
}

/// The law of the wraparound: stepping down from the tail returns to
/// the head and resets the viewport to the top; stepping up from the
/// head jumps to the tail and places the viewport so that the tail row
/// is visible.
pub proof fn lemma_selection_wraparound(sel: int, offset: int, height: int, n: int)
    requires
        n > 0,
        0 <= offset,
    ensures
        n > 1 && sel == n - 1 ==> spec_move(sel, offset, height, n, CycleDirection::Down) == (
            0int,
            0int,
        ),
        spec_move(0, offset, height, n, CycleDirection::Up).0 == n - 1,
        height >= 1 ==> {
            let tail_offset = spec_move(0, offset, height, n, CycleDirection::Up).1;
            tail_offset <= n - 1 < tail_offset + height
        },
{
}

/// The law of selection validity: a move over a non-empty list lands on
/// a valid row, and the viewport offset stays non-negative.
pub proof fn lemma_selection_stays_valid(
    sel: int,
    offset: int,
    height: int,
    n: int,
    dir: CycleDirection,
)
    requires
        n > 0,
        0 <= sel < n,
        0 <= offset,
    ensures
        0 <= spec_move(sel, offset, height, n, dir).0 < n,
        0 <= spec_move(sel, offset, height, n, dir).1,
{
}

/// The viewport offset after the terminal is resized: growing reveals
/// more rows above the selection; shrinking keeps the selection inside
/// the new window, clamped to the end of the list.
pub open spec fn spec_resize(
    sel: int,
    old_offset: int,
    old_height: int,
    new_height: int,
    list_len: int,
) -> int {
    if new_height > old_height && old_offset > 0 {
        let dec = new_height - old_height;
        if old_offset >= dec {
            old_offset - dec
        } else {
            0
        }
    } else if new_height < old_height && sel >= old_offset + new_height {
        let room = if new_height >= 1 {
            new_height - 1
        } else {
            0
        };
        let o1 = if sel >= room {
            sel - room
        } else {
            0
        };
        if o1 + new_height > list_len {
            if list_len >= new_height {
                list_len - new_height
            } else {
                0
            }
        } else {
            o1
        }
    } else {
        old_offset
    }
}

/// Recomputes the viewport for a new terminal size, keeping the
/// selection visible without changing it.
pub fn handle_resize(
    width: u16,
    height: u16,
    ui_state: &UiState,
    indexes_to_display: &Vec<CommandIndex>,
) -> (r: UiState)
    ensures
        r.selected_index == ui_state.selected_index,
        r.is_filtering == ui_state.is_filtering,
        r.filter_text@ == ui_state.filter_text@,
        r.viewport.width == width,
        r.viewport.height as int == (if height >= 2 {
            height - 2
        } else {
            0
        }),
        r.viewport.offset as int == spec_resize(
            ui_state.selected_index as int,
            ui_state.viewport.offset as int,
            ui_state.viewport.height as int,
            (if height >= 2 {
                height - 2
            } else {
                0
            }) as int,
            indexes_to_display@.len() as int,
        ),
{
    let new_height: u16 = if height >= 2 {
        height - 2
    } else {
        0
    };
    let nh = new_height as usize;
    let old_height = ui_state.viewport.height;
    let sel = ui_state.selected_index;
    let len = indexes_to_display.len();
    let mut new_offset = ui_state.viewport.offset;
    if new_height > old_height && new_offset > 0 {
        let dec = (new_height - old_height) as usize;
        new_offset = if new_offset >= dec {
            new_offset - dec
        } else {
            0
        };
    } else if new_height < old_height && sel >= new_offset && sel - new_offset >= nh {
        let room: usize = if nh >= 1 {
            nh - 1
        } else {
            0
        };
        new_offset = if sel >= room {
            sel - room
        } else {
            0
        };
        let needs_clamp = if len >= nh {
            new_offset > len - nh
        } else {
            true
        };
        if needs_clamp {
            new_offset = if len >= nh {
                len - nh
            } else {
                0
            };
        }
    }
    UiState {
        selected_index: sel,
        viewport: ViewportState { offset: new_offset, height: new_height, width },
        is_filtering: ui_state.is_filtering,
        filter_text: ui_state.filter_text.clone(),
    }
}

/// A keyboard event, reduced to what the selector reacts to.
#[derive(Debug, Clone, Copy, PartialEq, Eq, Structural)]
pub enum KeyInput {
    Up,
    Down,
    Enter,
    Backspace,
    Esc,
    CtrlC,
    Char(char),
}

/// A mouse event, reduced to what the selector reacts to: the left
/// button going down or up on a row, or the wheel scrolling.
#[derive(Debug, Clone, Copy, PartialEq, Eq, Structural)]
pub enum MouseInput {
    LeftDown,
    LeftUp,
    ScrollUp,
    ScrollDown,
    Other,
}

/// Whether `s` is `ui` with only the changes the clauses allow: same
/// viewport and selection, with the given filtering flag and text.
pub open spec fn filter_changed_like(
    ui: &UiState,
    s: &UiState,
    is_filtering: bool,
    text: Seq<char>,
) -> bool {
    &&& s.selected_index == ui.selected_index
    &&& s.viewport == ui.viewport
    &&& s.is_filtering == is_filtering
    &&& s.filter_text@ == text
}

/// Whether `s` is `ui` after one cyclic move over a list of `n` rows.
pub open spec fn moved_like(ui: &UiState, n: int, dir: CycleDirection, s: &UiState) -> bool {
    &&& s.is_filtering == ui.is_filtering
    &&& s.filter_text@ == ui.filter_text@
    &&& s.viewport.height == ui.viewport.height
    &&& s.viewport.width == ui.viewport.width
    &&& (s.selected_index as int, s.viewport.offset as int) == spec_move(
        ui.selected_index as int,
        ui.viewport.offset as int,
        ui.viewport.height as int,
        n,
        dir,
    )
}

/// Whether committing the row at `sel` yields exactly `r`: a stored
/// command by its position, the previous command for the rerun entry
/// when one exists, and nothing otherwise.
pub open spec fn commit_like(
    idxs: Seq<CommandIndex>,
    sel: int,
    last: Option<&CommandExecutionTemplate>,
    r: (Option<UiState>, Option<CommandChoice>),
) -> bool {
    if 0 <= sel < idxs.len() {
        match idxs[sel] {
            CommandIndex::Normal(i) => r.0 is None && (r.1 matches Some(CommandChoice::Index(j))
                && j == i),
            CommandIndex::Rerun => match last {
                Some(lc) => r.0 is None && (r.1 matches Some(CommandChoice::Rerun(t))
                    && spec_same_template(&t, lc)),
                None => r.0 is None && r.1 is None,
            },
        }
    } else {
        r.0 is None && r.1 is None
    }
}

/// Reacts to one keyboard event: arrows move the selection, Enter
/// commits the selected row, `/` begins filtering, printable characters
/// and Backspace edit the filter, Esc leaves filtering, and `q` or
/// Ctrl-C quits.  The reserved rerun key commits the previous command
/// directly.
pub fn handle_key_event(
    key: KeyInput,
    ui_state: &UiState,
    indexes_to_display: &Vec<CommandIndex>,
    last_command: Option<&CommandExecutionTemplate>,
) -> (r: (Option<UiState>, Option<CommandChoice>))
    requires
        indexes_to_display@.len() > 0 ==> ui_state.selected_index < indexes_to_display@.len(),
    ensures
        (match key {
            KeyInput::Up => r.1 is None && (r.0 matches Some(s) && moved_like(
                ui_state,
                indexes_to_display@.len() as int,
                CycleDirection::Up,
                &s,
            )),
            KeyInput::Down => r.1 is None && (r.0 matches Some(s) && moved_like(
                ui_state,
                indexes_to_display@.len() as int,
                CycleDirection::Down,
                &s,
            )),
            KeyInput::Enter => commit_like(
                indexes_to_display@,
                ui_state.selected_index as int,
                last_command,
                r,
            ),
            KeyInput::Backspace => if ui_state.filter_text@.len() > 0 {
                r.1 is None && (r.0 matches Some(s) && filter_changed_like(
                    ui_state,
                    &s,
                    ui_state.is_filtering,
                    ui_state.filter_text@.drop_last(),
                ))
            } else {
                r.0 is None && r.1 is None
            },
            KeyInput::CtrlC => r.0 is None && (r.1 matches Some(CommandChoice::Quit)),
            KeyInput::Esc => if ui_state.is_filtering {
                r.1 is None && (r.0 matches Some(s) && filter_changed_like(
                    ui_state,
                    &s,
                    false,
                    Seq::empty(),
                ))
            } else {
                r.0 is None && r.1 is None
            },
            KeyInput::Char(c) => if ui_state.is_filtering {
                r.1 is None && (r.0 matches Some(s) && filter_changed_like(
                    ui_state,
                    &s,
                    true,
                    ui_state.filter_text@.push(c),
                ))
            } else if c == '/' {
                r.1 is None && (r.0 matches Some(s) && filter_changed_like(
                    ui_state,
                    &s,
                    true,
                    ui_state.filter_text@,
                ))
            } else if c == 'q' {
                r.0 is None && (r.1 matches Some(CommandChoice::Quit))
            } else if c == 'r' {
                match last_command {
                    Some(lc) => r.0 is None && (r.1 matches Some(CommandChoice::Rerun(t))
                        && spec_same_template(&t, lc)),
                    None => r.0 is None && r.1 is None,
                }
            } else {
                r.0 is None && r.1 is None
            },
        }),
{
    match key {
        KeyInput::Up => {
            let s = move_selected_index(ui_state, indexes_to_display.len(), &CycleDirection::Up);
            (Some(s), None)
        },
        KeyInput::Down => {
            let s = move_selected_index(ui_state, indexes_to_display.len(), &CycleDirection::Down);
            (Some(s), None)
        },
        KeyInput::Enter => {
            if ui_state.selected_index < indexes_to_display.len() {
                match &indexes_to_display[ui_state.selected_index] {
                    CommandIndex::Normal(i) => (None, Some(CommandChoice::Index(*i))),
                    CommandIndex::Rerun => match last_command {
                        Some(lc) => (None, Some(CommandChoice::Rerun(lc.duplicate()))),
                        None => (None, None),
                    },
                }
            } else {
                (None, None)
            }
        },
        KeyInput::Backspace => {
            let text = ui_state.filter_text.as_str();
            let n = text.unicode_len();
            if n > 0 {
                let shorter = text.substring_char(0, n - 1).to_owned();
                proof {
                    assert(shorter@ =~= ui_state.filter_text@.drop_last());
                }
                (
                    Some(
                        UiState {
                            selected_index: ui_state.selected_index,
                            viewport: ui_state.viewport,
                            is_filtering: ui_state.is_filtering,
                            filter_text: shorter,
                        },
                    ),
                    None,
                )
            } else {
                (None, None)
            }
        },
        KeyInput::CtrlC => (None, Some(CommandChoice::Quit)),
        KeyInput::Esc => {
            if ui_state.is_filtering {
                (
                    Some(
                        UiState {
                            selected_index: ui_state.selected_index,
                            viewport: ui_state.viewport,
                            is_filtering: false,
                            filter_text: String::new(),
                        },
                    ),
                    None,
                )
            } else {
                (None, None)
            }
        },
        KeyInput::Char(c) => {
            if ui_state.is_filtering {
                let mut text = ui_state.filter_text.clone();
                crate::numerals::push_char(&mut text, c);
                (
                    Some(
                        UiState {
                            selected_index: ui_state.selected_index,
                            viewport: ui_state.viewport,
                            is_filtering: true,
                            filter_text: text,
                        },
                    ),
                    None,
                )
            } else if c == '/' {
                (
                    Some(
                        UiState {
                            selected_index: ui_state.selected_index,
                            viewport: ui_state.viewport,
                            is_filtering: true,
                            filter_text: ui_state.filter_text.clone(),
                        },
                    ),
                    None,
                )
            } else if c == 'q' {
                (None, Some(CommandChoice::Quit))
            } else if c == LAST_COMMAND_OPTION {
                match last_command {
                    Some(lc) => (None, Some(CommandChoice::Rerun(lc.duplicate()))),
                    None => (None, None),
                }
            } else {
                (None, None)
            }
        },
    }
}

/// Reacts to one mouse event: pressing the left button records the row,
/// releasing it on a visible row commits that row as Enter would, and
/// the wheel moves the selection.
pub fn handle_mouse_event(
    kind: MouseInput,
    previous_mouse_down_row: Option<u16>,
    mouse_down_row: u16,
    ui_state: &UiState,
    indexes_to_display: &Vec<CommandIndex>,
    last_command: Option<&CommandExecutionTemplate>,
) -> (r: (Option<UiState>, Option<CommandChoice>, Option<u16>))
    requires
        indexes_to_display@.len() > 0 ==> ui_state.selected_index < indexes_to_display@.len(),
    ensures
        (match kind {
            MouseInput::LeftDown => r.0 is None && r.1 is None && r.2 == Some(mouse_down_row),
            MouseInput::LeftUp => match previous_mouse_down_row {
                Some(down_row) => if down_row >= 1 && down_row - 1 + ui_state.viewport.offset
                    < indexes_to_display@.len() {
                    commit_like(
                        indexes_to_display@,
                        down_row - 1 + ui_state.viewport.offset,
                        last_command,
                        (r.0, r.1),
                    ) && (r.1 is Some ==> r.2 == Some(down_row)) && (r.1 is None ==> r.2
                        is None) && r.0 is None
                } else {
                    r.0 is None && r.1 is None && r.2 is None
                },
                None => r.0 is None && r.1 is None && r.2 is None,
            },
            MouseInput::ScrollUp => r.1 is None && r.2 is None && (r.0 matches Some(s)
                && moved_like(
                ui_state,
                indexes_to_display@.len() as int,
                CycleDirection::Up,
                &s,
            )),
            MouseInput::ScrollDown => r.1 is None && r.2 is None && (r.0 matches Some(s)
                && moved_like(
                ui_state,
                indexes_to_display@.len() as int,
                CycleDirection::Down,
                &s,
            )),
            MouseInput::Other => r.0 is None && r.1 is None && r.2 is None,
        }),
{
    match kind {
        MouseInput::LeftDown => (None, None, Some(mouse_down_row)),
        MouseInput::LeftUp => {
            match previous_mouse_down_row {
                Some(down_row) => {
                    if down_row >= 1 {
                        let rel = (down_row - 1) as usize;
                        let len = indexes_to_display.len();
                        let offset = ui_state.viewport.offset;
                        if rel < len && offset <= len - 1 - rel {
                            let clicked = rel + offset;
                            match &indexes_to_display[clicked] {
                                CommandIndex::Normal(i) => (
                                    None,
                                    Some(CommandChoice::Index(*i)),
                                    Some(down_row),
                                ),
                                CommandIndex::Rerun => match last_command {
                                    Some(lc) => (
                                        None,
                                        Some(CommandChoice::Rerun(lc.duplicate())),
                                        Some(down_row),
                                    ),
                                    None => (None, None, None),
                                },
                            }
                        } else {
                            (None, None, None)
                        }
                    } else {
                        (None, None, None)
                    }
                },
                None => (None, None, None),
            }
        },
        MouseInput::ScrollUp => {
            let s = move_selected_index(ui_state, indexes_to_display.len(), &CycleDirection::Up);
            (Some(s), None, None)
        },
        MouseInput::ScrollDown => {
            let s = move_selected_index(ui_state, indexes_to_display.len(), &CycleDirection::Down);
            (Some(s), None, None)
        },
        MouseInput::Other => (None, None, None),
    }
}

/// What fuzzy-matching a pattern against a text yields; the scoring
/// algorithm itself is not restated here.
pub uninterp spec fn fuzzy_matches(text: Seq<char>, pattern: Seq<char>) -> bool;

/// Relies on fuzzy_matcher's SkimMatcherV2 in its default configuration:
/// whether the pattern fuzzy-matches the text, a function of the two
/// strings alone.
#[verifier::external_body]
fn fuzzy_match_label(text: &str, pattern: &str) -> (r: bool)
    ensures
        r == fuzzy_matches(text@, pattern@),
{
    let matcher = fuzzy_matcher::skim::SkimMatcherV2::default();
    fuzzy_matcher::FuzzyMatcher::fuzzy_match(&matcher, text, pattern).is_some()
}

/// Whether `needle` occurs contiguously inside `hay`.
pub open spec fn is_substring_of(needle: Seq<char>, hay: Seq<char>) -> bool {
    exists|i: int|
        0 <= i <= hay.len() - needle.len() && #[trigger] hay.subrange(i, i + needle.len())
            == needle
}

/// Searches `hay` for `needle`.
fn str_contains_str(hay: &str, needle: &str) -> (r: bool)
    ensures
        r == is_substring_of(needle@, hay@),
{
    let hn = hay.unicode_len();
    let nn = needle.unicode_len();
    if nn > hn {
        proof {
            assert(!is_substring_of(needle@, hay@)) by {
                if is_substring_of(needle@, hay@) {
                    let i = choose|i: int|
                        0 <= i <= hay@.len() - needle@.len() && #[trigger] hay@.subrange(
                            i,
                            i + needle@.len(),
                        ) == needle@;
                }
            }
        }
        return false;
    }
    let mut start: usize = 0;
    while start <= hn - nn
        invariant
            nn <= hn,
            hn == hay@.len(),
            nn == needle@.len(),
            start <= hn - nn + 1,
            forall|i: int|
                0 <= i < start ==> #[trigger] hay@.subrange(i, i + needle@.len()) != needle@,
        decreases hn - nn - start + 1,
    {
        let mut j: usize = 0;
        let mut matched = true;
        while j < nn
            invariant_except_break
                j <= nn,
                matched,
                start + nn <= hn,
                hn == hay@.len(),
                nn == needle@.len(),
                forall|k: int| 0 <= k < j ==> hay@[start + k] == needle@[k],
            ensures
                start + nn <= hn,
                hn == hay@.len(),
                nn == needle@.len(),
                matched ==> j == nn && (forall|k: int|
                    0 <= k < nn ==> hay@[start + k] == needle@[k]),
                !matched ==> (exists|k: int| 0 <= k < nn && hay@[start + k] != needle@[k]),
            decreases nn - j,
        {
            if hay.get_char(start + j) != needle.get_char(j) {
                proof {
                    assert(hay@[start + j] != needle@[j as int]);
                }
                matched = false;
                break ;
            }
            j += 1;
        }
        if matched {
            proof {
                assert(hay@.subrange(start as int, start + needle@.len()) =~= needle@);
            }
            return true;
        }
        proof {
            assert(hay@.subrange(start as int, start + needle@.len()) != needle@) by {
                let k = choose|k: int| 0 <= k < nn && hay@[start + k] != needle@[k];
                assert(hay@.subrange(start as int, start + needle@.len())[k] == hay@[start + k]);
            }
        }
        start += 1;
    }
    proof {
        assert(!is_substring_of(needle@, hay@)) by {
            if is_substring_of(needle@, hay@) {
                let i = choose|i: int|
                    0 <= i <= hay@.len() - needle@.len() && #[trigger] hay@.subrange(
                        i,
                        i + needle@.len(),
                    ) == needle@;
                assert(hay@.subrange(i, i + needle@.len()) != needle@);
            }
        }
    }
    false
}

/// Whether one row stays in the filtered list: with numeric filter text
/// the numeral must occur in the row's index label; otherwise the text
/// must fuzzy-match the row's display label.
pub open spec fn spec_entry_matches(
    display: Seq<char>,
    index_string: Seq<char>,
    pred: Seq<char>,
) -> bool {
    match spec_parse_usize(pred) {
        Some(p) => is_substring_of(spec_decimal(p as nat), index_string),
        None => fuzzy_matches(display, pred),
    }
}

/// The stored-command rows that match the filter, in index order.
pub open spec fn spec_filter_normals(labels: Seq<Seq<char>>, pred: Seq<char>, i: int) -> Seq<
    CommandIndex,
>
    decreases labels.len() - i,
{
    if i < 0 || i >= labels.len() {
        Seq::empty()
    } else {
        let rest = spec_filter_normals(labels, pred, i + 1);
        if spec_entry_matches(labels[i], spec_decimal((i + 1) as nat), pred) {
            seq![CommandIndex::Normal(i as usize)] + rest
        } else {
            rest
        }
    }
}

/// The whole filtered list: matching stored commands in index order,
/// then the rerun entry when it exists and matches.
pub open spec fn spec_filtered(
    labels: Seq<Seq<char>>,
    rerun: Option<Seq<char>>,
    pred: Seq<char>,
) -> Seq<CommandIndex> {
    spec_filter_normals(labels, pred, 0) + (match rerun {
        Some(lb) => if spec_entry_matches(lb, seq!['r'], pred) {
            seq![CommandIndex::Rerun]
        } else {
            Seq::empty()
        },
        None => Seq::empty(),
    })
}

/// Filters the display list: with numeric filter text, rows whose index
/// label holds that numeral; otherwise rows whose display label the
/// text fuzzy-matches.  Stored commands come in index order; the rerun
/// entry, when present and matching, comes last.
pub fn filter_displayed_indexes(
    command_labels: &Vec<String>,
    rerun_label: Option<&String>,
    predicate: &str,
) -> (r: Vec<CommandIndex>)
    requires
        command_labels@.len() < usize::MAX,
    ensures
        r@ == spec_filtered(
            command_labels.deep_view(),
            (match rerun_label {
                Some(lb) => Some(lb@),
                None => None,
            }),
            predicate@,
        ),
{
    let ghost labels = command_labels.deep_view();
    let parsed = parse_usize(predicate);
    let needle: Option<String> = match parsed {
        Some(p) => Some(to_decimal(p)),
        None => None,
    };
    let mut out: Vec<CommandIndex> = Vec::new();
    let n = command_labels.len();
    let mut i: usize = 0;
    while i < n
        invariant
            i <= n,
            n == command_labels@.len(),
            n < usize::MAX,
            labels == command_labels.deep_view(),
            parsed == spec_parse_usize(predicate@),
            (match (parsed, needle) {
                (Some(p), Some(d)) => d@ == spec_decimal(p as nat),
                (None, None) => true,
                _ => false,
            }),
            spec_filter_normals(labels, predicate@, 0) == out@ + spec_filter_normals(
                labels,
                predicate@,
                i as int,
            ),
        decreases n - i,
    {
        proof {
            assert(labels[i as int] == command_labels@[i as int]@);
        }
        let index_string = to_decimal(i + 1);
        let keep = match &needle {
            Some(d) => str_contains_str(index_string.as_str(), d.as_str()),
            None => fuzzy_match_label(command_labels[i].as_str(), predicate),
        };
        let ghost out0 = out@;
        if keep {
            out.push(CommandIndex::Normal(i));
        }
        i += 1;
        proof {
            if keep {
                assert(out@ =~= out0 + seq![CommandIndex::Normal((i - 1) as usize)]);
                assert(out0 + (seq![CommandIndex::Normal((i - 1) as usize)]
                    + spec_filter_normals(labels, predicate@, i as int)) =~= out@
                    + spec_filter_normals(labels, predicate@, i as int));
            }
        }
    }
    proof {
        assert(spec_filter_normals(labels, predicate@, n as int) =~= Seq::<CommandIndex>::empty());
        assert(out@ + Seq::<CommandIndex>::empty() =~= out@);
    }
    match rerun_label {
        Some(lb) => {
            let rerun_string: String = "r".to_owned();
            proof {
                reveal_strlit("r");
                assert(rerun_string@ =~= seq!['r']);
            }
            let keep = match &needle {
                Some(d) => str_contains_str(rerun_string.as_str(), d.as_str()),
                None => fuzzy_match_label(lb.as_str(), predicate),
            };
            let ghost out0 = out@;
            if keep {
                out.push(CommandIndex::Rerun);
                proof {
                    assert(out@ =~= out0 + seq![CommandIndex::Rerun]);
                }
            } else {
                proof {
                    assert(out@ =~= out0 + Seq::<CommandIndex>::empty());
                }
            }
        },
        None => {
            proof {
                assert(out@ + Seq::<CommandIndex>::empty() =~= out@);
            }
        },
    }
    out
}

} // verus!
