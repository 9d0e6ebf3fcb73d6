pub mod cmd;
mod config;
mod events;
mod geometry;
mod keys;
mod layout;
mod manager;
mod screen;
mod stack;
mod text;
mod workspaces;

pub use cmd::Command;
pub use config::{
    get_bound_commands, get_bound_workspaces, get_gaps, get_parsed_group_definitions,
    lookup_actiontypes_by_index, parse_mask_and_key, parse_mask_keys, parse_work_space,
    safe_xk_parse, split_args, split_mask_keys, str_to_mask_key, ActionTypes, BoundCommand,
    BoundWorkSpace, Config, Gaps, GroupDefinition, KeyBindingDefinition, SpawnBindingDefinition,
    XKeyValue,
};
pub use events::{placements_to_effects, Effect, Event, GapKind, WindowType};
pub use geometry::{Viewport, WindowGeometry, WindowId};
pub use keys::{KeyCombo, ModKey};
pub use layout::{
    CenterMaster, FloatingMasterLayout, Layout, Placement, StackLayout, TileLayout, TiledLayout,
};
pub use manager::{gen_workspaces, Volan, WmError};
pub use screen::{Dock, Screen, Strut};
pub use stack::Stack;
pub use text::{split_pipe, str_eq};
pub use workspaces::{WorkSpace, WorkSpaceBuilder};
