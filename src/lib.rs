//! The pane and tab multiplexing core of a lighting console's workspace:
//! items behind type-erased handles, panes with an activation history that
//! decides which tab comes forward when one closes, the split tree of panes,
//! the workspace that routes items and actions to them, and the status bar
//! that follows the active item. Settings, assets and the quit and close
//! decisions sit beside them.

pub mod assets;
pub mod item;
pub mod json;
pub mod lifecycle;
pub mod pane;
pub mod pane_group;
pub mod settings;
pub mod status_bar;
pub mod ui;
pub mod workspace;
