pub mod agent_panel;
pub mod forms;
pub mod panes;
pub mod search_bar;
pub mod session_tree;
pub mod tabs;
pub mod dialogs;
