//! Workspace, pane, tab-transfer and input logic of the TinyShell terminal client.
pub mod close_flow;
pub mod connection_groups;
pub mod decimal;
pub mod docker_panel;
pub mod editor_registry;
pub mod highlight_manager;
pub mod highlighting;
pub mod ids;
pub mod launch_env;
pub mod pane_layout;
pub mod selector;
pub mod seq_util;
pub mod settings;
pub mod sftp_editor;
pub mod sftp_forms;
pub mod sftp_editor_state;
pub mod shell;
pub mod shell_close;
pub mod shell_groups;
pub mod shell_info;
pub mod shell_merge;
pub mod ssh_key_import;
pub mod ssh_session_form;
pub mod shell_panes;
pub mod shell_receive;
pub mod shell_split;
pub mod shell_tab_close;
pub mod shell_transfer;
pub mod sorted_strs;
pub mod str_seq;
pub mod tab_drag;
pub mod tab_transfer;
pub mod terminal_completion;
pub mod theme;
pub mod transfer_laws;
pub mod update_status;
pub mod tool_panel;
pub mod terminal_path;
pub mod terminal_scrollbar;
pub mod terminal_workspace;
pub mod text;
