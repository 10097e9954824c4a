pub mod add_comment;
pub mod create_gate;
pub mod delete_comment;
pub mod delete_gate;
pub mod get_gate;
pub mod list_gates;
pub mod update_display_order;
pub mod update_gate_state;
