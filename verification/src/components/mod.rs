pub mod parsing;
pub mod xml;
pub mod message_list;
pub mod spans;
pub mod activity_bar;
pub mod tool_bar;
pub mod input_box;
pub mod powerline_tab;
pub mod height_buffer;
