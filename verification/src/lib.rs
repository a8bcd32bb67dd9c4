pub mod chat;
pub mod chat_list;
pub mod app_state;
pub mod code_checking;
pub mod content_filter;
pub mod conversation_search;
pub mod live_markdown;
pub mod image_editing;
pub mod password;
pub mod profiles;
pub mod server_address;
pub mod text;
pub mod thinking;
pub mod versions;
pub mod tool_settings;
pub mod web_search;
