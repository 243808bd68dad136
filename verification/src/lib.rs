pub mod digest;
pub mod discovery;
pub mod json;
pub mod operator;
pub mod ordered;
pub mod protocol;
pub mod proxy;
pub mod string_map;
pub mod text;
pub mod text_list;
pub mod wire;
