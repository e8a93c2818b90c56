pub mod comma;
pub mod dot;
pub mod dot_separated_value;
pub mod from_item;
pub mod identifier;
pub mod keywords;
pub mod selected_expressions;
pub mod semicolon;
pub mod star;
pub mod whitespace;
