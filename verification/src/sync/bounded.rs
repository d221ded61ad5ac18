pub mod machine;
mod table;
