pub mod connection_form;
pub mod connections;
pub mod data_table;
pub mod indexes;
pub mod metadata;
pub mod roles;
pub mod shell;
pub mod table_page;
pub mod tabs;
pub mod theme;
