pub mod m20240820_000001_create_user_table;
pub mod m20240820_000002_create_post_table;
