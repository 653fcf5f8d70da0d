//! Table-mapping rules and CRUD planning for the Xugu database on top of rbatis.
pub mod crud;
pub mod text;
pub mod xugu_mapper;
