//! Reglas del almacenamiento del álbum: nombres físicos de columnas,
//! construcción segura de las consultas de registros, códigos persistidos de
//! tipos y operadores.

pub mod schema;
pub mod query_builder;
pub mod codigos;
pub mod grupos;
pub mod ddl;
pub mod consultas;
pub mod fts;
