//! Migración de álbumes del formato de origen (Access/Jet): lectura de CSV,
//! mapeo de campos y tipos, normalización de rutas de imágenes y reglas de
//! conversión de filtros, nombres y fechas.

pub mod paths;
pub mod csv_parser;
pub mod type_map;
pub mod migrar;
pub mod diag;
pub mod jet;
pub mod registros;
pub mod tablas;
pub mod plantilla;
pub mod mdbtools;
