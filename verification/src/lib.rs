//! Núcleo verificado de MIC: modelo de campos, motor de fórmulas (tokenizado,
//! análisis sintáctico, expansión de calculados y orden de recálculo),
//! construcción de consultas, lectura de CSV de Access, normalización de rutas
//! y preparación de importaciones.

pub mod album;
pub mod calc;
pub mod db;
pub mod error;
pub mod exportar;
pub mod importar;
pub mod ligados;
pub mod migrador;
pub mod model;
pub mod protocolo;
pub mod texto;
pub mod thumbs;
