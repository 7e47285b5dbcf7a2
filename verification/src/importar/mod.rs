//! Importación de registros desde CSV o XLSX: formato, codificación y
//! separador del archivo, casamiento de columnas con los campos del álbum,
//! normalización de cada celda según el tipo de su campo y preparación de las
//! filas por llave.

pub mod aplicar;
pub mod archivo;
pub mod celdas;
pub mod preparar;
