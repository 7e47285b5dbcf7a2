//! Motor de campos calculados: tokenizado, análisis sintáctico de fórmulas,
//! funciones reconocidas, expansión de referencias entre calculados y orden
//! de recálculo.

pub mod functions;
pub mod lexer;
pub mod sintaxis;
pub mod expand;
