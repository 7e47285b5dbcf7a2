//! Errores del dominio MIC.

use vstd::prelude::*;
use vstd::string::*;
use crate::texto::{concatenar, concatenar3};

verus! {

/// Error general del dominio. Cada variante lleva un mensaje en español listo
/// para mostrarse; [`MicError::mensaje`] da el texto completo.
#[derive(Debug, Clone, PartialEq, Eq)]
pub enum MicError {
    Db(String),
    Calc { campo: String, detalle: String },
    CicloCalculo(String),
    NoEncontrado(String),
    Invalido(String),
    Io(String),
    Migracion(String),
}

/// Vista de un [`MicError`]: la variante con sus textos como secuencias.
pub enum MicErrorSpec {
    Db(Seq<char>),
    Calc(Seq<char>, Seq<char>),
    CicloCalculo(Seq<char>),
    NoEncontrado(Seq<char>),
    Invalido(Seq<char>),
    Io(Seq<char>),
    Migracion(Seq<char>),
}

impl View for MicError {
    type V = MicErrorSpec;

    open spec fn view(&self) -> MicErrorSpec {
        match self {
            MicError::Db(s) => MicErrorSpec::Db(s@),
            MicError::Calc { campo, detalle } => MicErrorSpec::Calc(campo@, detalle@),
            MicError::CicloCalculo(s) => MicErrorSpec::CicloCalculo(s@),
            MicError::NoEncontrado(s) => MicErrorSpec::NoEncontrado(s@),
            MicError::Invalido(s) => MicErrorSpec::Invalido(s@),
            MicError::Io(s) => MicErrorSpec::Io(s@),
            MicError::Migracion(s) => MicErrorSpec::Migracion(s@),
        }
    }
}

impl MicError {
    /// Texto completo del error, tal como se muestra al usuario.
    pub open spec fn mensaje_spec(&self) -> Seq<char> {
        match self {
            MicError::Db(s) => "error de base de datos: "@ + s@,
            MicError::Calc { campo, detalle } => "error de fórmula en '"@ + campo@ + "': "@
                + detalle@,
            MicError::CicloCalculo(s) => "ciclo detectado en campos calculados: "@ + s@,
            MicError::NoEncontrado(s) => "no encontrado: "@ + s@,
            MicError::Invalido(s) => "dato inválido: "@ + s@,
            MicError::Io(s) => "error de E/S: "@ + s@,
            MicError::Migracion(s) => "error de migración: "@ + s@,
        }
    }

    /// Texto completo del error, tal como se muestra al usuario.
    pub fn mensaje(&self) -> (r: String)
        ensures
            r@ == self.mensaje_spec(),
    {
        match self {
            MicError::Db(s) => concatenar("error de base de datos: ", s.as_str()),
            MicError::Calc { campo, detalle } => {
                let mut r = concatenar3("error de fórmula en '", campo.as_str(), "': ");
                r.append(detalle.as_str());
                r
            },
            MicError::CicloCalculo(s) => concatenar(
                "ciclo detectado en campos calculados: ",
                s.as_str(),
            ),
            MicError::NoEncontrado(s) => concatenar("no encontrado: ", s.as_str()),
            MicError::Invalido(s) => concatenar("dato inválido: ", s.as_str()),
            MicError::Io(s) => concatenar("error de E/S: ", s.as_str()),
            MicError::Migracion(s) => concatenar("error de migración: ", s.as_str()),
        }
    }
}

} // verus!
