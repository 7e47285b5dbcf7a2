//! Diagnóstico de la migración: el último paso registrado, para que un
//! mensaje de error o de plazo vencido diga dónde se quedó el proceso.
//!
//! La bitácora en disco y el estado compartido entre hilos quedan fuera de la
//! biblioteca verificada.

use vstd::prelude::*;

verus! {

/// Último paso registrado de una migración.
#[derive(Debug)]
pub struct Diagnostico {
    paso: String,
}

impl Diagnostico {
    /// Texto del último paso registrado.
    pub closed spec fn ultimo(&self) -> Seq<char> {
        self.paso@
    }

    /// Diagnóstico sin pasos.
    pub fn new() -> (r: Diagnostico)
        ensures
            r.ultimo() == Seq::<char>::empty(),
    {
        Diagnostico { paso: String::new() }
    }

    /// Registra `etiqueta` como paso actual.
    pub fn paso(&mut self, etiqueta: &str)
        ensures
            final(self).ultimo() == etiqueta@,
    {
        self.paso = String::from_str(etiqueta);
    }

    /// Último paso registrado (vacío si aún no hay ninguno).
    pub fn paso_actual(&self) -> (r: String)
        ensures
            r@ == self.ultimo(),
    {
        self.paso.clone()
    }
}

} // verus!
